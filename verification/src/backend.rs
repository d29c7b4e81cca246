//! The persistence port: the store of accounts, devices, subscriptions and
//! episode rows that the synchronization engine reconciles against.
//!
//! The store is an in-memory table set with explicit invariants: account
//! names are unique, subscription rows are unique on
//! `(username, device, url)`, and episode rows are unique on
//! `(username, podcast, episode)` and always carry the content hash of
//! their own logical fields. Every operation is specified against the
//! store's mathematical value, and each multi-row operation takes effect
//! as one atomic step of `&mut self`: a caller can never observe a
//! half-applied batch.

use vstd::prelude::*;

use crate::device::{DeviceAndSub, DeviceRecord, DeviceRecordV, DeviceType, DeviceUpdate};
use crate::episode::action::{EpisodeAction, EpisodeActionRaw, TimePrimitive};
use crate::episode::episode::{
    content_hash_of, spec_content_hash, Episode, EpisodeRaw, EpisodeRawV, EpisodeV,
};
use crate::episode::time::Time;
use crate::podsync::{QueryEpisodes, Url, UrlV};
use crate::strutil::str_eq;
use crate::subscription::{SubRecord, SubRecordV, SubscriptionChangesFromClient};
use crate::time::Timestamp;
use crate::user::{User, UserV};

verus! {

/// Why an account lookup failed: the account does not exist, or the store
/// itself failed.
#[derive(Debug, Clone, Copy, PartialEq, Eq, Structural)]
pub enum FindError {
    NotFound,
    Internal,
}

/// One episode row as the store keeps it: the decomposed action fields,
/// the server-side `modified` stamp, and the content hash of the row's
/// logical fields.
#[derive(Debug, Clone)]
pub struct EpisodeRow {
    pub username: String,
    pub device: Option<String>,
    pub podcast: String,
    pub episode: String,
    pub timestamp: Option<Time>,
    pub guid: Option<String>,
    pub action: EpisodeActionRaw,
    pub started: Option<TimePrimitive>,
    pub position: Option<TimePrimitive>,
    pub total: Option<TimePrimitive>,
    pub modified: Timestamp,
    pub content_hash: u64,
}

/// The mathematical value of an [`EpisodeRow`].
pub struct EpisodeRowV {
    pub username: Seq<char>,
    pub device: Option<Seq<char>>,
    pub podcast: Seq<char>,
    pub episode: Seq<char>,
    pub timestamp: Option<int>,
    pub guid: Option<Seq<char>>,
    pub action: EpisodeActionRaw,
    pub started: Option<TimePrimitive>,
    pub position: Option<TimePrimitive>,
    pub total: Option<TimePrimitive>,
    pub modified: int,
    pub content_hash: int,
}

impl DeepView for EpisodeRow {
    type V = EpisodeRowV;

    open spec fn deep_view(&self) -> EpisodeRowV {
        EpisodeRowV {
            username: self.username@,
            device: self.device.deep_view(),
            podcast: self.podcast@,
            episode: self.episode@,
            timestamp: self.timestamp.deep_view(),
            guid: self.guid.deep_view(),
            action: self.action,
            started: self.started,
            position: self.position,
            total: self.total,
            modified: self.modified.value(),
            content_hash: self.content_hash as int,
        }
    }
}

/// The action a stored row denotes, if its fields cohere.
pub open spec fn row_action(r: EpisodeRowV) -> Option<EpisodeAction> {
    EpisodeAction::spec_from_raw_parts(r.action, r.started, r.position, r.total)
}

/// A stored episode row is coherent: its action fields denote an action,
/// and its content hash is the hash of its own logical fields.
pub open spec fn ep_row_ok(r: EpisodeRowV) -> bool {
    match row_action(r) {
        Some(a) => r.content_hash == content_hash_of(r.podcast, r.episode, r.timestamp, r.guid, a),
        None => false,
    }
}

/// The mathematical value of the whole store.
pub struct BackendV {
    pub users: Seq<UserV>,
    pub devices: Seq<DeviceRecordV>,
    pub subscriptions: Seq<SubRecordV>,
    pub episodes: Seq<EpisodeRowV>,
}

/// Account names are unique: this is what makes "at most one live session
/// token per account" meaningful.
pub open spec fn users_wf(users: Seq<UserV>) -> bool {
    forall|i: int, j: int|
        0 <= i < j < users.len() ==> users[i].username != users[j].username
}

/// Device rows are unique on `(username, id)`.
pub open spec fn devices_wf(devices: Seq<DeviceRecordV>) -> bool {
    forall|i: int, j: int|
        0 <= i < j < devices.len() ==> !(devices[i].username == devices[j].username
            && devices[i].id == devices[j].id)
}

/// Subscription rows are unique on `(username, device, url)`.
pub open spec fn subs_wf(subs: Seq<SubRecordV>) -> bool {
    forall|i: int, j: int|
        0 <= i < j < subs.len() ==> !(subs[i].username == subs[j].username
            && subs[i].device == subs[j].device && subs[i].url == subs[j].url)
}

/// Episode rows are unique on `(username, podcast, episode)` — the device
/// is deliberately no part of the identity — and every row is coherent.
pub open spec fn eps_wf(eps: Seq<EpisodeRowV>) -> bool {
    &&& forall|i: int, j: int|
        0 <= i < j < eps.len() ==> !(eps[i].username == eps[j].username
            && eps[i].podcast == eps[j].podcast && eps[i].episode == eps[j].episode)
    &&& forall|i: int| 0 <= i < eps.len() ==> ep_row_ok(#[trigger] eps[i])
}

/// The persistence port itself: an in-memory store.
pub struct Backend {
    users: Vec<User>,
    devices: Vec<DeviceRecord>,
    subscriptions: Vec<SubRecord>,
    episodes: Vec<EpisodeRow>,
}

impl View for Backend {
    type V = BackendV;

    closed spec fn view(&self) -> BackendV {
        BackendV {
            users: self.users.deep_view(),
            devices: self.devices.deep_view(),
            subscriptions: self.subscriptions.deep_view(),
            episodes: self.episodes.deep_view(),
        }
    }
}

impl Backend {
    /// The store's invariants.
    pub open spec fn wf(&self) -> bool {
        &&& users_wf(self@.users)
        &&& devices_wf(self@.devices)
        &&& subs_wf(self@.subscriptions)
        &&& eps_wf(self@.episodes)
    }

    /// An empty store.
    pub fn new() -> (r: Backend)
        ensures
            r.wf(),
            r@.users =~= Seq::<UserV>::empty(),
            r@.devices =~= Seq::<DeviceRecordV>::empty(),
            r@.subscriptions =~= Seq::<SubRecordV>::empty(),
            r@.episodes =~= Seq::<EpisodeRowV>::empty(),
    {
        Backend {
            users: Vec::new(),
            devices: Vec::new(),
            subscriptions: Vec::new(),
            episodes: Vec::new(),
        }
    }

    /// Registers an account. Refused without effect when the name is
    /// already taken.
    #[verifier::loop_isolation(false)]
    pub fn insert_user(&mut self, user: User) -> (r: bool)
        requires
            old(self).wf(),
        ensures
            final(self).wf(),
            final(self)@.devices == old(self)@.devices,
            final(self)@.subscriptions == old(self)@.subscriptions,
            final(self)@.episodes == old(self)@.episodes,
            (exists|i: int|
                0 <= i < old(self)@.users.len() && old(self)@.users[i].username
                    == user.username@) ==> (!r && final(self)@.users == old(self)@.users),
            (forall|i: int|
                0 <= i < old(self)@.users.len() ==> old(self)@.users[i].username
                    != user.username@) ==> (r && final(self)@.users =~= old(self)@.users.push(
                user.deep_view(),
            )),
    {
        let n = self.users.len();
        let mut i: usize = 0;
        while i < n
            invariant
                *self == *old(self),
                i <= n,
                n == self.users.len(),
                forall|j: int| 0 <= j < i ==> self.users.deep_view()[j].username != user.username@,
            decreases n - i,
        {
            if str_eq(self.users[i].username.as_str(), user.username.as_str()) {
                proof {
                    assert(self.users.deep_view()[i as int].username == user.username@);
                }
                return false;
            }
            i = i + 1;
        }
        self.users.push(user);
        proof {
            let newusers = old(self)@.users.push(user.deep_view());
            assert(self@.users =~= newusers);
            assert forall|a: int, b: int|
                0 <= a < b < newusers.len() implies newusers[a].username
                != newusers[b].username by {
                if b == newusers.len() - 1 {
                    assert(newusers[a] == old(self)@.users[a]);
                } else {
                    assert(newusers[a] == old(self)@.users[a]);
                    assert(newusers[b] == old(self)@.users[b]);
                }
            };
        }
        true
    }

    /// Looks an account up by name. `Internal` is never reported: the
    /// in-memory store cannot fail.
    #[verifier::loop_isolation(false)]
    pub fn find_user(&self, target_username: &str) -> (r: Result<User, FindError>)
        ensures
            match r {
                Ok(u) => exists|i: int|
                    0 <= i < self@.users.len() && self@.users[i].username == target_username@
                        && u.deep_view() == self@.users[i],
                Err(e) => e == FindError::NotFound && forall|i: int|
                    0 <= i < self@.users.len() ==> self@.users[i].username != target_username@,
            },
    {
        let n = self.users.len();
        let mut i: usize = 0;
        while i < n
            invariant
                i <= n,
                n == self.users.len(),
                forall|j: int|
                    0 <= j < i ==> self.users.deep_view()[j].username != target_username@,
            decreases n - i,
        {
            if str_eq(self.users[i].username.as_str(), target_username) {
                let u = self.users[i].clone();
                proof {
                    assert(u.deep_view() == self.users.deep_view()[i as int]);
                }
                return Ok(u);
            }
            i = i + 1;
        }
        Err(FindError::NotFound)
    }

    /// Sets or clears the session token of the named account; `None`
    /// means logout. Reports whether the account exists; a write to an
    /// unknown account changes nothing.
    #[verifier::loop_isolation(false)]
    pub fn update_user(&mut self, username: &str, session_id: Option<&str>) -> (r: bool)
        requires
            old(self).wf(),
        ensures
            final(self).wf(),
            final(self)@.devices == old(self)@.devices,
            final(self)@.subscriptions == old(self)@.subscriptions,
            final(self)@.episodes == old(self)@.episodes,
            final(self)@.users.len() == old(self)@.users.len(),
            forall|i: int|
                0 <= i < old(self)@.users.len() && old(self)@.users[i].username == username@
                    ==> final(self)@.users[i] == (UserV {
                    session_id: session_id.deep_view(),
                    ..old(self)@.users[i]
                }),
            forall|i: int|
                0 <= i < old(self)@.users.len() && old(self)@.users[i].username != username@
                    ==> final(self)@.users[i] == old(self)@.users[i],
            r == exists|i: int|
                0 <= i < old(self)@.users.len() && old(self)@.users[i].username == username@,
    {
        let n = self.users.len();
        let mut i: usize = 0;
        while i < n
            invariant
                i <= n,
                n == self.users.len(),
                *self == *old(self),
                forall|j: int|
                    0 <= j < i ==> self.users.deep_view()[j].username != username@,
            decreases n - i,
        {
            if str_eq(self.users[i].username.as_str(), username) {
                let token: Option<String> = match session_id {
                    Some(s) => Some(s.to_owned()),
                    None => None,
                };
                proof {
                    assert(token.deep_view() == session_id.deep_view());
                }
                self.users[i].session_id = token;
                proof {
                    assert(self@.users =~= old(self)@.users.update(
                        i as int,
                        UserV { session_id: session_id.deep_view(), ..old(self)@.users[i as int] },
                    ));
                }
                return true;
            }
            i = i + 1;
        }
        false
    }

    /// The accounts whose stored token equals `session_id`, in store
    /// order. With the store invariant there is at most one, but it is
    /// the caller's place to treat more than one as an integrity fault.
    #[verifier::loop_isolation(false)]
    pub fn users_with_session(&self, session_id: &str) -> (r: Result<Vec<User>, ()>)
        ensures
            match r {
                Ok(users) => users.deep_view() =~= users_with_token(self@.users, session_id@),
                Err(()) => false,
            },
    {
        let n = self.users.len();
        let mut out: Vec<User> = Vec::new();
        let mut i: usize = 0;
        while i < n
            invariant
                i <= n,
                n == self.users.len(),
                out.deep_view() =~= users_with_token(
                    self.users.deep_view().subrange(0, i as int),
                    session_id@,
                ),
            decreases n - i,
        {
            let matches = match &self.users[i].session_id {
                Some(tok) => str_eq(tok.as_str(), session_id),
                None => false,
            };
            if matches {
                out.push(self.users[i].clone());
            }
            proof {
                let prefix = self.users.deep_view().subrange(0, i + 1 as int);
                assert(prefix.drop_last() =~= self.users.deep_view().subrange(0, i as int));
                assert(prefix.last() == self.users.deep_view()[i as int]);
            }
            i = i + 1;
        }
        proof {
            assert(self.users.deep_view().subrange(0, n as int) =~= self.users.deep_view());
        }
        Ok(out)
    }
}

/// The accounts among `users` whose stored token is `tok`, in order.
pub open spec fn users_with_token(users: Seq<UserV>, tok: Seq<char>) -> Seq<UserV>
    decreases users.len(),
{
    if users.len() == 0 {
        Seq::empty()
    } else {
        let rest = users_with_token(users.drop_last(), tok);
        if users.last().session_id == Some(tok) {
            rest.push(users.last())
        } else {
            rest
        }
    }
}

/// The device rows of one account, in store order.
pub open spec fn user_devices(devs: Seq<DeviceRecordV>, u: Seq<char>) -> Seq<DeviceRecordV>
    decreases devs.len(),
{
    if devs.len() == 0 {
        Seq::empty()
    } else {
        let rest = user_devices(devs.drop_last(), u);
        if devs.last().username == u {
            rest.push(devs.last())
        } else {
            rest
        }
    }
}

/// How many subscription rows (tombstoned ones included) an account holds.
pub open spec fn count_user_subs(subs: Seq<SubRecordV>, u: Seq<char>) -> int
    decreases subs.len(),
{
    if subs.len() == 0 {
        0
    } else {
        count_user_subs(subs.drop_last(), u) + if subs.last().username == u {
            1int
        } else {
            0int
        }
    }
}

/// An account's subscription-row count, clamped into a `u32`.
pub open spec fn sub_count_u32(subs: Seq<SubRecordV>, u: Seq<char>) -> u32 {
    if count_user_subs(subs, u) <= u32::MAX as int {
        count_user_subs(subs, u) as u32
    } else {
        u32::MAX
    }
}

/// Whether the store holds a device row keyed `(u, id)`.
pub open spec fn has_device(devs: Seq<DeviceRecordV>, u: Seq<char>, id: Seq<char>) -> bool {
    exists|i: int| 0 <= i < devs.len() && devs[i].username == u && devs[i].id == id
}

/// A device row patched by a partial update: a present field overwrites,
/// an absent one keeps what is stored.
pub open spec fn patched_device(d: DeviceRecordV, up: crate::device::DeviceUpdateV) -> DeviceRecordV {
    DeviceRecordV {
        caption: match up.caption {
            Some(c) => c,
            None => d.caption,
        },
        dtype: match up.dtype {
            Some(t) => t,
            None => d.dtype,
        },
        ..d
    }
}

/// The device row a partial update creates when none exists yet: absent
/// fields take their defaults (empty caption, `Other` kind).
pub open spec fn new_device(u: Seq<char>, id: Seq<char>, up: crate::device::DeviceUpdateV) -> DeviceRecordV {
    DeviceRecordV {
        username: u,
        id: id,
        caption: match up.caption {
            Some(c) => c,
            None => Seq::empty(),
        },
        dtype: match up.dtype {
            Some(t) => t,
            None => DeviceType::Other,
        },
    }
}

/// What a partial device update does to the device table: patch the row
/// keyed `(u, id)` if it exists, else append a fresh row with defaults.
pub open spec fn apply_device_update(
    devs: Seq<DeviceRecordV>,
    u: Seq<char>,
    id: Seq<char>,
    up: crate::device::DeviceUpdateV,
) -> Seq<DeviceRecordV> {
    if has_device(devs, u, id) {
        devs.map_values(
            |d: DeviceRecordV|
                if d.username == u && d.id == id {
                    patched_device(d, up)
                } else {
                    d
                },
        )
    } else {
        devs.push(new_device(u, id, up))
    }
}

/// Whether a subscription row has changed since the cursor `since`: it
/// was created after it, or tombstoned after it.
pub open spec fn sub_changed(r: SubRecordV, since: int) -> bool {
    r.created > since || match r.deleted {
        Some(d) => d > since,
        None => false,
    }
}

/// The subscription rows of `(u, d)` changed since `since`, in store
/// order.
pub open spec fn sub_query(subs: Seq<SubRecordV>, u: Seq<char>, d: Seq<char>, since: int) -> Seq<
    SubRecordV,
>
    decreases subs.len(),
{
    if subs.len() == 0 {
        Seq::empty()
    } else {
        let rest = sub_query(subs.drop_last(), u, d, since);
        let r = subs.last();
        if r.username == u && r.device == d && sub_changed(r, since) {
            rest.push(r)
        } else {
            rest
        }
    }
}

/// A subscription row as reported to a client.
pub open spec fn url_of_sub(r: SubRecordV) -> UrlV {
    UrlV { url: r.url, deleted: r.deleted, created: r.created }
}

/// Whether the store holds a subscription row keyed `(u, d, url)`,
/// tombstoned or not.
pub open spec fn has_sub(subs: Seq<SubRecordV>, u: Seq<char>, d: Seq<char>, url: Seq<char>) -> bool {
    exists|i: int|
        0 <= i < subs.len() && subs[i].username == u && subs[i].device == d && subs[i].url == url
}

/// What removing one URL does: the still-active row keyed `(u, d, url)`,
/// if any, gets its tombstone set to `now`; nothing else moves. A row
/// already tombstoned stays as it is.
/// One row under a removal: the still-active row carrying the key gets
/// its tombstone set to `now`; any other row is left alone.
pub open spec fn removed_row(
    r: SubRecordV,
    u: Seq<char>,
    d: Seq<char>,
    url: Seq<char>,
    now: int,
) -> SubRecordV {
    if r.username == u && r.device == d && r.url == url && r.deleted is None {
        SubRecordV { deleted: Some(now), ..r }
    } else {
        r
    }
}

pub open spec fn remove_url(
    subs: Seq<SubRecordV>,
    u: Seq<char>,
    d: Seq<char>,
    url: Seq<char>,
    now: int,
) -> Seq<SubRecordV> {
    subs.map_values(|r: SubRecordV| removed_row(r, u, d, url, now))
}

/// What adding one URL does: nothing if any row — tombstoned or not —
/// already carries the key (a tombstone is never resurrected); else a
/// fresh active row created at `now` is appended.
pub open spec fn add_url(
    subs: Seq<SubRecordV>,
    u: Seq<char>,
    d: Seq<char>,
    url: Seq<char>,
    now: int,
) -> Seq<SubRecordV> {
    if has_sub(subs, u, d, url) {
        subs
    } else {
        subs.push(SubRecordV { username: u, device: d, url: url, created: now, deleted: None })
    }
}

/// Removals folded over a URL list, first URL first.
pub open spec fn apply_sub_removes(
    subs: Seq<SubRecordV>,
    u: Seq<char>,
    d: Seq<char>,
    urls: Seq<Seq<char>>,
    now: int,
) -> Seq<SubRecordV>
    decreases urls.len(),
{
    if urls.len() == 0 {
        subs
    } else {
        remove_url(apply_sub_removes(subs, u, d, urls.drop_last(), now), u, d, urls.last(), now)
    }
}

/// Additions folded over a URL list, first URL first.
pub open spec fn apply_sub_adds(
    subs: Seq<SubRecordV>,
    u: Seq<char>,
    d: Seq<char>,
    urls: Seq<Seq<char>>,
    now: int,
) -> Seq<SubRecordV>
    decreases urls.len(),
{
    if urls.len() == 0 {
        subs
    } else {
        add_url(apply_sub_adds(subs, u, d, urls.drop_last(), now), u, d, urls.last(), now)
    }
}

/// One whole subscription upload: all removals, then all additions, as
/// one atomic step.
pub open spec fn apply_subscription_changes(
    subs: Seq<SubRecordV>,
    u: Seq<char>,
    d: Seq<char>,
    remove: Seq<Seq<char>>,
    add: Seq<Seq<char>>,
    now: int,
) -> Seq<SubRecordV> {
    apply_sub_adds(apply_sub_removes(subs, u, d, remove, now), u, d, add, now)
}

/// Whether a stored row carries the episode identity `(u, p, e)`.
pub open spec fn ep_key_match(r: EpisodeRowV, u: Seq<char>, p: Seq<char>, e: Seq<char>) -> bool {
    r.username == u && r.podcast == p && r.episode == e
}

/// Whether the store holds a row for the episode identity `(u, p, e)`.
pub open spec fn has_ep(eps: Seq<EpisodeRowV>, u: Seq<char>, p: Seq<char>, e: Seq<char>) -> bool {
    exists|i: int| 0 <= i < eps.len() && ep_key_match(eps[i], u, p, e)
}

/// Whether a row answers an episode-change query: changed after the
/// cursor, and inside the optional podcast and device filters. An absent
/// filter constrains nothing; a device filter never matches a row without
/// a device.
pub open spec fn ep_filter_match(
    r: EpisodeRowV,
    u: Seq<char>,
    since: int,
    pod: Option<Seq<char>>,
    dev: Option<Seq<char>>,
) -> bool {
    &&& r.username == u
    &&& r.modified > since
    &&& match pod {
        Some(p) => r.podcast == p,
        None => true,
    }
    &&& match dev {
        Some(d) => r.device == Some(d),
        None => true,
    }
}

/// The rows answering an episode-change query, in store order.
pub open spec fn ep_query(
    eps: Seq<EpisodeRowV>,
    u: Seq<char>,
    since: int,
    pod: Option<Seq<char>>,
    dev: Option<Seq<char>>,
) -> Seq<EpisodeRowV>
    decreases eps.len(),
{
    if eps.len() == 0 {
        Seq::empty()
    } else {
        let rest = ep_query(eps.drop_last(), u, since, pod, dev);
        if ep_filter_match(eps.last(), u, since, pod, dev) {
            rest.push(eps.last())
        } else {
            rest
        }
    }
}

/// A stored row in the decomposed form handed back to the facade.
pub open spec fn raw_of_row(r: EpisodeRowV) -> EpisodeRawV {
    EpisodeRawV {
        device: r.device,
        podcast: r.podcast,
        episode: r.episode,
        timestamp: r.timestamp,
        guid: r.guid,
        action: r.action,
        started: r.started,
        position: r.position,
        total: r.total,
        modified: Some(r.modified),
    }
}

/// The cursor a query answer starts from: the given cursor, or the epoch
/// when none was given.
pub open spec fn since_of(o: Option<int>) -> int {
    match o {
        Some(s) => s,
        None => 0,
    }
}

/// The largest `modified` stamp among `rows`; zero for none.
pub open spec fn max_modified(rows: Seq<EpisodeRowV>) -> int
    decreases rows.len(),
{
    if rows.len() == 0 {
        0
    } else if rows.len() == 1 {
        rows.last().modified
    } else {
        let rest = max_modified(rows.drop_last());
        if rows.last().modified > rest {
            rows.last().modified
        } else {
            rest
        }
    }
}

/// The row a fresh upsert inserts: the action's logical fields, stamped
/// `modified = now` and carrying the action's content hash.
pub open spec fn new_ep_row(u: Seq<char>, now: int, e: EpisodeV) -> EpisodeRowV {
    EpisodeRowV {
        username: u,
        device: e.device,
        podcast: e.podcast,
        episode: e.episode,
        timestamp: e.timestamp,
        guid: e.guid,
        action: e.action.spec_raw_parts().0,
        started: e.action.spec_raw_parts().1,
        position: e.action.spec_raw_parts().2,
        total: e.action.spec_raw_parts().3,
        modified: now,
        content_hash: spec_content_hash(e),
    }
}

/// A stored row overwritten by a semantically different action: every
/// mutable field is replaced and `modified` advances to `now`, while the
/// identity and the stored device stay.
pub open spec fn merged_ep_row(r: EpisodeRowV, now: int, e: EpisodeV) -> EpisodeRowV {
    EpisodeRowV {
        timestamp: e.timestamp,
        guid: e.guid,
        action: e.action.spec_raw_parts().0,
        started: e.action.spec_raw_parts().1,
        position: e.action.spec_raw_parts().2,
        total: e.action.spec_raw_parts().3,
        modified: now,
        content_hash: spec_content_hash(e),
        ..r
    }
}

/// One row under an upsert: the row carrying the action's identity is
/// overwritten only when its stored content hash differs — an identical
/// hash means a semantic duplicate, and the row (its `modified` stamp
/// included) stays untouched. Every other row is left alone.
pub open spec fn upserted_row(r: EpisodeRowV, u: Seq<char>, now: int, e: EpisodeV) -> EpisodeRowV {
    if ep_key_match(r, u, e.podcast, e.episode) {
        if r.content_hash == spec_content_hash(e) {
            r
        } else {
            merged_ep_row(r, now, e)
        }
    } else {
        r
    }
}

/// What one episode upsert does to the episode table: update the row
/// carrying the identity if there is one, else append a fresh row.
pub open spec fn apply_episode_change(
    eps: Seq<EpisodeRowV>,
    u: Seq<char>,
    now: int,
    e: EpisodeV,
) -> Seq<EpisodeRowV> {
    if has_ep(eps, u, e.podcast, e.episode) {
        eps.map_values(|r: EpisodeRowV| upserted_row(r, u, now, e))
    } else {
        eps.push(new_ep_row(u, now, e))
    }
}

/// A whole episode upload folded over the incoming actions, first action
/// first, as one atomic step.
pub open spec fn apply_episode_changes(
    eps: Seq<EpisodeRowV>,
    u: Seq<char>,
    now: int,
    changes: Seq<EpisodeV>,
) -> Seq<EpisodeRowV>
    decreases changes.len(),
{
    if changes.len() == 0 {
        eps
    } else {
        apply_episode_change(
            apply_episode_changes(eps, u, now, changes.drop_last()),
            u,
            now,
            changes.last(),
        )
    }
}

impl Backend {
    /// The index of the device row keyed `(username, device_id)`, if any.
    fn device_index(&self, username: &str, device_id: &str) -> (r: Option<usize>)
        ensures
            match r {
                Some(k) => k < self@.devices.len() && self@.devices[k as int].username == username@
                    && self@.devices[k as int].id == device_id@,
                None => !has_device(self@.devices, username@, device_id@),
            },
    {
        let n = self.devices.len();
        let mut i: usize = 0;
        while i < n
            invariant
                i <= n,
                n == self.devices.len(),
                forall|j: int|
                    0 <= j < i ==> !(self.devices.deep_view()[j].username == username@
                        && self.devices.deep_view()[j].id == device_id@),
            decreases n - i,
        {
            if str_eq(self.devices[i].username.as_str(), username) && str_eq(
                self.devices[i].id.as_str(),
                device_id,
            ) {
                return Some(i);
            }
            i = i + 1;
        }
        None
    }

    /// The devices of one account, each carrying the account's total
    /// subscription-row count. The in-memory store cannot fail.
    pub fn devices_for_user(&self, username: &str) -> (r: Result<Vec<DeviceAndSub>, ()>)
        ensures
            match r {
                Ok(out) => {
                    let c = sub_count_u32(self@.subscriptions, username@);
                    out.deep_view() =~= user_devices(self@.devices, username@).map_values(
                        |d: DeviceRecordV| crate::device::DeviceAndSubV {
                            id: d.id,
                            caption: d.caption,
                            dtype: d.dtype,
                            subscriptions: c,
                        },
                    )
                },
                Err(()) => false,
            },
    {
        let nsubs = self.subscriptions.len();
        let mut c: usize = 0;
        let mut i: usize = 0;
        while i < nsubs
            invariant
                i <= nsubs,
                nsubs == self.subscriptions.len(),
                c <= i,
                c as int == count_user_subs(
                    self.subscriptions.deep_view().subrange(0, i as int),
                    username@,
                ),
            decreases nsubs - i,
        {
            if str_eq(self.subscriptions[i].username.as_str(), username) {
                c = c + 1;
            }
            proof {
                let prefix = self.subscriptions.deep_view().subrange(0, i + 1 as int);
                assert(prefix.drop_last() =~= self.subscriptions.deep_view().subrange(0, i as int));
                assert(prefix.last() == self.subscriptions.deep_view()[i as int]);
            }
            i = i + 1;
        }
        proof {
            assert(self.subscriptions.deep_view().subrange(0, nsubs as int)
                =~= self.subscriptions.deep_view());
        }
        let count: u32 = if c > (u32::MAX as usize) {
            u32::MAX
        } else {
            c as u32
        };
        let ndevs = self.devices.len();
        let mut out: Vec<DeviceAndSub> = Vec::new();
        let mut k: usize = 0;
        while k < ndevs
            invariant
                k <= ndevs,
                ndevs == self.devices.len(),
                count == sub_count_u32(self@.subscriptions, username@),
                out.deep_view() =~= user_devices(
                    self.devices.deep_view().subrange(0, k as int),
                    username@,
                ).map_values(
                    |d: DeviceRecordV| crate::device::DeviceAndSubV {
                        id: d.id,
                        caption: d.caption,
                        dtype: d.dtype,
                        subscriptions: count,
                    },
                ),
            decreases ndevs - k,
        {
            let ghost prev = out.deep_view();
            if str_eq(self.devices[k].username.as_str(), username) {
                let d = &self.devices[k];
                let elem = DeviceAndSub {
                    id: d.id.clone(),
                    caption: d.caption.clone(),
                    dtype: d.dtype,
                    subscriptions: count,
                };
                proof {
                    assert(elem.deep_view() == (crate::device::DeviceAndSubV {
                        id: self.devices.deep_view()[k as int].id,
                        caption: self.devices.deep_view()[k as int].caption,
                        dtype: self.devices.deep_view()[k as int].dtype,
                        subscriptions: count,
                    }));
                }
                out.push(elem);
                proof {
                    assert(out.deep_view() =~= prev.push(
                        (crate::device::DeviceAndSubV {
                            id: self.devices.deep_view()[k as int].id,
                            caption: self.devices.deep_view()[k as int].caption,
                            dtype: self.devices.deep_view()[k as int].dtype,
                            subscriptions: count,
                        }),
                    ));
                }
            }
            proof {
                let prefix = self.devices.deep_view().subrange(0, k + 1 as int);
                assert(prefix.drop_last() =~= self.devices.deep_view().subrange(0, k as int));
                assert(prefix.last() == self.devices.deep_view()[k as int]);
            }
            k = k + 1;
        }
        proof {
            assert(self.devices.deep_view().subrange(0, ndevs as int) =~= self.devices.deep_view());
        }
        Ok(out)
    }

    /// Applies a partial update to the device row keyed
    /// `(username, device_id)`, creating it with defaults when absent.
    /// The in-memory store cannot fail.
    #[verifier::loop_isolation(false)]
    pub fn update_device(&mut self, username: &str, device_id: &str, update: DeviceUpdate) -> (r:
        Result<(), ()>)
        requires
            old(self).wf(),
        ensures
            r == Ok::<(), ()>(()),
            final(self).wf(),
            final(self)@.users == old(self)@.users,
            final(self)@.subscriptions == old(self)@.subscriptions,
            final(self)@.episodes == old(self)@.episodes,
            final(self)@.devices =~= apply_device_update(
                old(self)@.devices,
                username@,
                device_id@,
                update.deep_view(),
            ),
    {
        let idx = self.device_index(username, device_id);
        match idx {
            Some(k) => {
                let d = &self.devices[k];
                let caption: String = match &update.caption {
                    Some(c) => c.clone(),
                    None => d.caption.clone(),
                };
                let dtype: DeviceType = match update.dtype {
                    Some(t) => t,
                    None => d.dtype,
                };
                let row = DeviceRecord {
                    username: d.username.clone(),
                    id: d.id.clone(),
                    caption,
                    dtype,
                };
                proof {
                    assert(row.deep_view() == patched_device(
                        self@.devices[k as int],
                        update.deep_view(),
                    ));
                }
                self.devices[k] = row;
                proof {
                    let up = update.deep_view();
                    let mapped = apply_device_update(old(self)@.devices, username@, device_id@, up);
                    assert forall|j: int|
                        0 <= j < old(self)@.devices.len() implies self@.devices[j]
                        == mapped[j] by {
                        if j != k as int {
                            assert(!(old(self)@.devices[j].username == username@
                                && old(self)@.devices[j].id == device_id@));
                        }
                    };
                    assert(self@.devices =~= mapped);
                }
                Ok(())
            },
            None => {
                let caption: String = match update.caption {
                    Some(c) => c,
                    None => String::new(),
                };
                let dtype: DeviceType = match update.dtype {
                    Some(t) => t,
                    None => DeviceType::Other,
                };
                let row = DeviceRecord {
                    username: username.to_owned(),
                    id: device_id.to_owned(),
                    caption,
                    dtype,
                };
                self.devices.push(row);
                proof {
                    assert(self@.devices =~= old(self)@.devices.push(
                        new_device(username@, device_id@, update.deep_view()),
                    ));
                    assert forall|a: int, b: int|
                        0 <= a < b < self@.devices.len() implies !(self@.devices[a].username
                        == self@.devices[b].username && self@.devices[a].id
                        == self@.devices[b].id) by {
                        if b == self@.devices.len() - 1 {
                            assert(self@.devices[a] == old(self)@.devices[a]);
                        } else {
                            assert(self@.devices[a] == old(self)@.devices[a]);
                            assert(self@.devices[b] == old(self)@.devices[b]);
                        }
                    };
                }
                Ok(())
            },
        }
    }

    /// The subscription rows of `(username, device_id)` changed since
    /// `since`, as reported to a client. The in-memory store cannot fail.
    pub fn subscriptions(&self, username: &str, device_id: &str, since: Timestamp) -> (r: Result<
        Vec<Url>,
        (),
    >)
        ensures
            match r {
                Ok(out) => out.deep_view() =~= sub_query(
                    self@.subscriptions,
                    username@,
                    device_id@,
                    since.value(),
                ).map_values(|s: SubRecordV| url_of_sub(s)),
                Err(()) => false,
            },
    {
        let n = self.subscriptions.len();
        let mut out: Vec<Url> = Vec::new();
        let mut i: usize = 0;
        while i < n
            invariant
                i <= n,
                n == self.subscriptions.len(),
                out.deep_view() =~= sub_query(
                    self.subscriptions.deep_view().subrange(0, i as int),
                    username@,
                    device_id@,
                    since.value(),
                ).map_values(|s: SubRecordV| url_of_sub(s)),
            decreases n - i,
        {
            let row = &self.subscriptions[i];
            let changed = row.created.as_i64() > since.as_i64() || match &row.deleted {
                Some(d) => d.as_i64() > since.as_i64(),
                None => false,
            };
            let ghost prev = out.deep_view();
            if str_eq(row.username.as_str(), username) && str_eq(row.device.as_str(), device_id)
                && changed {
                let elem = Url { url: row.url.clone(), deleted: row.deleted, created: row.created };
                proof {
                    assert(elem.deep_view() == url_of_sub(
                        self.subscriptions.deep_view()[i as int],
                    ));
                }
                out.push(elem);
                proof {
                    assert(out.deep_view() =~= prev.push(
                        url_of_sub(self.subscriptions.deep_view()[i as int]),
                    ));
                }
            }
            proof {
                let prefix = self.subscriptions.deep_view().subrange(0, i + 1 as int);
                assert(prefix.drop_last() =~= self.subscriptions.deep_view().subrange(0, i as int));
                assert(prefix.last() == self.subscriptions.deep_view()[i as int]);
            }
            i = i + 1;
        }
        proof {
            assert(self.subscriptions.deep_view().subrange(0, n as int)
                =~= self.subscriptions.deep_view());
        }
        Ok(out)
    }

    /// Tombstones the still-active row for one URL, if any.
    #[verifier::loop_isolation(false)]
    fn remove_sub(&mut self, username: &str, device_id: &str, url: &str, now: Timestamp)
        requires
            old(self).wf(),
        ensures
            final(self).wf(),
            final(self)@.users == old(self)@.users,
            final(self)@.devices == old(self)@.devices,
            final(self)@.episodes == old(self)@.episodes,
            final(self)@.subscriptions =~= remove_url(
                old(self)@.subscriptions,
                username@,
                device_id@,
                url@,
                now.value(),
            ),
    {
        let n = self.subscriptions.len();
        let mut k: usize = 0;
        while k < n
            invariant
                k <= n,
                n == self.subscriptions.len(),
                self@.users == old(self)@.users,
                self@.devices == old(self)@.devices,
                self@.episodes == old(self)@.episodes,
                forall|j: int|
                    0 <= j < k ==> self@.subscriptions[j] == removed_row(
                        old(self)@.subscriptions[j],
                        username@,
                        device_id@,
                        url@,
                        now.value(),
                    ),
                forall|j: int| k <= j < n ==> self@.subscriptions[j] == old(self)@.subscriptions[j],
            decreases n - k,
        {
            let ghost pre = self@.subscriptions;
            let row = &self.subscriptions[k];
            if str_eq(row.username.as_str(), username) && str_eq(row.device.as_str(), device_id)
                && str_eq(row.url.as_str(), url) && row.deleted.is_none() {
                let row2 = SubRecord {
                    username: row.username.clone(),
                    device: row.device.clone(),
                    url: row.url.clone(),
                    created: row.created,
                    deleted: Some(now),
                };
                proof {
                    assert(row2.deep_view() == removed_row(
                        old(self)@.subscriptions[k as int],
                        username@,
                        device_id@,
                        url@,
                        now.value(),
                    ));
                }
                self.subscriptions[k] = row2;
                proof {
                    assert(self@.subscriptions =~= pre.update(k as int, row2.deep_view()));
                }
            } else {
                proof {
                    let r = old(self)@.subscriptions[k as int];
                    assert(self@.subscriptions[k as int] == r);
                    assert(removed_row(r, username@, device_id@, url@, now.value()) == r);
                }
            }
            k = k + 1;
        }
        proof {
            assert(final(self)@.subscriptions =~= remove_url(
                old(self)@.subscriptions,
                username@,
                device_id@,
                url@,
                now.value(),
            ));
            assert forall|a: int, b: int|
                0 <= a < b < self@.subscriptions.len() implies !(self@.subscriptions[a].username
                == self@.subscriptions[b].username && self@.subscriptions[a].device
                == self@.subscriptions[b].device && self@.subscriptions[a].url
                == self@.subscriptions[b].url) by {
                assert(self@.subscriptions[a].username == old(self)@.subscriptions[a].username
                    && self@.subscriptions[a].device == old(self)@.subscriptions[a].device
                    && self@.subscriptions[a].url == old(self)@.subscriptions[a].url);
                assert(self@.subscriptions[b].username == old(self)@.subscriptions[b].username
                    && self@.subscriptions[b].device == old(self)@.subscriptions[b].device
                    && self@.subscriptions[b].url == old(self)@.subscriptions[b].url);
            };
        }
    }

    /// Appends a fresh active row for one URL, unless any row — live or
    /// tombstoned — already carries the key.
    #[verifier::loop_isolation(false)]
    fn add_sub(&mut self, username: &str, device_id: &str, url: &str, now: Timestamp)
        requires
            old(self).wf(),
        ensures
            final(self).wf(),
            final(self)@.users == old(self)@.users,
            final(self)@.devices == old(self)@.devices,
            final(self)@.episodes == old(self)@.episodes,
            final(self)@.subscriptions =~= add_url(
                old(self)@.subscriptions,
                username@,
                device_id@,
                url@,
                now.value(),
            ),
    {
        let n = self.subscriptions.len();
        let mut k: usize = 0;
        while k < n
            invariant
                k <= n,
                n == self.subscriptions.len(),
                *self == *old(self),
                forall|j: int|
                    0 <= j < k ==> !(self@.subscriptions[j].username == username@
                        && self@.subscriptions[j].device == device_id@
                        && self@.subscriptions[j].url == url@),
            decreases n - k,
        {
            let row = &self.subscriptions[k];
            if str_eq(row.username.as_str(), username) && str_eq(row.device.as_str(), device_id)
                && str_eq(row.url.as_str(), url) {
                proof {
                    assert(old(self)@.subscriptions[k as int].username == username@
                        && old(self)@.subscriptions[k as int].device == device_id@
                        && old(self)@.subscriptions[k as int].url == url@);
                    assert(has_sub(old(self)@.subscriptions, username@, device_id@, url@));
                }
                return ;
            }
            k = k + 1;
        }
        let row = SubRecord {
            username: username.to_owned(),
            device: device_id.to_owned(),
            url: url.to_owned(),
            created: now,
            deleted: None,
        };
        self.subscriptions.push(row);
        proof {
            assert(!has_sub(old(self)@.subscriptions, username@, device_id@, url@));
            assert(self@.subscriptions =~= old(self)@.subscriptions.push(
                SubRecordV {
                    username: username@,
                    device: device_id@,
                    url: url@,
                    created: now.value(),
                    deleted: None,
                },
            ));
            assert forall|a: int, b: int|
                0 <= a < b < self@.subscriptions.len() implies !(self@.subscriptions[a].username
                == self@.subscriptions[b].username && self@.subscriptions[a].device
                == self@.subscriptions[b].device && self@.subscriptions[a].url
                == self@.subscriptions[b].url) by {
                if b == self@.subscriptions.len() - 1 {
                    assert(self@.subscriptions[a] == old(self)@.subscriptions[a]);
                } else {
                    assert(self@.subscriptions[a] == old(self)@.subscriptions[a]);
                    assert(self@.subscriptions[b] == old(self)@.subscriptions[b]);
                }
            };
        }
    }

    /// Applies one whole subscription upload — all removals, then all
    /// additions — as one atomic step. The in-memory store cannot fail.
    #[verifier::loop_isolation(false)]
    pub fn update_subscriptions(
        &mut self,
        username: &str,
        device_id: &str,
        changes: &SubscriptionChangesFromClient,
        now: Timestamp,
    ) -> (r: Result<(), ()>)
        requires
            old(self).wf(),
        ensures
            r == Ok::<(), ()>(()),
            final(self).wf(),
            final(self)@.users == old(self)@.users,
            final(self)@.devices == old(self)@.devices,
            final(self)@.episodes == old(self)@.episodes,
            final(self)@.subscriptions =~= apply_subscription_changes(
                old(self)@.subscriptions,
                username@,
                device_id@,
                changes.remove.deep_view(),
                changes.add.deep_view(),
                now.value(),
            ),
    {
        let nr = changes.remove.len();
        let mut i: usize = 0;
        while i < nr
            invariant
                i <= nr,
                nr == changes.remove.len(),
                self.wf(),
                self@.users == old(self)@.users,
                self@.devices == old(self)@.devices,
                self@.episodes == old(self)@.episodes,
                self@.subscriptions =~= apply_sub_removes(
                    old(self)@.subscriptions,
                    username@,
                    device_id@,
                    changes.remove.deep_view().subrange(0, i as int),
                    now.value(),
                ),
            decreases nr - i,
        {
            self.remove_sub(username, device_id, changes.remove[i].as_str(), now);
            proof {
                let urls = changes.remove.deep_view();
                let prefix = urls.subrange(0, i + 1 as int);
                assert(prefix.drop_last() =~= urls.subrange(0, i as int));
                assert(prefix.last() == urls[i as int]);
            }
            i = i + 1;
        }
        proof {
            assert(changes.remove.deep_view().subrange(0, nr as int)
                =~= changes.remove.deep_view());
        }
        let ghost mid = self@.subscriptions;
        let na = changes.add.len();
        let mut k: usize = 0;
        while k < na
            invariant
                k <= na,
                na == changes.add.len(),
                self.wf(),
                self@.users == old(self)@.users,
                self@.devices == old(self)@.devices,
                self@.episodes == old(self)@.episodes,
                self@.subscriptions =~= apply_sub_adds(
                    mid,
                    username@,
                    device_id@,
                    changes.add.deep_view().subrange(0, k as int),
                    now.value(),
                ),
            decreases na - k,
        {
            self.add_sub(username, device_id, changes.add[k].as_str(), now);
            proof {
                let urls = changes.add.deep_view();
                let prefix = urls.subrange(0, k + 1 as int);
                assert(prefix.drop_last() =~= urls.subrange(0, k as int));
                assert(prefix.last() == urls[k as int]);
            }
            k = k + 1;
        }
        proof {
            assert(changes.add.deep_view().subrange(0, na as int) =~= changes.add.deep_view());
        }
        Ok(())
    }

    /// The index of the row carrying the episode identity, if any.
    fn find_episode_row(&self, username: &str, podcast: &str, episode: &str) -> (r: Option<usize>)
        ensures
            match r {
                Some(k) => k < self@.episodes.len() && ep_key_match(
                    self@.episodes[k as int],
                    username@,
                    podcast@,
                    episode@,
                ),
                None => !has_ep(self@.episodes, username@, podcast@, episode@),
            },
    {
        let n = self.episodes.len();
        let mut i: usize = 0;
        while i < n
            invariant
                i <= n,
                n == self.episodes.len(),
                forall|j: int|
                    0 <= j < i ==> !ep_key_match(
                        self.episodes.deep_view()[j],
                        username@,
                        podcast@,
                        episode@,
                    ),
            decreases n - i,
        {
            let row = &self.episodes[i];
            if str_eq(row.username.as_str(), username) && str_eq(row.podcast.as_str(), podcast)
                && str_eq(row.episode.as_str(), episode) {
                return Some(i);
            }
            i = i + 1;
        }
        None
    }

    /// The episode rows answering a query, in store order. The in-memory
    /// store cannot fail.
    pub fn episodes(&self, username: &str, query: &QueryEpisodes) -> (r: Result<Vec<EpisodeRaw>, ()>)
        ensures
            match r {
                Ok(out) => out.deep_view() =~= ep_query(
                    self@.episodes,
                    username@,
                    since_of(query.since.deep_view()),
                    query.podcast.deep_view(),
                    query.device.deep_view(),
                ).map_values(|x: EpisodeRowV| raw_of_row(x)),
                Err(()) => false,
            },
    {
        let since: Timestamp = match &query.since {
            Some(t) => *t,
            None => Timestamp::zero(),
        };
        let n = self.episodes.len();
        let mut out: Vec<EpisodeRaw> = Vec::new();
        let mut i: usize = 0;
        while i < n
            invariant
                i <= n,
                n == self.episodes.len(),
                since.value() == since_of(query.since.deep_view()),
                out.deep_view() =~= ep_query(
                    self.episodes.deep_view().subrange(0, i as int),
                    username@,
                    since.value(),
                    query.podcast.deep_view(),
                    query.device.deep_view(),
                ).map_values(|x: EpisodeRowV| raw_of_row(x)),
            decreases n - i,
        {
            let ghost prev = out.deep_view();
            let row = &self.episodes[i];
            let pod_ok = match &query.podcast {
                Some(p) => str_eq(row.podcast.as_str(), p.as_str()),
                None => true,
            };
            let dev_ok = match &query.device {
                Some(d) => match &row.device {
                    Some(rd) => str_eq(rd.as_str(), d.as_str()),
                    None => false,
                },
                None => true,
            };
            if str_eq(row.username.as_str(), username) && row.modified.as_i64() > since.as_i64()
                && pod_ok && dev_ok {
                let elem = EpisodeRaw {
                    device: match &row.device {
                        Some(d) => Some(d.clone()),
                        None => None,
                    },
                    podcast: row.podcast.clone(),
                    episode: row.episode.clone(),
                    timestamp: row.timestamp,
                    guid: match &row.guid {
                        Some(g) => Some(g.clone()),
                        None => None,
                    },
                    action: row.action,
                    started: row.started,
                    position: row.position,
                    total: row.total,
                    modified: Some(row.modified),
                };
                proof {
                    assert(ep_filter_match(
                        self.episodes.deep_view()[i as int],
                        username@,
                        since.value(),
                        query.podcast.deep_view(),
                        query.device.deep_view(),
                    ));
                    assert(elem.deep_view() == raw_of_row(self.episodes.deep_view()[i as int]));
                }
                out.push(elem);
                proof {
                    assert(out.deep_view() =~= prev.push(
                        raw_of_row(self.episodes.deep_view()[i as int]),
                    ));
                }
            } else {
                proof {
                    assert(!ep_filter_match(
                        self.episodes.deep_view()[i as int],
                        username@,
                        since.value(),
                        query.podcast.deep_view(),
                        query.device.deep_view(),
                    ));
                }
            }
            proof {
                let prefix = self.episodes.deep_view().subrange(0, i + 1 as int);
                assert(prefix.drop_last() =~= self.episodes.deep_view().subrange(0, i as int));
                assert(prefix.last() == self.episodes.deep_view()[i as int]);
            }
            i = i + 1;
        }
        proof {
            assert(self.episodes.deep_view().subrange(0, n as int) =~= self.episodes.deep_view());
        }
        Ok(out)
    }

    /// Upserts one incoming action.
    #[verifier::loop_isolation(false)]
    fn upsert_episode(&mut self, username: &str, now: Timestamp, e: &Episode)
        requires
            old(self).wf(),
        ensures
            final(self).wf(),
            final(self)@.users == old(self)@.users,
            final(self)@.devices == old(self)@.devices,
            final(self)@.subscriptions == old(self)@.subscriptions,
            final(self)@.episodes =~= apply_episode_change(
                old(self)@.episodes,
                username@,
                now.value(),
                e.deep_view(),
            ),
    {
        let h = e.hash();
        let idx = self.find_episode_row(username, e.podcast.as_str(), e.episode.as_str());
        proof {
            crate::episode::action::lemma_raw_parts_round_trip(e.action);
        }
        match idx {
            None => {
                let (action, started, position, total) = e.action.to_raw_parts();
                let row = EpisodeRow {
                    username: username.to_owned(),
                    device: match &e.device {
                        Some(d) => Some(d.clone()),
                        None => None,
                    },
                    podcast: e.podcast.clone(),
                    episode: e.episode.clone(),
                    timestamp: e.timestamp,
                    guid: match &e.guid {
                        Some(g) => Some(g.clone()),
                        None => None,
                    },
                    action,
                    started,
                    position,
                    total,
                    modified: now,
                    content_hash: h,
                };
                proof {
                    assert(row.deep_view() == new_ep_row(username@, now.value(), e.deep_view()));
                }
                self.episodes.push(row);
                proof {
                    assert(self@.episodes =~= old(self)@.episodes.push(
                        new_ep_row(username@, now.value(), e.deep_view()),
                    ));
                    assert(ep_row_ok(new_ep_row(username@, now.value(), e.deep_view())));
                    assert forall|a: int, b: int|
                        0 <= a < b < self@.episodes.len() implies !(self@.episodes[a].username
                        == self@.episodes[b].username && self@.episodes[a].podcast
                        == self@.episodes[b].podcast && self@.episodes[a].episode
                        == self@.episodes[b].episode) by {
                        if b == self@.episodes.len() - 1 {
                            assert(self@.episodes[a] == old(self)@.episodes[a]);
                            assert(!ep_key_match(
                                old(self)@.episodes[a],
                                username@,
                                e.podcast@,
                                e.episode@,
                            ));
                        } else {
                            assert(self@.episodes[a] == old(self)@.episodes[a]);
                            assert(self@.episodes[b] == old(self)@.episodes[b]);
                        }
                    };
                }
            },
            Some(k) => {
                proof {
                    assert(has_ep(old(self)@.episodes, username@, e.podcast@, e.episode@));
                }
                if self.episodes[k].content_hash == h {
                    proof {
                        let eps = old(self)@.episodes;
                        let ev = e.deep_view();
                        assert forall|j: int|
                            0 <= j < eps.len() implies upserted_row(eps[j], username@, now.value(), ev)
                            == eps[j] by {
                            if ep_key_match(eps[j], username@, ev.podcast, ev.episode) {
                                assert(j == k as int);
                            }
                        };
                        assert(self@.episodes =~= eps.map_values(
                            |r: EpisodeRowV| upserted_row(r, username@, now.value(), ev),
                        ));
                    }
                } else {
                    let old_row = &self.episodes[k];
                    let (action, started, position, total) = e.action.to_raw_parts();
                    let row = EpisodeRow {
                        username: old_row.username.clone(),
                        device: match &old_row.device {
                            Some(d) => Some(d.clone()),
                            None => None,
                        },
                        podcast: old_row.podcast.clone(),
                        episode: old_row.episode.clone(),
                        timestamp: e.timestamp,
                        guid: match &e.guid {
                            Some(g) => Some(g.clone()),
                            None => None,
                        },
                        action,
                        started,
                        position,
                        total,
                        modified: now,
                        content_hash: h,
                    };
                    proof {
                        assert(row.deep_view() == merged_ep_row(
                            old(self)@.episodes[k as int],
                            now.value(),
                            e.deep_view(),
                        ));
                    }
                    let ghost pre = self@.episodes;
                    self.episodes[k] = row;
                    proof {
                        let eps = old(self)@.episodes;
                        let ev = e.deep_view();
                        assert(self@.episodes =~= pre.update(k as int, row.deep_view()));
                        assert forall|j: int|
                            0 <= j < eps.len() implies self@.episodes[j] == upserted_row(
                            eps[j],
                            username@,
                            now.value(),
                            ev,
                        ) by {
                            if j == k as int {
                            } else {
                                if ep_key_match(eps[j], username@, ev.podcast, ev.episode) {
                                    assert(false);
                                }
                            }
                        };
                        assert(self@.episodes =~= eps.map_values(
                            |r: EpisodeRowV| upserted_row(r, username@, now.value(), ev),
                        ));
                        assert(ep_row_ok(self@.episodes[k as int]));
                        assert forall|a: int, b: int|
                            0 <= a < b < self@.episodes.len() implies !(self@.episodes[a].username
                            == self@.episodes[b].username && self@.episodes[a].podcast
                            == self@.episodes[b].podcast && self@.episodes[a].episode
                            == self@.episodes[b].episode) by {
                            assert(self@.episodes[a].username == eps[a].username
                                && self@.episodes[a].podcast == eps[a].podcast
                                && self@.episodes[a].episode == eps[a].episode);
                            assert(self@.episodes[b].username == eps[b].username
                                && self@.episodes[b].podcast == eps[b].podcast
                                && self@.episodes[b].episode == eps[b].episode);
                        };
                    }
                }
            },
        }
    }

    /// Applies a whole episode upload as one atomic step: each incoming
    /// action is content-hash-deduplicated and upserted by its identity.
    /// The in-memory store cannot fail.
    #[verifier::loop_isolation(false)]
    pub fn update_episodes(&mut self, username: &str, now: Timestamp, changes: Vec<Episode>) -> (r:
        Result<(), ()>)
        requires
            old(self).wf(),
        ensures
            r == Ok::<(), ()>(()),
            final(self).wf(),
            final(self)@.users == old(self)@.users,
            final(self)@.devices == old(self)@.devices,
            final(self)@.subscriptions == old(self)@.subscriptions,
            final(self)@.episodes =~= apply_episode_changes(
                old(self)@.episodes,
                username@,
                now.value(),
                changes.deep_view(),
            ),
    {
        let n = changes.len();
        let mut i: usize = 0;
        while i < n
            invariant
                i <= n,
                n == changes.len(),
                self.wf(),
                self@.users == old(self)@.users,
                self@.devices == old(self)@.devices,
                self@.subscriptions == old(self)@.subscriptions,
                self@.episodes =~= apply_episode_changes(
                    old(self)@.episodes,
                    username@,
                    now.value(),
                    changes.deep_view().subrange(0, i as int),
                ),
            decreases n - i,
        {
            self.upsert_episode(username, now, &changes[i]);
            proof {
                let cs = changes.deep_view();
                let prefix = cs.subrange(0, i + 1 as int);
                assert(prefix.drop_last() =~= cs.subrange(0, i as int));
                assert(prefix.last() == cs[i as int]);
            }
            i = i + 1;
        }
        proof {
            assert(changes.deep_view().subrange(0, n as int) =~= changes.deep_view());
        }
        Ok(())
    }
}

/// Every account name names at most one row: with unique names, "at most
/// one non-null session token per account" is a property of the single
/// row that carries the name.
pub proof fn lemma_single_session_per_account(users: Seq<UserV>, name: Seq<char>)
    requires
        users_wf(users),
    ensures
        forall|i: int, j: int|
            0 <= i < users.len() && 0 <= j < users.len() && users[i].username == name
                && users[j].username == name ==> i == j,
{
}

/// Applying the same logical episode action twice changes nothing the
/// second time: the first application leaves the row for the action's
/// identity carrying the action's content hash, so the second application
/// finds an identical hash and leaves every row — `modified` included —
/// untouched, whatever `now` it runs at.
pub proof fn lemma_episode_merge_idempotent(
    eps: Seq<EpisodeRowV>,
    u: Seq<char>,
    n1: int,
    n2: int,
    e: EpisodeV,
)
    ensures
        apply_episode_change(apply_episode_change(eps, u, n1, e), u, n2, e) =~= apply_episode_change(
            eps,
            u,
            n1,
            e,
        ),
{
    let eps1 = apply_episode_change(eps, u, n1, e);
    if has_ep(eps, u, e.podcast, e.episode) {
        let i = choose|i: int| 0 <= i < eps.len() && ep_key_match(eps[i], u, e.podcast, e.episode);
        assert(eps1[i] == upserted_row(eps[i], u, n1, e));
        assert(ep_key_match(eps1[i], u, e.podcast, e.episode));
        assert(has_ep(eps1, u, e.podcast, e.episode));
    } else {
        assert(eps1 == eps.push(new_ep_row(u, n1, e)));
        assert(ep_key_match(eps1[eps1.len() - 1], u, e.podcast, e.episode));
        assert(has_ep(eps1, u, e.podcast, e.episode));
    }
    assert forall|j: int|
        0 <= j < eps1.len() && ep_key_match(eps1[j], u, e.podcast, e.episode) implies eps1[j].content_hash
        == spec_content_hash(e) by {
        if has_ep(eps, u, e.podcast, e.episode) {
            assert(eps1[j] == upserted_row(eps[j], u, n1, e));
        } else {
            if j < eps.len() {
                assert(eps1[j] == eps[j]);
                assert(!ep_key_match(eps[j], u, e.podcast, e.episode));
            }
        }
    };
    assert forall|j: int|
        0 <= j < eps1.len() implies upserted_row(eps1[j], u, n2, e) == eps1[j] by {};
    assert(apply_episode_change(eps1, u, n2, e) =~= eps1);
}

/// Every timestamp the episode table carries is at most `t`.
pub open spec fn ep_times_le(eps: Seq<EpisodeRowV>, t: int) -> bool {
    forall|i: int| 0 <= i < eps.len() ==> #[trigger] eps[i].modified <= t
}

/// An upsert at `now` keeps every `modified` stamp at or below `now`.
pub proof fn lemma_apply_episode_change_times(
    eps: Seq<EpisodeRowV>,
    u: Seq<char>,
    now: int,
    e: EpisodeV,
)
    requires
        ep_times_le(eps, now),
    ensures
        ep_times_le(apply_episode_change(eps, u, now, e), now),
{
    let eps1 = apply_episode_change(eps, u, now, e);
    assert forall|i: int| 0 <= i < eps1.len() implies #[trigger] eps1[i].modified <= now by {
        if has_ep(eps, u, e.podcast, e.episode) {
            assert(eps1[i] == upserted_row(eps[i], u, now, e));
        } else {
            if i < eps.len() {
                assert(eps1[i] == eps[i]);
            }
        }
    };
}

/// A query from a cursor at or past every `modified` stamp returns
/// nothing.
pub proof fn lemma_ep_query_empty(
    eps: Seq<EpisodeRowV>,
    u: Seq<char>,
    since: int,
    pod: Option<Seq<char>>,
    dev: Option<Seq<char>>,
)
    requires
        ep_times_le(eps, since),
    ensures
        ep_query(eps, u, since, pod, dev) =~= Seq::<EpisodeRowV>::empty(),
    decreases eps.len(),
{
    if eps.len() > 0 {
        assert(ep_times_le(eps.drop_last(), since)) by {
            assert(forall|i: int|
                0 <= i < eps.len() - 1 ==> #[trigger] eps.drop_last()[i] == eps[i]);
        }
        lemma_ep_query_empty(eps.drop_last(), u, since, pod, dev);
        assert(eps[eps.len() - 1].modified <= since);
        assert(!ep_filter_match(eps.last(), u, since, pod, dev));
    }
}

/// Replaying a logical action that was already applied at `n1` is
/// invisible to any later reader: a change query whose cursor `since` is
/// at or past `n1` — in particular, one taken between the two
/// applications — returns no row for the episode (nor any other row of a
/// table whose stamps were all at or below `n1`).
pub proof fn lemma_duplicate_suppresses_requery(
    eps: Seq<EpisodeRowV>,
    u: Seq<char>,
    n1: int,
    n2: int,
    since: int,
    e: EpisodeV,
)
    requires
        ep_times_le(eps, n1),
        n1 <= since,
    ensures
        ep_query(
            apply_episode_change(apply_episode_change(eps, u, n1, e), u, n2, e),
            u,
            since,
            None,
            None,
        ) =~= Seq::<EpisodeRowV>::empty(),
{
    lemma_episode_merge_idempotent(eps, u, n1, n2, e);
    lemma_apply_episode_change_times(eps, u, n1, e);
    let eps1 = apply_episode_change(eps, u, n1, e);
    assert(ep_times_le(eps1, since));
    lemma_ep_query_empty(eps1, u, since, None, None);
    assert(ep_query(apply_episode_change(eps1, u, n2, e), u, since, None, None) =~= ep_query(
        eps1,
        u,
        since,
        None,
        None,
    )) by {
        assert(apply_episode_change(eps1, u, n2, e) =~= eps1);
    }
}

/// A row's `modified` stamp only advances when its content hash changes:
/// an upsert either leaves a row exactly as it was, or rewrites it with a
/// different hash and `modified = now`.
pub proof fn lemma_modified_advances_only_on_change(
    eps: Seq<EpisodeRowV>,
    u: Seq<char>,
    now: int,
    e: EpisodeV,
)
    ensures
        forall|j: int|
            0 <= j < eps.len() ==> {
                let r1 = #[trigger] apply_episode_change(eps, u, now, e)[j];
                r1 == eps[j] || (r1.content_hash != eps[j].content_hash && r1.modified == now)
            },
{
    assert forall|j: int| 0 <= j < eps.len() implies {
        let r1 = #[trigger] apply_episode_change(eps, u, now, e)[j];
        r1 == eps[j] || (r1.content_hash != eps[j].content_hash && r1.modified == now)
    } by {
        if has_ep(eps, u, e.podcast, e.episode) {
            assert(apply_episode_change(eps, u, now, e)[j] == upserted_row(eps[j], u, now, e));
        } else {
            assert(apply_episode_change(eps, u, now, e)[j] == eps[j]);
        }
    };
}

/// Removing a subscription and then literally re-adding the same
/// `(account, device, url)` key leaves the tombstoned row exactly as the
/// removal left it: the re-add sees the key taken and is a no-op, at
/// whatever time it runs.
pub proof fn lemma_tombstone_not_resurrected(
    subs: Seq<SubRecordV>,
    u: Seq<char>,
    d: Seq<char>,
    url: Seq<char>,
    n1: int,
    n2: int,
)
    requires
        has_sub(subs, u, d, url),
    ensures
        apply_subscription_changes(
            apply_subscription_changes(subs, u, d, seq![url], seq![], n1),
            u,
            d,
            seq![],
            seq![url],
            n2,
        ) =~= apply_subscription_changes(subs, u, d, seq![url], seq![], n1),
{
    reveal_with_fuel(apply_sub_removes, 3);
    reveal_with_fuel(apply_sub_adds, 3);
    let one = seq![url];
    assert(one.drop_last() =~= Seq::<Seq<char>>::empty());
    assert(one.drop_last().len() == 0);
    assert(one.last() == url);
    let s1 = apply_subscription_changes(subs, u, d, one, seq![], n1);
    assert(apply_sub_removes(subs, u, d, one.drop_last(), n1) == subs);
    assert(apply_sub_removes(subs, u, d, one, n1) == remove_url(subs, u, d, url, n1));
    assert(s1 == remove_url(subs, u, d, url, n1));
    let i = choose|i: int|
        0 <= i < subs.len() && subs[i].username == u && subs[i].device == d && subs[i].url == url;
    assert(s1[i] == removed_row(subs[i], u, d, url, n1));
    assert(s1[i].username == u && s1[i].device == d && s1[i].url == url);
    assert(has_sub(s1, u, d, url));
    assert(apply_sub_removes(s1, u, d, seq![], n2) == s1);
    assert(apply_sub_adds(s1, u, d, one.drop_last(), n2) == s1);
    assert(apply_sub_adds(s1, u, d, one, n2) == add_url(s1, u, d, url, n2));
    assert(apply_subscription_changes(s1, u, d, seq![], one, n2) == add_url(s1, u, d, url, n2));
}

/// A tombstone never predates its row's creation.
pub open spec fn tombstones_wf(subs: Seq<SubRecordV>) -> bool {
    forall|i: int|
        0 <= i < subs.len() ==> match (#[trigger] subs[i]).deleted {
            Some(dl) => dl >= subs[i].created,
            None => true,
        }
}

/// Every creation stamp the subscription table carries is at most `t`.
pub open spec fn sub_created_le(subs: Seq<SubRecordV>, t: int) -> bool {
    forall|i: int| 0 <= i < subs.len() ==> #[trigger] subs[i].created <= t
}

/// A subscription upload at `now` keeps both time invariants, provided
/// time has not run backwards: tombstones set at `now` land at or after
/// their rows' creations, and fresh rows are created at `now`.
pub proof fn lemma_apply_subs_keeps_time_order(
    subs: Seq<SubRecordV>,
    u: Seq<char>,
    d: Seq<char>,
    remove: Seq<Seq<char>>,
    add: Seq<Seq<char>>,
    now: int,
)
    requires
        tombstones_wf(subs),
        sub_created_le(subs, now),
    ensures
        tombstones_wf(apply_subscription_changes(subs, u, d, remove, add, now)),
        sub_created_le(apply_subscription_changes(subs, u, d, remove, add, now), now),
{
    lemma_sub_removes_keep_time_order(subs, u, d, remove, now);
    lemma_sub_adds_keep_time_order(
        apply_sub_removes(subs, u, d, remove, now),
        u,
        d,
        add,
        now,
    );
}

proof fn lemma_sub_removes_keep_time_order(
    subs: Seq<SubRecordV>,
    u: Seq<char>,
    d: Seq<char>,
    remove: Seq<Seq<char>>,
    now: int,
)
    requires
        tombstones_wf(subs),
        sub_created_le(subs, now),
    ensures
        tombstones_wf(apply_sub_removes(subs, u, d, remove, now)),
        sub_created_le(apply_sub_removes(subs, u, d, remove, now), now),
    decreases remove.len(),
{
    if remove.len() > 0 {
        lemma_sub_removes_keep_time_order(subs, u, d, remove.drop_last(), now);
        let mid = apply_sub_removes(subs, u, d, remove.drop_last(), now);
        let out = remove_url(mid, u, d, remove.last(), now);
        assert forall|i: int|
            0 <= i < out.len() implies (match (#[trigger] out[i]).deleted {
            Some(dl) => dl >= out[i].created,
            None => true,
        } && out[i].created <= now) by {
            assert(out[i] == removed_row(mid[i], u, d, remove.last(), now));
            assert(mid[i].created <= now);
        };
    }
}

proof fn lemma_sub_adds_keep_time_order(
    subs: Seq<SubRecordV>,
    u: Seq<char>,
    d: Seq<char>,
    add: Seq<Seq<char>>,
    now: int,
)
    requires
        tombstones_wf(subs),
        sub_created_le(subs, now),
    ensures
        tombstones_wf(apply_sub_adds(subs, u, d, add, now)),
        sub_created_le(apply_sub_adds(subs, u, d, add, now), now),
    decreases add.len(),
{
    if add.len() > 0 {
        lemma_sub_adds_keep_time_order(subs, u, d, add.drop_last(), now);
        let mid = apply_sub_adds(subs, u, d, add.drop_last(), now);
        let out = add_url(mid, u, d, add.last(), now);
        assert forall|i: int|
            0 <= i < out.len() implies (match (#[trigger] out[i]).deleted {
            Some(dl) => dl >= out[i].created,
            None => true,
        } && out[i].created <= now) by {
            if i < mid.len() {
                assert(out[i] == mid[i]);
            }
        };
    }
}

} // verus!
