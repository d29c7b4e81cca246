//! The synchronization facade: the session-based authentication state
//! machine that gates all sync operations, and the authenticated surface
//! through which clients reach the subscription and episode reconcilers.
//!
//! A handle is obtained by `login` (credentials, with an optional client
//! token to reconcile) or `authenticate` (token alone), and must then be
//! narrowed by `with_user` to the account named in the request path before
//! any reconciler operation can be called: authentication alone is not
//! enough.

use vstd::prelude::*;

use crate::auth::{session_hex, sha256_hex_of, spec_parse_session, AuthAttempt, SessionId};
use crate::backend::{
    apply_device_update, apply_episode_changes, apply_subscription_changes, ep_query, ep_row_ok,
    max_modified, raw_of_row, since_of, sub_count_u32, sub_query, user_devices,
    users_with_token, Backend, EpisodeRowV, FindError,
};
use crate::device::{DeviceAndSub, DeviceRecordV, DeviceUpdate};
use crate::episode::episode::{spec_episode_of_raw, Episode, EpisodeV};
use crate::episode::episodes::Episodes;
use crate::episode::time::Time;
use crate::strutil::str_eq;
use crate::subscription::{
    SubRecordV, SubscriptionChangesFromClient, SubscriptionChangesToClient,
};
use crate::time::Timestamp;
use crate::user::UserV;

verus! {

/// What a failed operation reports. `Unauthorized` deliberately collapses
/// "no such account" and "wrong password" into one outcome, so that
/// account names cannot be probed.
#[derive(Debug, Clone, Copy, PartialEq, Eq, Structural)]
pub enum Error {
    Internal,
    Unauthorized,
    BadRequest,
}

/// One subscription row as reported by a change query.
#[derive(Debug, Clone)]
pub struct Url {
    pub url: String,
    pub deleted: Option<Timestamp>,
    pub created: Timestamp,
}

/// The mathematical value of a [`Url`].
pub struct UrlV {
    pub url: Seq<char>,
    pub deleted: Option<int>,
    pub created: int,
}

impl DeepView for Url {
    type V = UrlV;

    open spec fn deep_view(&self) -> UrlV {
        UrlV {
            url: self.url@,
            deleted: self.deleted.deep_view(),
            created: self.created.value(),
        }
    }
}

/// An episode-change query: the cursor to start from and the optional
/// podcast and device the answer is narrowed to.
#[derive(Debug)]
pub struct QueryEpisodes {
    pub since: Option<Timestamp>,
    pub aggregated: Option<bool>,
    pub podcast: Option<String>,
    pub device: Option<String>,
}

/// A subscription-change query: the cursor to start from.
#[derive(Debug)]
pub struct QuerySince {
    pub since: Timestamp,
}

/// The answer to a subscription upload: the new cursor, and each added URL
/// echoed beside itself (a protocol artifact some clients require; the
/// reconciliation logic itself never reads it).
#[derive(Debug)]
pub struct UpdatedUrls {
    pub timestamp: Timestamp,
    pub update_urls: Vec<(String, String)>,
}

impl UpdatedUrls {
    /// An answer carrying only the new cursor.
    pub fn just_timestamp(timestamp: Timestamp) -> (r: Self)
        ensures
            r.timestamp == timestamp,
            r.update_urls@.len() == 0,
    {
        UpdatedUrls { timestamp, update_urls: Vec::new() }
    }
}

/// The current wall-clock time, as the facade's operations take it.
pub fn now() -> (r: Result<Timestamp, Error>)
    ensures
        r is Err ==> r == Err::<Timestamp, Error>(Error::Internal),
{
    match Timestamp::now() {
        Ok(t) => Ok(t),
        Err(()) => Err(Error::Internal),
    }
}

/// Whether some account carries the name.
pub open spec fn has_user(users: Seq<UserV>, name: Seq<char>) -> bool {
    exists|i: int| 0 <= i < users.len() && users[i].username == name
}

/// The URLs of the still-active rows among `us`, in order.
pub open spec fn urls_added(us: Seq<UrlV>) -> Seq<Seq<char>>
    decreases us.len(),
{
    if us.len() == 0 {
        Seq::empty()
    } else {
        let rest = urls_added(us.drop_last());
        if us.last().deleted is None {
            rest.push(us.last().url)
        } else {
            rest
        }
    }
}

/// The URLs of the tombstoned rows among `us`, in order.
pub open spec fn urls_removed(us: Seq<UrlV>) -> Seq<Seq<char>>
    decreases us.len(),
{
    if us.len() == 0 {
        Seq::empty()
    } else {
        let rest = urls_removed(us.drop_last());
        if us.last().deleted is Some {
            rest.push(us.last().url)
        } else {
            rest
        }
    }
}

/// The largest `created` stamp among `us`; zero for none.
pub open spec fn urls_max_created(us: Seq<UrlV>) -> int
    decreases us.len(),
{
    if us.len() == 0 {
        0
    } else if us.len() == 1 {
        us.last().created
    } else {
        let rest = urls_max_created(us.drop_last());
        if us.last().created > rest {
            us.last().created
        } else {
            rest
        }
    }
}

/// The cursor covers what it was computed from: no reported row was
/// created after `urls_max_created`.
pub proof fn lemma_urls_max_created_ge(us: Seq<UrlV>)
    ensures
        forall|i: int| 0 <= i < us.len() ==> (#[trigger] us[i]).created <= urls_max_created(us),
    decreases us.len(),
{
    if us.len() > 0 {
        lemma_urls_max_created_ge(us.drop_last());
        assert(forall|i: int| 0 <= i < us.len() - 1 ==> us[i] == us.drop_last()[i]);
    }
}

/// As [`lemma_urls_max_created_ge`], for episode rows and `modified`.
pub proof fn lemma_max_modified_ge(rows: Seq<EpisodeRowV>)
    ensures
        forall|i: int|
            0 <= i < rows.len() ==> (#[trigger] rows[i]).modified <= max_modified(rows),
    decreases rows.len(),
{
    if rows.len() > 0 {
        lemma_max_modified_ge(rows.drop_last());
        assert(forall|i: int| 0 <= i < rows.len() - 1 ==> rows[i] == rows.drop_last()[i]);
    }
}

/// Every row of `eps` is coherent.
pub open spec fn rows_ok(eps: Seq<EpisodeRowV>) -> bool {
    forall|i: int| 0 <= i < eps.len() ==> ep_row_ok(#[trigger] eps[i])
}

/// Every row answering an episode query is coherent, because every stored
/// row is.
pub proof fn lemma_ep_query_rows_ok(
    eps: Seq<EpisodeRowV>,
    u: Seq<char>,
    since: int,
    pod: Option<Seq<char>>,
    dev: Option<Seq<char>>,
)
    requires
        rows_ok(eps),
    ensures
        rows_ok(ep_query(eps, u, since, pod, dev)),
    decreases eps.len(),
{
    if eps.len() > 0 {
        assert(rows_ok(eps.drop_last())) by {
            assert(forall|i: int| 0 <= i < eps.len() - 1 ==> eps.drop_last()[i] == eps[i]);
        }
        lemma_ep_query_rows_ok(eps.drop_last(), u, since, pod, dev);
        let q = ep_query(eps, u, since, pod, dev);
        let rest = ep_query(eps.drop_last(), u, since, pod, dev);
        assert forall|i: int| 0 <= i < q.len() implies ep_row_ok(#[trigger] q[i]) by {
            if crate::backend::ep_filter_match(eps.last(), u, since, pod, dev) {
                assert(q == rest.push(eps.last()));
                if i < rest.len() {
                    assert(q[i] == rest[i]);
                } else {
                    assert(q[i] == eps.last());
                    assert(ep_row_ok(eps[eps.len() - 1]));
                }
            } else {
                assert(q == rest);
            }
        };
    }
}

/// An episode as reported to a client: a missing client timestamp is
/// backfilled to the epoch, to accommodate clients that drop actions
/// without one.
pub open spec fn backfilled(e: EpisodeV) -> EpisodeV {
    EpisodeV {
        timestamp: match e.timestamp {
            Some(t) => Some(t),
            None => Some(0),
        },
        ..e
    }
}

/// The episode a coherent stored row denotes.
pub open spec fn row_episode(r: EpisodeRowV) -> EpisodeV
    recommends
        ep_row_ok(r),
{
    match spec_episode_of_raw(raw_of_row(r)) {
        Some(e) => e,
        None => arbitrary(),
    }
}

/// The synchronization engine over its persistence port.
pub struct PodSync(pub Backend);

/// A session handle. `USER_MATCH` records whether the handle has been
/// narrowed to the account named in the request path; only a narrowed
/// handle reaches the reconcilers.
pub struct PodSyncAuthed<const USER_MATCH: bool> {
    pub session_id: SessionId,
    pub username: String,
}

impl PodSync {
    /// Wraps a persistence port.
    pub fn new(backend: Backend) -> (r: Self)
        ensures
            r.0 == backend,
    {
        PodSync(backend)
    }

    /// Verifies credentials and reconciles the client-presented token
    /// with the stored one.
    ///
    /// An unknown account and a wrong password are indistinguishable to
    /// the caller. With good credentials: no token on either side mints
    /// and stores a fresh one (the only branch that writes); equal tokens
    /// re-validate the session; a client token the store does not carry
    /// is a protocol violation reported as `Internal` when the store
    /// holds a different token, and `Unauthorized` when the store holds
    /// none; a client without a token rejoins the stored session.
    pub fn login(
        &mut self,
        auth_attempt: AuthAttempt,
        client_session_id: Option<SessionId>,
    ) -> (r: Result<PodSyncAuthed<true>, Error>)
        requires
            old(self).0.wf(),
        ensures
            final(self).0.wf(),
            final(self).0@.devices == old(self).0@.devices,
            final(self).0@.subscriptions == old(self).0@.subscriptions,
            final(self).0@.episodes == old(self).0@.episodes,
            final(self).0@.users.len() == old(self).0@.users.len(),
            !has_user(old(self).0@.users, auth_attempt.auth.user@) ==> (r == Err::<
                PodSyncAuthed<true>,
                Error,
            >(Error::Unauthorized) && final(self).0@.users == old(self).0@.users),
            forall|i: int|
                0 <= i < old(self).0@.users.len() && (#[trigger] old(self).0@.users[i]).username
                    == auth_attempt.auth.user@ ==> login_outcome(
                    old(self).0@.users,
                    final(self).0@.users,
                    old(self).0@.users[i],
                    auth_attempt,
                    client_session_id,
                    r,
                ),
    {
        let username = auth_attempt.user();
        let user = match self.0.find_user(username) {
            Ok(u) => u,
            Err(FindError::NotFound) => {
                return Err(Error::Unauthorized);
            },
            Err(FindError::Internal) => {
                return Err(Error::Internal);
            },
        };
        if !str_eq(auth_attempt.calc_pwhash().as_str(), user.pwhash.as_str()) {
            return Err(Error::Unauthorized);
        }
        let db_session_id: Option<SessionId> = match &user.session_id {
            Some(s) => match SessionId::parse(s.as_str()) {
                Ok(id) => Some(id),
                Err(()) => {
                    return Err(Error::Internal);
                },
            },
            None => None,
        };
        match (client_session_id, db_session_id) {
            (None, None) => {
                let session_id = SessionId::new();
                let session_str = session_id.hex_string();
                if !self.0.update_user(username, Some(session_str.as_str())) {
                    return Err(Error::Internal);
                }
                Ok(PodSyncAuthed { session_id, username: auth_attempt.auth.user })
            },
            (Some(client), Some(db_id)) => {
                if client.equals(&db_id) {
                    Ok(PodSyncAuthed { session_id: client, username: auth_attempt.auth.user })
                } else {
                    Err(Error::Internal)
                }
            },
            (Some(_), None) => Err(Error::Unauthorized),
            (None, Some(db_id)) => Ok(
                PodSyncAuthed { session_id: db_id, username: auth_attempt.auth.user },
            ),
        }
    }

    /// Looks the session token up. No bearer means `Unauthorized`; more
    /// than one would break the single-session invariant and is surfaced
    /// as `Internal`, never silently repaired.
    pub fn authenticate(&self, session_id: SessionId) -> (r: Result<PodSyncAuthed<false>, Error>)
        ensures
            ({
                let m = users_with_token(self.0@.users, session_hex(session_id.value()));
                &&& m.len() == 0 ==> r == Err::<PodSyncAuthed<false>, Error>(Error::Unauthorized)
                &&& m.len() == 1 ==> (r matches Ok(h) && h.username@ == m[0].username
                    && h.session_id == session_id)
                &&& m.len() > 1 ==> r == Err::<PodSyncAuthed<false>, Error>(Error::Internal)
            }),
    {
        let session_str = session_id.hex_string();
        let users = match self.0.users_with_session(session_str.as_str()) {
            Ok(us) => us,
            Err(()) => {
                return Err(Error::Internal);
            },
        };
        if users.len() == 0 {
            Err(Error::Unauthorized)
        } else if users.len() == 1 {
            let username = users[0].username.clone();
            proof {
                assert(users.deep_view()[0] == users_with_token(
                    self.0@.users,
                    session_hex(session_id.value()),
                )[0]);
            }
            Ok(PodSyncAuthed { session_id, username })
        } else {
            Err(Error::Internal)
        }
    }
}

/// The outcome `login` owes for the account row `u` that carries the
/// attempted name: the session state machine of the service, written over
/// the stored rows.
pub open spec fn login_outcome(
    before: Seq<UserV>,
    after: Seq<UserV>,
    u: UserV,
    auth_attempt: AuthAttempt,
    client: Option<SessionId>,
    r: Result<PodSyncAuthed<true>, Error>,
) -> bool {
    let name = auth_attempt.auth.user@;
    if u.pwhash != sha256_hex_of(auth_attempt.auth.pass@) {
        r == Err::<PodSyncAuthed<true>, Error>(Error::Unauthorized) && after == before
    } else {
        match (client, u.session_id) {
            (None, None) => r matches Ok(h) && h.username@ == name && after.len() == before.len()
                && (forall|j: int|
                0 <= j < before.len() && (#[trigger] before[j]).username == name ==> after[j]
                    == (UserV { session_id: Some(session_hex(h.session_id.value())), ..before[j] }))
                && (forall|j: int|
                0 <= j < before.len() && (#[trigger] before[j]).username != name ==> after[j]
                    == before[j]),
            (Some(c), Some(d)) => match spec_parse_session(d) {
                Some(v) => if c.value() == v {
                    r matches Ok(h) && h.session_id == c && h.username@ == name && after == before
                } else {
                    r == Err::<PodSyncAuthed<true>, Error>(Error::Internal) && after == before
                },
                None => r == Err::<PodSyncAuthed<true>, Error>(Error::Internal) && after == before,
            },
            (Some(_), None) => r == Err::<PodSyncAuthed<true>, Error>(Error::Unauthorized) && after
                == before,
            (None, Some(d)) => match spec_parse_session(d) {
                Some(v) => r matches Ok(h) && h.session_id.value() == v && h.username@ == name
                    && after == before,
                None => r == Err::<PodSyncAuthed<true>, Error>(Error::Internal) && after == before,
            },
        }
    }
}

impl PodSyncAuthed<false> {
    /// Narrows an authenticated handle to "acting as `username`": the
    /// capability every reconciler operation demands. Fails with
    /// `Unauthorized` for every name but the session's own account.
    pub fn with_user(self, username: &str) -> (r: Result<PodSyncAuthed<true>, Error>)
        ensures
            username@ == self.username@ ==> (r matches Ok(h) && h.username@ == self.username@
                && h.session_id == self.session_id),
            username@ != self.username@ ==> r == Err::<PodSyncAuthed<true>, Error>(
                Error::Unauthorized,
            ),
    {
        if str_eq(username, self.username.as_str()) {
            Ok(PodSyncAuthed { session_id: self.session_id, username: self.username })
        } else {
            Err(Error::Unauthorized)
        }
    }
}

impl PodSyncAuthed<true> {
    /// The account this handle acts for.
    pub fn username(&self) -> (r: &str)
        ensures
            r@ == self.username@,
    {
        self.username.as_str()
    }

    /// The token this handle carries.
    pub fn session_id(&self) -> (r: &SessionId)
        ensures
            *r == self.session_id,
    {
        &self.session_id
    }

    /// Clears the account's stored token unconditionally; idempotent.
    pub fn logout(&self, sync: &mut PodSync) -> (r: Result<(), Error>)
        requires
            old(sync).0.wf(),
        ensures
            final(sync).0.wf(),
            final(sync).0@.devices == old(sync).0@.devices,
            final(sync).0@.subscriptions == old(sync).0@.subscriptions,
            final(sync).0@.episodes == old(sync).0@.episodes,
            final(sync).0@.users.len() == old(sync).0@.users.len(),
            forall|j: int|
                0 <= j < old(sync).0@.users.len() && (#[trigger] old(sync).0@.users[j]).username
                    == self.username@ ==> final(sync).0@.users[j] == (UserV {
                    session_id: None,
                    ..old(sync).0@.users[j]
                }),
            forall|j: int|
                0 <= j < old(sync).0@.users.len() && (#[trigger] old(sync).0@.users[j]).username
                    != self.username@ ==> final(sync).0@.users[j] == old(sync).0@.users[j],
            r == if has_user(old(sync).0@.users, self.username@) {
                Ok::<(), Error>(())
            } else {
                Err::<(), Error>(Error::Internal)
            },
    {
        if sync.0.update_user(self.username.as_str(), None) {
            Ok(())
        } else {
            Err(Error::Internal)
        }
    }

    /// The account's devices, each with the account's subscription-row
    /// count.
    pub fn devices(&self, sync: &PodSync) -> (r: Result<Vec<DeviceAndSub>, Error>)
        ensures
            r matches Ok(out) && out.deep_view() =~= user_devices(
                sync.0@.devices,
                self.username@,
            ).map_values(
                |d: DeviceRecordV| crate::device::DeviceAndSubV {
                    id: d.id,
                    caption: d.caption,
                    dtype: d.dtype,
                    subscriptions: sub_count_u32(sync.0@.subscriptions, self.username@),
                },
            ),
    {
        match sync.0.devices_for_user(self.username.as_str()) {
            Ok(devs) => Ok(devs),
            Err(()) => Err(Error::Internal),
        }
    }

    /// Applies a partial update to one device row, creating it with
    /// defaults when absent.
    pub fn update_device(&self, sync: &mut PodSync, device_id: &str, update: DeviceUpdate) -> (r:
        Result<(), Error>)
        requires
            old(sync).0.wf(),
        ensures
            r == Ok::<(), Error>(()),
            final(sync).0.wf(),
            final(sync).0@.users == old(sync).0@.users,
            final(sync).0@.subscriptions == old(sync).0@.subscriptions,
            final(sync).0@.episodes == old(sync).0@.episodes,
            final(sync).0@.devices =~= apply_device_update(
                old(sync).0@.devices,
                self.username@,
                device_id@,
                update.deep_view(),
            ),
    {
        match sync.0.update_device(self.username.as_str(), device_id, update) {
            Ok(()) => Ok(()),
            Err(()) => Err(Error::Internal),
        }
    }

    /// What changed in one device's subscriptions since the cursor
    /// `since`: the still-active rows as additions, the tombstoned rows
    /// as removals — a row both added and removed after the cursor
    /// appears only as removed — and the new cursor: the largest
    /// `created` stamp reported, or `now` when nothing changed, so an
    /// idle client still advances past stale history. The cursor is
    /// never behind anything in the same answer.
    pub fn subscriptions(&self, sync: &PodSync, device_id: &str, since: Timestamp, now: Timestamp)
        -> (r: Result<SubscriptionChangesToClient, Error>)
        ensures
            ({
                let q = sub_query(
                    sync.0@.subscriptions,
                    self.username@,
                    device_id@,
                    since.value(),
                ).map_values(|s: SubRecordV| crate::backend::url_of_sub(s));
                &&& r matches Ok(out)
                &&& out.add.deep_view() =~= urls_added(q)
                &&& out.remove.deep_view() =~= urls_removed(q)
                &&& out.timestamp.value() == if q.len() == 0 {
                    now.value()
                } else {
                    urls_max_created(q)
                }
                &&& forall|i: int|
                    0 <= i < q.len() ==> (#[trigger] q[i]).created <= out.timestamp.value()
            }),
    {
        let urls = match sync.0.subscriptions(self.username.as_str(), device_id, since) {
            Ok(us) => us,
            Err(()) => {
                return Err(Error::Internal);
            },
        };
        let n = urls.len();
        let mut add: Vec<String> = Vec::new();
        let mut remove: Vec<String> = Vec::new();
        let mut latest: Option<Timestamp> = None;
        let mut i: usize = 0;
        while i < n
            invariant
                i <= n,
                n == urls.len(),
                add.deep_view() =~= urls_added(urls.deep_view().subrange(0, i as int)),
                remove.deep_view() =~= urls_removed(urls.deep_view().subrange(0, i as int)),
                i == 0 ==> latest is None,
                i > 0 ==> (latest matches Some(t) && t.value() == urls_max_created(
                    urls.deep_view().subrange(0, i as int),
                )),
            decreases n - i,
        {
            let ghost prev_add = add.deep_view();
            let ghost prev_remove = remove.deep_view();
            let u = &urls[i];
            match &u.deleted {
                Some(_) => {
                    remove.push(u.url.clone());
                    proof {
                        assert(remove.deep_view() =~= prev_remove.push(
                            urls.deep_view()[i as int].url,
                        ));
                    }
                },
                None => {
                    add.push(u.url.clone());
                    proof {
                        assert(add.deep_view() =~= prev_add.push(urls.deep_view()[i as int].url));
                    }
                },
            }
            let better = match &latest {
                Some(t) => u.created.as_i64() > t.as_i64(),
                None => true,
            };
            if better {
                latest = Some(u.created);
            }
            proof {
                let prefix = urls.deep_view().subrange(0, i + 1 as int);
                assert(prefix.drop_last() =~= urls.deep_view().subrange(0, i as int));
                assert(prefix.last() == urls.deep_view()[i as int]);
                if i == 0 {
                    assert(urls_max_created(prefix.drop_last()) == 0);
                }
            }
            i = i + 1;
        }
        proof {
            assert(urls.deep_view().subrange(0, n as int) =~= urls.deep_view());
        }
        let timestamp = match latest {
            Some(t) => t,
            None => now,
        };
        proof {
            lemma_urls_max_created_ge(urls.deep_view());
        }
        Ok(SubscriptionChangesToClient { add, remove, timestamp })
    }

    /// Applies one batch of subscription changes — removals tombstoned at
    /// `now`, additions inserted-if-absent at `now`, atomically — and
    /// returns `now` as the new cursor, with each added URL echoed beside
    /// itself.
    pub fn update_subscriptions(
        &self,
        sync: &mut PodSync,
        device_id: &str,
        changes: SubscriptionChangesFromClient,
        now: Timestamp,
    ) -> (r: Result<UpdatedUrls, Error>)
        requires
            old(sync).0.wf(),
        ensures
            final(sync).0.wf(),
            final(sync).0@.users == old(sync).0@.users,
            final(sync).0@.devices == old(sync).0@.devices,
            final(sync).0@.episodes == old(sync).0@.episodes,
            final(sync).0@.subscriptions =~= apply_subscription_changes(
                old(sync).0@.subscriptions,
                self.username@,
                device_id@,
                changes.remove.deep_view(),
                changes.add.deep_view(),
                now.value(),
            ),
            r matches Ok(out) && out.timestamp == now && out.update_urls.deep_view().len()
                == changes.add.deep_view().len() && (forall|i: int|
                0 <= i < changes.add.deep_view().len()
                    ==> #[trigger] out.update_urls.deep_view()[i] == (
                changes.add.deep_view()[i],
                changes.add.deep_view()[i],
            )),
    {
        match sync.0.update_subscriptions(self.username.as_str(), device_id, &changes, now) {
            Ok(()) => {},
            Err(()) => {
                return Err(Error::Internal);
            },
        }
        let n = changes.add.len();
        let mut update_urls: Vec<(String, String)> = Vec::new();
        let mut i: usize = 0;
        while i < n
            invariant
                i <= n,
                n == changes.add.len(),
                update_urls.deep_view().len() == i,
                forall|j: int|
                    0 <= j < i ==> #[trigger] update_urls.deep_view()[j] == (
                    changes.add.deep_view()[j],
                    changes.add.deep_view()[j],
                ),
            decreases n - i,
        {
            let ghost prev = update_urls.deep_view();
            let url = changes.add[i].clone();
            update_urls.push((url.clone(), url));
            proof {
                assert(update_urls.deep_view() =~= prev.push(
                    (changes.add.deep_view()[i as int], changes.add.deep_view()[i as int]),
                ));
            }
            i = i + 1;
        }
        Ok(UpdatedUrls { timestamp: now, update_urls })
    }

    /// The episode actions changed since the cursor, optionally narrowed
    /// to one podcast or one device; a missing client timestamp is
    /// backfilled to the epoch. The new cursor is the largest `modified`
    /// stamp reported, or `now` when nothing changed, and is never behind
    /// anything in the same answer. With a well-formed store this cannot
    /// fail.
    pub fn episodes(&self, sync: &PodSync, query: QueryEpisodes, now: Timestamp) -> (r: Result<
        Episodes,
        Error,
    >)
        requires
            sync.0.wf(),
        ensures
            ({
                let q = ep_query(
                    sync.0@.episodes,
                    self.username@,
                    since_of(query.since.deep_view()),
                    query.podcast.deep_view(),
                    query.device.deep_view(),
                );
                &&& r matches Ok(out)
                &&& out.actions.deep_view() =~= q.map_values(
                    |x: EpisodeRowV| backfilled(row_episode(x)),
                )
                &&& out.timestamp.value() == if q.len() == 0 {
                    now.value()
                } else {
                    max_modified(q)
                }
                &&& forall|i: int|
                    0 <= i < q.len() ==> (#[trigger] q[i]).modified <= out.timestamp.value()
            }),
    {
        let raws = match sync.0.episodes(self.username.as_str(), &query) {
            Ok(rs) => rs,
            Err(()) => {
                return Err(Error::Internal);
            },
        };
        let ghost q = ep_query(
            sync.0@.episodes,
            self.username@,
            since_of(query.since.deep_view()),
            query.podcast.deep_view(),
            query.device.deep_view(),
        );
        proof {
            lemma_ep_query_rows_ok(
                sync.0@.episodes,
                self.username@,
                since_of(query.since.deep_view()),
                query.podcast.deep_view(),
                query.device.deep_view(),
            );
        }
        let (actions, timestamp) = episodes_payload(raws, Ghost(q), now);
        proof {
            lemma_max_modified_ge(q);
        }
        Ok(Episodes { timestamp, actions })
    }

    /// Applies one batch of episode actions atomically — each one
    /// content-hash-deduplicated and upserted by `(podcast, episode)` —
    /// and returns `now` as the new cursor.
    pub fn update_episodes(&self, sync: &mut PodSync, now: Timestamp, body: Vec<Episode>) -> (r:
        Result<UpdatedUrls, Error>)
        requires
            old(sync).0.wf(),
        ensures
            final(sync).0.wf(),
            final(sync).0@.users == old(sync).0@.users,
            final(sync).0@.devices == old(sync).0@.devices,
            final(sync).0@.subscriptions == old(sync).0@.subscriptions,
            final(sync).0@.episodes =~= apply_episode_changes(
                old(sync).0@.episodes,
                self.username@,
                now.value(),
                body.deep_view(),
            ),
            r matches Ok(out) && out.timestamp == now && out.update_urls@.len() == 0,
    {
        match sync.0.update_episodes(self.username.as_str(), now, body) {
            Ok(()) => Ok(UpdatedUrls::just_timestamp(now)),
            Err(()) => Err(Error::Internal),
        }
    }
}

/// Converts queried rows to client episodes — backfilling missing client
/// timestamps to the epoch — and computes the answer's cursor.
fn episodes_payload(raws: Vec<crate::episode::episode::EpisodeRaw>, Ghost(q): Ghost<Seq<EpisodeRowV>>, now: Timestamp) -> (r: (
    Vec<Episode>,
    Timestamp,
))
    requires
        raws.deep_view() =~= q.map_values(|x: EpisodeRowV| raw_of_row(x)),
        rows_ok(q),
    ensures
        r.0.deep_view() =~= q.map_values(|x: EpisodeRowV| backfilled(row_episode(x))),
        r.1.value() == if q.len() == 0 {
            now.value()
        } else {
            max_modified(q)
        },
{
    let n = raws.len();
    let mut actions: Vec<Episode> = Vec::new();
    let mut latest: Option<Timestamp> = None;
    let mut i: usize = 0;
    proof {
        assert(raws.deep_view().len() == q.len());
    }
    while i < n
        invariant
            i <= n,
            n == raws.len(),
            n == q.len(),
            raws.deep_view() =~= q.map_values(|x: EpisodeRowV| raw_of_row(x)),
            rows_ok(q),
            actions.deep_view() =~= q.subrange(0, i as int).map_values(
                |x: EpisodeRowV| backfilled(row_episode(x)),
            ),
            i == 0 ==> latest is None,
            i > 0 ==> (latest matches Some(t) && t.value() == max_modified(
                q.subrange(0, i as int),
            )),
        decreases n - i,
    {
        let ghost prev = actions.deep_view();
        let raw = &raws[i];
        proof {
            assert(q.map_values(|x: EpisodeRowV| raw_of_row(x))[i as int] == raw_of_row(
                q[i as int],
            ));
            assert(raw.deep_view() == raw_of_row(q[i as int]));
            assert(ep_row_ok(q[i as int]));
        }
        let modified: Timestamp = match &raw.modified {
            Some(m) => *m,
            None => {
                proof {
                    assert(false);
                }
                Timestamp::zero()
            },
        };
        let mut ep = match Episode::try_from_raw(raw.clone()) {
            Ok(e) => e,
            Err(_) => {
                proof {
                    assert(false);
                }
                Episode {
                    podcast: String::new(),
                    episode: String::new(),
                    timestamp: None,
                    guid: None,
                    action: crate::episode::action::EpisodeAction::New,
                    device: None,
                }
            },
        };
        if ep.timestamp.is_none() {
            ep.timestamp = Some(Time::epoch());
        }
        proof {
            assert(ep.deep_view() == backfilled(row_episode(q[i as int])));
        }
        actions.push(ep);
        proof {
            assert(actions.deep_view() =~= prev.push(backfilled(row_episode(q[i as int]))));
            let prefix = q.subrange(0, i + 1 as int);
            assert(prefix.drop_last() =~= q.subrange(0, i as int));
            assert(prefix.last() == q[i as int]);
        }
        let better = match &latest {
            Some(t) => modified.as_i64() > t.as_i64(),
            None => true,
        };
        if better {
            latest = Some(modified);
        }
        proof {
            assert(modified.value() == q[i as int].modified);
        }
        i = i + 1;
    }
    proof {
        assert(q.subrange(0, n as int) =~= q);
    }
    let timestamp = match latest {
        Some(t) => t,
        None => now,
    };
    (actions, timestamp)
}

} // verus!
