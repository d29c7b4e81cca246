//! Episode actions as clients exchange them, the raw rows the persistence
//! port keeps for them, and the content hash over their logical fields.
//!
//! The content hash is a deterministic digest of the fields that carry the
//! meaning of an action — podcast, episode, client time, guid and the
//! action itself — and deliberately excludes the device and the server-side
//! `modified` stamp. Two writes with equal hashes are semantic duplicates,
//! and the second one must not disturb any other client's cursor.

use vstd::prelude::*;

use crate::episode::action::{EpisodeAction, EpisodeActionRaw, TimePrimitive};
use crate::episode::time::Time;
use crate::time::Timestamp;

verus! {

/// Modulus of the content hash: every digest lies below it.
pub const H_MOD: u64 = 0x1FFF_FFFF_FFFF_FFFF;

/// Multiplier of the content hash.
pub const H_MUL: u64 = 131;

/// Hash token marking a field boundary; above every char value.
pub const TOK_SEP: u64 = 0x110000;

/// Hash token for an absent optional field.
pub const TOK_NONE: u64 = 0x110001;

/// Hash token preceding a present optional field.
pub const TOK_SOME: u64 = 0x110002;

/// Hash token for the `New` action.
pub const TOK_NEW: u64 = 0x110003;

/// Hash token for the `Download` action.
pub const TOK_DOWNLOAD: u64 = 0x110004;

/// Hash token for the `Play` action.
pub const TOK_PLAY: u64 = 0x110005;

/// Hash token for the `Delete` action.
pub const TOK_DELETE: u64 = 0x110006;

/// One step of the content hash: absorb token `t` into accumulator `h`.
pub open spec fn h_step(h: int, t: int) -> int {
    (h * (H_MUL as int) + t) % (H_MOD as int)
}

/// Absorbs a character sequence, first character first.
pub open spec fn h_chars(h: int, s: Seq<char>) -> int
    decreases s.len(),
{
    if s.len() == 0 {
        h
    } else {
        h_step(h_chars(h, s.drop_last()), s.last() as int)
    }
}

/// A signed 64-bit value read as its two's-complement bit pattern, so that
/// it can serve as a hash token.
pub open spec fn u_of_i64(x: int) -> int {
    if x >= 0 {
        x
    } else {
        x + 0x1_0000_0000_0000_0000
    }
}

/// Absorbs an optional character sequence.
pub open spec fn h_opt_chars(h: int, o: Option<Seq<char>>) -> int {
    match o {
        None => h_step(h, TOK_NONE as int),
        Some(s) => h_chars(h_step(h, TOK_SOME as int), s),
    }
}

/// Absorbs an optional signed 64-bit value.
pub open spec fn h_opt_val(h: int, o: Option<int>) -> int {
    match o {
        None => h_step(h, TOK_NONE as int),
        Some(v) => h_step(h_step(h, TOK_SOME as int), u_of_i64(v)),
    }
}

/// Absorbs an action: its tag, and for `Play` its three positions.
pub open spec fn h_action(h: int, a: EpisodeAction) -> int {
    match a {
        EpisodeAction::New => h_step(h, TOK_NEW as int),
        EpisodeAction::Download => h_step(h, TOK_DOWNLOAD as int),
        EpisodeAction::Delete => h_step(h, TOK_DELETE as int),
        EpisodeAction::Play { started, position, total } => h_step(
            h_step(
                h_step(h_step(h, TOK_PLAY as int), u_of_i64(started as int)),
                u_of_i64(position as int),
            ),
            u_of_i64(total as int),
        ),
    }
}

/// The content hash of an action's logical fields.
pub open spec fn content_hash_of(
    podcast: Seq<char>,
    episode: Seq<char>,
    timestamp: Option<int>,
    guid: Option<Seq<char>>,
    action: EpisodeAction,
) -> int {
    let h0 = h_chars(0, podcast);
    let h1 = h_chars(h_step(h0, TOK_SEP as int), episode);
    let h2 = h_opt_val(h_step(h1, TOK_SEP as int), timestamp);
    let h3 = h_opt_chars(h_step(h2, TOK_SEP as int), guid);
    h_action(h_step(h3, TOK_SEP as int), action)
}

/// One executable step of the content hash.
fn hash_step(h: u64, t: u64) -> (r: u64)
    requires
        h < H_MOD,
    ensures
        r as int == h_step(h as int, t as int),
        r < H_MOD,
{
    let prod: u128 = (h as u128) * 131u128 + (t as u128);
    proof {
        assert(prod == h * (H_MUL as int) + t);
    }
    let m: u128 = H_MOD as u128;
    let r128: u128 = prod % m;
    r128 as u64
}

/// Absorbs the characters of a string slice.
fn hash_chars(h: u64, s: &str) -> (r: u64)
    requires
        h < H_MOD,
    ensures
        r as int == h_chars(h as int, s@),
        r < H_MOD,
{
    let n = s.unicode_len();
    let mut acc = h;
    let mut i: usize = 0;
    while i < n
        invariant
            i <= n,
            n == s@.len(),
            acc < H_MOD,
            acc as int == h_chars(h as int, s@.subrange(0, i as int)),
        decreases n - i,
    {
        let c = s.get_char(i);
        acc = hash_step(acc, c as u64);
        proof {
            assert(s@.subrange(0, i + 1 as int).drop_last() =~= s@.subrange(0, i as int));
            assert(s@.subrange(0, i + 1 as int).last() == s@[i as int]);
        }
        i = i + 1;
    }
    proof {
        assert(s@.subrange(0, n as int) =~= s@);
    }
    acc
}

/// The bit pattern of a signed 64-bit value as an unsigned token.
fn token_of_i64(x: i64) -> (r: u64)
    ensures
        r as int == u_of_i64(x as int),
{
    if x >= 0 {
        x as u64
    } else {
        let y: i128 = (x as i128) + 0x1_0000_0000_0000_0000i128;
        y as u64
    }
}

/// Absorbs an optional string field.
fn hash_opt_chars(h: u64, o: &Option<String>) -> (r: u64)
    requires
        h < H_MOD,
    ensures
        r as int == h_opt_chars(h as int, o.deep_view()),
        r < H_MOD,
{
    match o {
        None => hash_step(h, TOK_NONE),
        Some(s) => hash_chars(hash_step(h, TOK_SOME), s.as_str()),
    }
}

/// Absorbs an optional client time.
fn hash_opt_time(h: u64, o: &Option<Time>) -> (r: u64)
    requires
        h < H_MOD,
    ensures
        r as int == h_opt_val(h as int, o.deep_view()),
        r < H_MOD,
{
    match o {
        None => hash_step(h, TOK_NONE),
        Some(t) => hash_step(hash_step(h, TOK_SOME), token_of_i64(t.as_i64())),
    }
}

/// Absorbs an action.
fn hash_action(h: u64, a: &EpisodeAction) -> (r: u64)
    requires
        h < H_MOD,
    ensures
        r as int == h_action(h as int, *a),
        r < H_MOD,
{
    match a {
        EpisodeAction::New => hash_step(h, TOK_NEW),
        EpisodeAction::Download => hash_step(h, TOK_DOWNLOAD),
        EpisodeAction::Delete => hash_step(h, TOK_DELETE),
        EpisodeAction::Play { started, position, total } => {
            let h1 = hash_step(h, TOK_PLAY);
            let h2 = hash_step(h1, token_of_i64(*started));
            let h3 = hash_step(h2, token_of_i64(*position));
            hash_step(h3, token_of_i64(*total))
        },
    }
}

/// One episode action as clients exchange it. `device` is optional on the
/// way in from a client and absent on the way out to one.
#[derive(Debug, Clone)]
pub struct Episode {
    pub podcast: String,
    pub episode: String,
    pub timestamp: Option<Time>,
    pub guid: Option<String>,
    pub action: EpisodeAction,
    pub device: Option<String>,
}

/// The mathematical value of an [`Episode`].
pub struct EpisodeV {
    pub podcast: Seq<char>,
    pub episode: Seq<char>,
    pub timestamp: Option<int>,
    pub guid: Option<Seq<char>>,
    pub action: EpisodeAction,
    pub device: Option<Seq<char>>,
}

impl DeepView for Episode {
    type V = EpisodeV;

    open spec fn deep_view(&self) -> EpisodeV {
        EpisodeV {
            podcast: self.podcast@,
            episode: self.episode@,
            timestamp: self.timestamp.deep_view(),
            guid: self.guid.deep_view(),
            action: self.action,
            device: self.device.deep_view(),
        }
    }
}

/// The content hash of an episode action's logical fields; the device and
/// the server-side `modified` stamp take no part in it.
pub open spec fn spec_content_hash(e: EpisodeV) -> int {
    content_hash_of(e.podcast, e.episode, e.timestamp, e.guid, e.action)
}

impl Episode {
    /// The content hash of this action's logical fields.
    pub fn hash(&self) -> (r: u64)
        ensures
            r as int == spec_content_hash(self.deep_view()),
            r < H_MOD,
    {
        let h0 = hash_chars(0, self.podcast.as_str());
        let h1 = hash_chars(hash_step(h0, TOK_SEP), self.episode.as_str());
        let h2 = hash_opt_time(hash_step(h1, TOK_SEP), &self.timestamp);
        let h3 = hash_opt_chars(hash_step(h2, TOK_SEP), &self.guid);
        hash_action(hash_step(h3, TOK_SEP), &self.action)
    }

    /// The identity of this action for merge purposes: device deliberately
    /// excluded, so the latest writer across all devices wins.
    pub fn id(&self) -> (r: EpisodeId)
        ensures
            r.podcast@ == self.podcast@,
            r.episode@ == self.episode@,
    {
        EpisodeId { podcast: self.podcast.clone(), episode: self.episode.clone() }
    }
}

/// The identity key of an episode action within one account: episodes are
/// unique on `(account, podcast, episode)`.
#[derive(Debug, Clone)]
pub struct EpisodeId {
    pub podcast: String,
    pub episode: String,
}

impl EpisodeId {
    /// Whether two keys name the same episode.
    pub fn same_key(&self, other: &EpisodeId) -> (r: bool)
        ensures
            r == (self.podcast@ == other.podcast@ && self.episode@ == other.episode@),
    {
        crate::strutil::str_eq(self.podcast.as_str(), other.podcast.as_str())
            && crate::strutil::str_eq(self.episode.as_str(), other.episode.as_str())
    }
}

/// One episode action in the decomposed form the persistence port keeps:
/// the action split into its tag and positions, plus the server-side
/// `modified` stamp.
#[derive(Debug)]
pub struct EpisodeRaw {
    pub device: Option<String>,
    pub podcast: String,
    pub episode: String,
    pub timestamp: Option<Time>,
    pub guid: Option<String>,
    pub action: EpisodeActionRaw,
    pub started: Option<TimePrimitive>,
    pub position: Option<TimePrimitive>,
    pub total: Option<TimePrimitive>,
    pub modified: Option<Timestamp>,
}

/// The mathematical value of an [`EpisodeRaw`].
pub struct EpisodeRawV {
    pub device: Option<Seq<char>>,
    pub podcast: Seq<char>,
    pub episode: Seq<char>,
    pub timestamp: Option<int>,
    pub guid: Option<Seq<char>>,
    pub action: EpisodeActionRaw,
    pub started: Option<TimePrimitive>,
    pub position: Option<TimePrimitive>,
    pub total: Option<TimePrimitive>,
    pub modified: Option<int>,
}

impl DeepView for EpisodeRaw {
    type V = EpisodeRawV;

    open spec fn deep_view(&self) -> EpisodeRawV {
        EpisodeRawV {
            device: self.device.deep_view(),
            podcast: self.podcast@,
            episode: self.episode@,
            timestamp: self.timestamp.deep_view(),
            guid: self.guid.deep_view(),
            action: self.action,
            started: self.started,
            position: self.position,
            total: self.total,
            modified: self.modified.deep_view(),
        }
    }
}

/// The decomposed form of an episode action.
pub open spec fn spec_raw_of(e: EpisodeV, modified: Option<int>) -> EpisodeRawV {
    let (action, started, position, total) = e.action.spec_raw_parts();
    EpisodeRawV {
        device: e.device,
        podcast: e.podcast,
        episode: e.episode,
        timestamp: e.timestamp,
        guid: e.guid,
        action,
        started,
        position,
        total,
        modified,
    }
}

/// The rich action a raw row stands for, or `None` for a `Play` row that
/// misses a position.
pub open spec fn spec_episode_of_raw(r: EpisodeRawV) -> Option<EpisodeV> {
    match EpisodeAction::spec_from_raw_parts(r.action, r.started, r.position, r.total) {
        Some(action) => Some(
            EpisodeV {
                podcast: r.podcast,
                episode: r.episode,
                timestamp: r.timestamp,
                guid: r.guid,
                action,
                device: r.device,
            },
        ),
        None => None,
    }
}

impl Clone for EpisodeRaw {
    /// A clone carries the same value.
    fn clone(&self) -> (r: Self)
        ensures
            r.deep_view() == self.deep_view(),
    {
        let r = EpisodeRaw {
            device: match &self.device {
                Some(d) => Some(d.clone()),
                None => None,
            },
            podcast: self.podcast.clone(),
            episode: self.episode.clone(),
            timestamp: self.timestamp,
            guid: match &self.guid {
                Some(g) => Some(g.clone()),
                None => None,
            },
            action: self.action,
            started: self.started,
            position: self.position,
            total: self.total,
            modified: self.modified,
        };
        proof {
            assert(r.deep_view() == self.deep_view());
        }
        r
    }
}

impl EpisodeRaw {
    /// Decomposes an episode action into the stored form, stamping it with
    /// `modified`.
    pub fn from_episode(ep: Episode, modified: Option<Timestamp>) -> (r: EpisodeRaw)
        ensures
            r.deep_view() == spec_raw_of(ep.deep_view(), modified.deep_view()),
    {
        let Episode { podcast, episode, timestamp, guid, action, device } = ep;
        let (action, started, position, total) = action.to_raw_parts();
        let r = EpisodeRaw {
            podcast,
            episode,
            timestamp,
            guid,
            action,
            started,
            position,
            total,
            device,
            modified,
        };
        proof {
            assert(r.deep_view() == spec_raw_of(ep.deep_view(), modified.deep_view()));
        }
        r
    }

    /// The identity of this row for merge purposes.
    pub fn id(&self) -> (r: EpisodeId)
        ensures
            r.podcast@ == self.podcast@,
            r.episode@ == self.episode@,
    {
        EpisodeId { podcast: self.podcast.clone(), episode: self.episode.clone() }
    }
}

impl Episode {
    /// Recomposes an episode action from its stored form; a `Play` row
    /// without all three positions is rejected.
    pub fn try_from_raw(raw: EpisodeRaw) -> (r: Result<Episode, &'static str>)
        ensures
            match spec_episode_of_raw(raw.deep_view()) {
                Some(e) => r matches Ok(ep) && ep.deep_view() == e,
                None => r is Err,
            },
    {
        let EpisodeRaw {
            podcast,
            episode,
            timestamp,
            guid,
            action,
            started,
            position,
            total,
            device,
            modified: _,
        } = raw;
        let action = match EpisodeAction::try_from_raw_parts(action, started, position, total) {
            Ok(a) => a,
            Err(e) => {
                return Err(e);
            },
        };
        Ok(Episode { podcast, episode, timestamp, guid, action, device })
    }
}

} // verus!
