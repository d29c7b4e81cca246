//! The answer to an episode-change query: the actions changed since the
//! client's cursor, and the new cursor.

use vstd::prelude::*;

use crate::episode::episode::{Episode, EpisodeV};
use crate::time::Timestamp;

verus! {

/// Episode actions changed since a cursor, together with the new cursor a
/// client should store.
#[derive(Debug, Clone)]
pub struct Episodes {
    pub timestamp: Timestamp,
    pub actions: Vec<Episode>,
}

/// The mathematical value of an [`Episodes`] answer.
pub struct EpisodesV {
    pub timestamp: int,
    pub actions: Seq<EpisodeV>,
}

impl DeepView for Episodes {
    type V = EpisodesV;

    open spec fn deep_view(&self) -> EpisodesV {
        EpisodesV { timestamp: self.timestamp.value(), actions: self.actions.deep_view() }
    }
}

} // verus!
