//! The action a client reports for an episode, in its rich form and in the
//! decomposed raw form the persistence port keeps.

use vstd::prelude::*;

verus! {

/// The integer type of the play positions a client reports.
pub type TimePrimitive = i64;

/// What a client did with an episode.
#[derive(Debug, Clone, Copy, PartialEq, Eq, Structural)]
pub enum EpisodeAction {
    New,
    Download,
    Play { started: TimePrimitive, position: TimePrimitive, total: TimePrimitive },
    Delete,
}

/// The stored tag of an [`EpisodeAction`]; a `Play` keeps its three
/// positions in separate columns beside it.
#[derive(Debug, Clone, Copy, PartialEq, Eq, Structural)]
pub enum EpisodeActionRaw {
    New,
    Download,
    Play,
    Delete,
}

impl EpisodeAction {
    /// The decomposed form of this action: its tag and, for `Play`, its
    /// three positions.
    pub open spec fn spec_raw_parts(self) -> (
        EpisodeActionRaw,
        Option<TimePrimitive>,
        Option<TimePrimitive>,
        Option<TimePrimitive>,
    ) {
        match self {
            EpisodeAction::New => (EpisodeActionRaw::New, None, None, None),
            EpisodeAction::Download => (EpisodeActionRaw::Download, None, None, None),
            EpisodeAction::Delete => (EpisodeActionRaw::Delete, None, None, None),
            EpisodeAction::Play { started, position, total } => (
                EpisodeActionRaw::Play,
                Some(started),
                Some(position),
                Some(total),
            ),
        }
    }

    /// Decomposes this action into its stored form.
    pub fn to_raw_parts(self) -> (r: (
        EpisodeActionRaw,
        Option<TimePrimitive>,
        Option<TimePrimitive>,
        Option<TimePrimitive>,
    ))
        ensures
            r == self.spec_raw_parts(),
    {
        match self {
            EpisodeAction::New => (EpisodeActionRaw::New, None, None, None),
            EpisodeAction::Download => (EpisodeActionRaw::Download, None, None, None),
            EpisodeAction::Delete => (EpisodeActionRaw::Delete, None, None, None),
            EpisodeAction::Play { started, position, total } => (
                EpisodeActionRaw::Play,
                Some(started),
                Some(position),
                Some(total),
            ),
        }
    }

    /// The rich action a stored tag and its positions stand for, or `None`
    /// for a `Play` tag that misses a position.
    pub open spec fn spec_from_raw_parts(
        action: EpisodeActionRaw,
        started: Option<TimePrimitive>,
        position: Option<TimePrimitive>,
        total: Option<TimePrimitive>,
    ) -> Option<EpisodeAction> {
        match action {
            EpisodeActionRaw::New => Some(EpisodeAction::New),
            EpisodeActionRaw::Download => Some(EpisodeAction::Download),
            EpisodeActionRaw::Delete => Some(EpisodeAction::Delete),
            EpisodeActionRaw::Play => match (started, position, total) {
                (Some(s), Some(p), Some(t)) => Some(
                    EpisodeAction::Play { started: s, position: p, total: t },
                ),
                _ => None,
            },
        }
    }

    /// Recomposes an action from its stored form. A `Play` tag without all
    /// three positions is rejected.
    pub fn try_from_raw_parts(
        action: EpisodeActionRaw,
        started: Option<TimePrimitive>,
        position: Option<TimePrimitive>,
        total: Option<TimePrimitive>,
    ) -> (r: Result<EpisodeAction, &'static str>)
        ensures
            match Self::spec_from_raw_parts(action, started, position, total) {
                Some(a) => r == Ok::<EpisodeAction, &'static str>(a),
                None => r is Err,
            },
    {
        match action {
            EpisodeActionRaw::New => Ok(EpisodeAction::New),
            EpisodeActionRaw::Download => Ok(EpisodeAction::Download),
            EpisodeActionRaw::Delete => Ok(EpisodeAction::Delete),
            EpisodeActionRaw::Play => match (started, position, total) {
                (Some(s), Some(p), Some(t)) => Ok(
                    EpisodeAction::Play { started: s, position: p, total: t },
                ),
                _ => Err("\"play\" without started/position/total"),
            },
        }
    }
}

/// Decomposing an action and recomposing it yields the action again.
pub proof fn lemma_raw_parts_round_trip(a: EpisodeAction)
    ensures
        EpisodeAction::spec_from_raw_parts(
            a.spec_raw_parts().0,
            a.spec_raw_parts().1,
            a.spec_raw_parts().2,
            a.spec_raw_parts().3,
        ) == Some(a),
{
}

} // verus!
