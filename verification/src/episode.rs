//! Episode playback state: the actions a client reports, the rows the
//! persistence port keeps for them, and the content hash that decides
//! whether an incoming write is a semantic duplicate.

pub mod action;
pub mod episode;
pub mod episodes;
pub mod time;

pub use action::{EpisodeAction, EpisodeActionRaw, TimePrimitive};
pub use episode::{Episode, EpisodeId, EpisodeRaw, EpisodeRawV, EpisodeV};
pub use episodes::{Episodes, EpisodesV};
pub use time::Time;
