//! A podcast-synchronization library: session-based authentication gating
//! two reconciliation engines, one for subscription lists (add/remove with
//! tombstones) and one for per-episode playback state (idempotent,
//! content-hash-deduplicated upserts), both addressed by timestamp cursors
//! over an in-memory persistence port.

pub mod args;
pub mod auth;
pub mod backend;
pub mod device;
pub mod path_format;
pub mod podsync;
pub mod subscription;
pub mod episode;
pub mod strutil;
pub mod time;
pub mod user;
