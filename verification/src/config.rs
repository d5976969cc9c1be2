//! Configuration values the engine consumes. Loading them (files,
//! environment) is outside this crate; the engine only reads the plain
//! values. Rooms and channels are identified by their numeric ids.

use vstd::prelude::*;

verus! {

/// Platform-facing settings of the move-together engine.
#[derive(Debug)]
pub struct DiscordConfig {
    /// How long a poll stays open, in minutes.
    pub move_timeout_minutes: u64,
    /// Settle delay between the requester's staging move and reading back
    /// their new room, in seconds.
    pub move_wait_seconds: u64,
    /// The staging room through which a new room is claimed.
    pub vc_create_channel: u64,
    /// The parent category a claimed room must live under.
    pub vc_category: u64,
    /// Rooms that may never be adopted as a destination.
    pub vc_ignored_channels: Vec<u64>,
}

/// The application's whole configuration surface.
#[derive(Debug)]
pub struct AppConfig {
    /// Chat-platform settings.
    pub discord: DiscordConfig,
}

} // verus!
