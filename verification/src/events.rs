//! Discrete outbound events for the host's UI, audio and HUD feedback.

use vstd::prelude::*;

verus! {

/// A free agent started following the player.
#[derive(Clone, Copy, Debug, PartialEq, Eq, Structural)]
pub struct PlayerFollowEvent {
    pub entity: u64,
}

/// The player took contact damage.
#[derive(Clone, Copy, Debug, PartialEq, Eq, Structural)]
pub struct PlayerDamageEvent {
    pub amount: i64,
}

/// A follower was delivered to the dropzone and captured.
#[derive(Clone, Copy, Debug, PartialEq, Eq, Structural)]
pub struct IconCaptureEvent {
    pub entity: u64,
}

/// A projectile was fired.
#[derive(Clone, Copy, Debug, PartialEq, Eq, Structural)]
pub struct ProjectileSpawnEvent;

} // verus!
