//! Core simulation library for an agent-capture game: a uniform-grid spatial
//! index over a bounded 2D world, boids-style steering forces, per-tick
//! roaming velocity updates, a capture state machine (free agents become
//! followers and are finally parked in a dropzone), and deterministic
//! dropzone grid packing.
//!
//! All coordinates, velocities and tunable parameters are fixed-point
//! integers (a world unit scaled by a caller-chosen factor), so every
//! computation is exact and free of the NaN/infinity hazards of float math:
//! normalizing a zero-length vector yields the zero vector by definition.

pub mod capture;
pub mod components;
pub mod controller;
pub mod icons;
pub mod events;
pub mod health;
pub mod math;
pub mod rng;
pub mod roaming;
pub mod settings;
pub mod spatial;
pub mod steering;
pub mod vec2;
pub mod world;

use vstd::prelude::*;

verus! {

/// Largest magnitude allowed for a coordinate, velocity component, or
/// distance parameter. Keeping every component within this bound makes
/// squared distances and scaled products fit comfortably in `i64`.
pub const COORD_LIMIT: i64 = 0x2000_0000;

/// Side length of an agent's icon, in milli-units.
pub const ICON_SIZE: i64 = 32_000;

/// Radius of the circle drawn around highlighted agents, in milli-units.
pub const ICON_CIRCLE_RADIUS: i64 = 24_000;

/// Minimum separation between agents at placement time, in milli-units.
pub const ICON_MIN_DISTANCE: i64 = 60_250;

/// Side length of one spatial grid cell, in milli-units.
pub const SPATIAL_GRID_SIZE: i64 = 128_000;

} // verus!
