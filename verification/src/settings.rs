//! Runtime-tunable simulation parameters.
//!
//! Lengths, speeds and forces are in milli-units (one world unit scaled by
//! 1000); weights and multipliers are per-mille factors (1000 means 1.0);
//! times are in milliseconds.

use vstd::prelude::*;

verus! {

use crate::COORD_LIMIT;

/// Per-mille scale of the weight and multiplier fields.
pub const WEIGHT_SCALE: i64 = 1000;

/// Flat record of every tunable parameter; each field can be changed at
/// runtime without restarting the simulation.
#[derive(Clone, Debug)]
pub struct SettingsResource {
    pub max_speed: i64,
    pub max_force: i64,

    pub max_icons: u32,

    pub avoidance_distance_dropzone: i64,
    pub avoidance_force_dropzone: i64,
    pub avoidance_force_bounds: i64,

    pub max_force_distance: i64,
    pub velocity_time_scale: i64,
    pub collision_distance: i64,
    pub separation_distance: i64,
    pub alignment_distance: i64,
    pub cohesion_distance: i64,
    pub separation_weight: i64,
    pub collision_weight: i64,
    pub alignment_weight: i64,
    pub cohesion_weight: i64,

    pub player_avoidance_distance: i64,
    pub player_avoidance_weight: i64,
    pub player_avoidance_max_speed: i64,
    pub player_avoidance_max_force: i64,

    pub seek_weight: i64,
    pub seek_max_speed: i64,
    pub seek_max_force: i64,

    pub controller_turn_speed: i64,
    pub controller_acceleration: i64,
    pub controller_dampening: i64,
    pub controller_max_speed: i64,

    pub max_hover_distance: i64,
    pub capture_time: i64,

    pub projectile_speed: i64,
    pub projectile_despawn_distance: i64,
    pub projectile_cooldown: i64,

    pub player_damage_amount: i64,
    pub player_damage_cooldown: i64,
    pub player_max_health: i64,

    /// Extra points per captured agent for each follower in the batch,
    /// per-mille.
    pub player_score_follower_multiplier: i64,
    /// Extra damage per follower currently held, per-mille.
    pub player_damage_follower_multiplier: i64,
}

impl SettingsResource {
    /// Ranges under which every force and velocity computation in the crate
    /// is exact and overflow-free.
    pub open spec fn wf(&self) -> bool {
        &&& 0 <= self.max_speed <= COORD_LIMIT
        &&& 0 <= self.max_force <= COORD_LIMIT
        &&& 0 <= self.avoidance_distance_dropzone <= COORD_LIMIT
        &&& 0 <= self.avoidance_force_dropzone <= COORD_LIMIT
        &&& 0 <= self.avoidance_force_bounds <= COORD_LIMIT
        &&& 0 <= self.max_force_distance <= COORD_LIMIT
        &&& 0 <= self.velocity_time_scale <= 10_000
        &&& 0 <= self.collision_distance <= COORD_LIMIT
        &&& 0 <= self.separation_distance <= COORD_LIMIT
        &&& 0 <= self.alignment_distance <= COORD_LIMIT
        &&& 0 <= self.cohesion_distance <= COORD_LIMIT
        &&& 0 <= self.separation_weight <= 1_000_000
        &&& 0 <= self.collision_weight <= 1_000_000
        &&& 0 <= self.alignment_weight <= 1_000_000
        &&& 0 <= self.cohesion_weight <= 1_000_000
        &&& 0 <= self.player_avoidance_distance <= COORD_LIMIT
        &&& 0 <= self.player_avoidance_weight <= 1_000_000
        &&& 0 <= self.player_avoidance_max_speed <= COORD_LIMIT
        &&& 0 <= self.player_avoidance_max_force <= COORD_LIMIT
        &&& 0 <= self.seek_weight <= 1_000_000
        &&& 0 <= self.seek_max_speed <= COORD_LIMIT
        &&& 0 <= self.seek_max_force <= COORD_LIMIT
        &&& 0 <= self.controller_turn_speed <= 1_000_000
        &&& 0 <= self.controller_acceleration <= COORD_LIMIT
        &&& 0 <= self.controller_dampening <= COORD_LIMIT
        &&& 0 <= self.controller_max_speed <= COORD_LIMIT
        &&& 0 <= self.max_hover_distance <= COORD_LIMIT
        &&& 0 <= self.capture_time <= 86_400_000
        &&& 0 <= self.projectile_speed <= COORD_LIMIT
        &&& 0 <= self.projectile_despawn_distance <= COORD_LIMIT
        &&& 0 <= self.projectile_cooldown <= 86_400_000
        &&& 0 <= self.player_damage_amount <= 1_000_000
        &&& 0 <= self.player_damage_cooldown <= 86_400_000
        &&& 1 <= self.player_max_health <= 1_000_000_000
        &&& 0 <= self.player_score_follower_multiplier <= 1_000_000
        &&& 0 <= self.player_damage_follower_multiplier <= 1_000_000
    }
}

impl Default for SettingsResource {
    /// The documented defaults, in this crate's fixed-point units.
    fn default() -> (r: Self)
        ensures
            r.wf(),
            r.max_speed == 290,
            r.max_force == 50,
            r.max_icons == 0,
            r.avoidance_distance_dropzone == 87_000,
            r.avoidance_force_dropzone == 85_000,
            r.avoidance_force_bounds == 100,
            r.velocity_time_scale == 300,
            r.max_force_distance == 128_000,
            r.collision_distance == 77_000,
            r.separation_distance == 143_000,
            r.alignment_distance == 94_000,
            r.cohesion_distance == 102_000,
            r.separation_weight == 4_200,
            r.collision_weight == 3_100,
            r.alignment_weight == 2_950,
            r.cohesion_weight == 300,
            r.player_avoidance_distance == 128_000,
            r.player_avoidance_weight == 5_100,
            r.player_avoidance_max_speed == 1_200,
            r.player_avoidance_max_force == 100,
            r.seek_weight == 7_000,
            r.seek_max_speed == 780,
            r.seek_max_force == 80,
            r.controller_turn_speed == 3_850,
            r.controller_acceleration == 35_000,
            r.controller_dampening == 210_000,
            r.controller_max_speed == 100_000,
            r.max_hover_distance == 880_000,
            r.capture_time == 100,
            r.projectile_speed == 800_000,
            r.projectile_despawn_distance == 1_024_000,
            r.projectile_cooldown == 300,
            r.player_damage_amount == 10,
            r.player_damage_cooldown == 500,
            r.player_max_health == 100,
            r.player_score_follower_multiplier == 100,
            r.player_damage_follower_multiplier == 500,
    {
        SettingsResource {
            max_speed: 290,
            max_force: 50,

            max_icons: 0,

            avoidance_distance_dropzone: 87_000,
            avoidance_force_dropzone: 85_000,
            avoidance_force_bounds: 100,

            velocity_time_scale: 300,

            max_force_distance: 128_000,
            collision_distance: 77_000,
            separation_distance: 143_000,
            alignment_distance: 94_000,
            cohesion_distance: 102_000,

            separation_weight: 4_200,
            collision_weight: 3_100,
            alignment_weight: 2_950,
            cohesion_weight: 300,

            player_avoidance_distance: 128_000,
            player_avoidance_weight: 5_100,
            player_avoidance_max_speed: 1_200,
            player_avoidance_max_force: 100,

            seek_weight: 7_000,
            seek_max_speed: 780,
            seek_max_force: 80,

            controller_turn_speed: 3_850,
            controller_acceleration: 35_000,
            controller_dampening: 210_000,
            controller_max_speed: 100_000,

            max_hover_distance: 880_000,

            capture_time: 100,

            projectile_speed: 800_000,
            projectile_despawn_distance: 1_024_000,
            projectile_cooldown: 300,

            player_damage_amount: 10,
            player_damage_cooldown: 500,

            player_max_health: 100,
            player_score_follower_multiplier: 100,
            player_damage_follower_multiplier: 500,
        }
    }
}

} // verus!
