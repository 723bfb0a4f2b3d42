//! Player movement math: heading normalization and the velocity update
//! applied to resolved key input.

use vstd::prelude::*;

verus! {

use crate::math::{div_floor_i64, div_trunc_i64, sign, tdiv};
use crate::settings::SettingsResource;
use crate::vec2::{
    lemma_mul_abs_bound, lemma_tdiv_mag, vadd, vdiv, vlimit, vneg, vnorm_to, vscale, Vec2I,
};
use crate::COORD_LIMIT;

/// A full turn, in milliradians.
pub const TWO_PI_MRAD: i64 = 6_283;

/// Normalizes a heading into `[0, 2 * pi)` milliradians.
pub fn normalize_angle(angle: i64) -> (r: i64)
    requires
        -0x1000_0000_0000 <= angle <= 0x1000_0000_0000,
    ensures
        r as int == angle as int % (TWO_PI_MRAD as int),
        0 <= r < TWO_PI_MRAD,
{
    let q: i64 = div_floor_i64(angle, TWO_PI_MRAD);
    proof {
        vstd::arithmetic::div_mod::lemma_fundamental_div_mod(angle as int, TWO_PI_MRAD as int);
        vstd::arithmetic::div_mod::lemma_mod_bound(angle as int, TWO_PI_MRAD as int);
        assert((q as int) * (TWO_PI_MRAD as int) == (TWO_PI_MRAD as int) * (q as int))
            by (nonlinear_arith);
        assert(-(6_283 * 0x1000_0000_0000) <= (q as int) * (TWO_PI_MRAD as int) <= 6_283
            * 0x1000_0000_0000) by (nonlinear_arith)
            requires
                -0x1000_0000_0000 <= q as int <= 0x1000_0000_0000,
        ;
    }
    angle - q * TWO_PI_MRAD
}

/// The player's next velocity from resolved input: the acceleration
/// direction normalized and scaled by the per-tick acceleration, added to
/// the velocity, which is clamped to the per-tick maximum speed and then
/// dampened by friction opposing the original velocity; a component whose
/// sign the friction would flip snaps the whole vector to zero.
pub open spec fn player_velocity_spec(
    vel: (int, int),
    accel_dir: (int, int),
    dt: int,
    s: SettingsResource,
) -> (int, int) {
    let accel = vnorm_to(accel_dir, tdiv(s.controller_acceleration * dt, 1000));
    let friction = vneg(vnorm_to(vel, tdiv(s.controller_dampening * dt, 1000)));
    let v1 = vadd(vel, accel);
    let v2 = vlimit(v1, tdiv(s.controller_max_speed * dt, 1000));
    let df = vdiv(vscale(friction, dt), 1000);
    let v3 = vadd(v2, df);
    if sign(v3.0) != sign(v2.0) || sign(v3.1) != sign(v2.1) {
        (0, 0)
    } else {
        v3
    }
}

/// Applies one frame of player input to the player's velocity.
pub fn update_player_velocity(
    velocity: Vec2I,
    accel_dir: Vec2I,
    dt_ms: i64,
    settings: &SettingsResource,
) -> (r: Vec2I)
    requires
        velocity.valid(),
        accel_dir.valid(),
        settings.wf(),
        0 <= dt_ms <= 10_000,
        tdiv(settings.controller_acceleration * dt_ms, 1000) <= COORD_LIMIT,
        tdiv(settings.controller_dampening * dt_ms, 1000) <= COORD_LIMIT,
        tdiv(settings.controller_max_speed * dt_ms, 1000) <= COORD_LIMIT,
    ensures
        r@ == player_velocity_spec(velocity@, accel_dir@, dt_ms as int, *settings),
        -0x2_0000_0000_0000 <= r.x <= 0x2_0000_0000_0000,
        -0x2_0000_0000_0000 <= r.y <= 0x2_0000_0000_0000,
{
    proof {
        assert(0 <= settings.controller_acceleration as int * dt_ms as int <= 0x2000_0000 * 10_000)
            by (nonlinear_arith)
            requires
                0 <= settings.controller_acceleration <= 0x2000_0000,
                0 <= dt_ms <= 10_000,
        ;
        assert(0 <= settings.controller_dampening as int * dt_ms as int <= 0x2000_0000 * 10_000)
            by (nonlinear_arith)
            requires
                0 <= settings.controller_dampening <= 0x2000_0000,
                0 <= dt_ms <= 10_000,
        ;
        assert(0 <= settings.controller_max_speed as int * dt_ms as int <= 0x2000_0000 * 10_000)
            by (nonlinear_arith)
            requires
                0 <= settings.controller_max_speed <= 0x2000_0000,
                0 <= dt_ms <= 10_000,
        ;
        vstd::arithmetic::div_mod::lemma_div_pos_is_pos(
            settings.controller_acceleration as int * dt_ms as int,
            1000,
        );
        vstd::arithmetic::div_mod::lemma_div_pos_is_pos(
            settings.controller_dampening as int * dt_ms as int,
            1000,
        );
        vstd::arithmetic::div_mod::lemma_div_pos_is_pos(
            settings.controller_max_speed as int * dt_ms as int,
            1000,
        );
    }
    let accel_mag: i64 = div_trunc_i64(settings.controller_acceleration * dt_ms, 1000);
    let frict_mag: i64 = div_trunc_i64(settings.controller_dampening * dt_ms, 1000);
    let vmax: i64 = div_trunc_i64(settings.controller_max_speed * dt_ms, 1000);
    let accel: Vec2I = accel_dir.norm_to(accel_mag);
    let friction: Vec2I = velocity.norm_to(frict_mag).neg();
    let v1: Vec2I = velocity.add(accel);
    let v2: Vec2I = crate::steering::limit_vec2(v1, vmax);
    proof {
        lemma_mul_abs_bound(friction.x as int, dt_ms as int, COORD_LIMIT as int, 10_000);
        lemma_mul_abs_bound(friction.y as int, dt_ms as int, COORD_LIMIT as int, 10_000);
        lemma_tdiv_mag(friction.x as int * dt_ms as int, 1000);
        lemma_tdiv_mag(friction.y as int * dt_ms as int, 1000);
    }
    let dfx: i64 = div_trunc_i64(friction.x * dt_ms, 1000);
    let dfy: i64 = div_trunc_i64(friction.y * dt_ms, 1000);
    let v3: Vec2I = Vec2I { x: v2.x + dfx, y: v2.y + dfy };
    let s3x: i64 = crate::math::signum_i64(v3.x);
    let s2x: i64 = crate::math::signum_i64(v2.x);
    let s3y: i64 = crate::math::signum_i64(v3.y);
    let s2y: i64 = crate::math::signum_i64(v2.y);
    if s3x != s2x || s3y != s2y {
        Vec2I { x: 0, y: 0 }
    } else {
        v3
    }
}

} // verus!
