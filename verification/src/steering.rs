//! Boids steering forces: separation, alignment, cohesion, seek, and
//! boundary / dropzone avoidance.
//!
//! Every force is a pure function of an agent's own state and a list of
//! spatial query hits, and is specified exactly by a fold over that list.
//! Per the numeric edge-case policy, normalizing a zero-length vector yields
//! the zero vector, and a neighbor at distance zero contributes nothing to
//! separation, so every force is a well-defined, bounded vector — the
//! fixed-point analogue of "never NaN or infinite".

use vstd::prelude::*;

verus! {

use crate::COORD_LIMIT;
use crate::components::Type;
use crate::math::{div_trunc_i128, div_trunc_i64, lemma_sqrt_floor_exists, sqrt_ceil, tdiv};
use crate::settings::{SettingsResource, WEIGHT_SCALE};
use crate::spatial::SpatialQueryResult;
use crate::vec2::{
    len_sq, lemma_mul_abs_bound, lemma_norm_component_bound, lemma_norm_len_bound,
    lemma_square_range, lemma_tdiv_mag, vadd, vdiv, vlimit, vneg, vnorm_to, vscale, vsub, wide,
    Vec2I,
};
use vstd::math::abs;

/// Scale of the unit vectors that separation accumulates: a normalized
/// direction has length (up to) this many fixed-point steps.
pub const FORCE_SCALE: i64 = 1_048_576;

/// What the steering functions assume of a query hit list: positions and
/// velocities in range, distances nonnegative — exactly what
/// `SpatialIndex::query` returns.
pub open spec fn hits_wf(hits: Seq<SpatialQueryResult>) -> bool {
    forall|i: int|
        0 <= i < hits.len() ==> {
            let h = #[trigger] hits[i];
            h.position.valid() && h.velocity.valid() && 0 <= h.distance
        }
}

/// Separation contribution of one neighbor: its direction away from the
/// neighbor, normalized to `FORCE_SCALE`, weighted down by the distance. A
/// coincident neighbor (distance zero) contributes the zero vector.
pub open spec fn sep_contrib(pos: (int, int), h: SpatialQueryResult) -> (int, int) {
    if h.distance <= 0 {
        (0, 0)
    } else {
        vdiv(vnorm_to(vsub(pos, h.position@), FORCE_SCALE as int), h.distance as int)
    }
}

/// Sum of the separation contributions of all hits other than `key`.
pub open spec fn sep_sum(hits: Seq<SpatialQueryResult>, key: u64, pos: (int, int)) -> (int, int)
    decreases hits.len(),
{
    if hits.len() == 0 {
        (0, 0)
    } else {
        let rest = sep_sum(hits.drop_last(), key, pos);
        if hits.last().key == key {
            rest
        } else {
            vadd(rest, sep_contrib(pos, hits.last()))
        }
    }
}

/// How many hits are not `key` itself.
pub open spec fn others_count(hits: Seq<SpatialQueryResult>, key: u64) -> int
    decreases hits.len(),
{
    if hits.len() == 0 {
        0
    } else {
        others_count(hits.drop_last(), key) + if hits.last().key == key {
            0int
        } else {
            1int
        }
    }
}

/// Sum of the velocities of all hits other than `key`.
pub open spec fn vel_sum(hits: Seq<SpatialQueryResult>, key: u64) -> (int, int)
    decreases hits.len(),
{
    if hits.len() == 0 {
        (0, 0)
    } else {
        let rest = vel_sum(hits.drop_last(), key);
        if hits.last().key == key {
            rest
        } else {
            vadd(rest, hits.last().velocity@)
        }
    }
}

/// Sum of the positions of all hits, the query origin included.
pub open spec fn pos_sum(hits: Seq<SpatialQueryResult>) -> (int, int)
    decreases hits.len(),
{
    if hits.len() == 0 {
        (0, 0)
    } else {
        vadd(pos_sum(hits.drop_last()), hits.last().position@)
    }
}

/// Steer away from nearby agents, repelling harder from closer ones:
/// average the per-neighbor contributions, rescale to `max_speed`, subtract
/// the current velocity, clamp to `max_force`.
pub open spec fn separation_force_spec(
    hits: Seq<SpatialQueryResult>,
    key: u64,
    pos: (int, int),
    vel: (int, int),
    max_speed: int,
    max_force: int,
) -> (int, int) {
    let n = others_count(hits, key);
    let s = sep_sum(hits, key, pos);
    let avg = if n > 0 {
        vdiv(s, n)
    } else {
        s
    };
    if avg == (0int, 0int) {
        (0, 0)
    } else {
        vlimit(vsub(vnorm_to(avg, max_speed), vel), max_force)
    }
}

/// Steer along the average velocity of nearby agents.
pub open spec fn alignment_force_spec(
    hits: Seq<SpatialQueryResult>,
    key: u64,
    vel: (int, int),
    max_speed: int,
    max_force: int,
) -> (int, int) {
    let n = others_count(hits, key);
    if n > 0 {
        vlimit(vsub(vnorm_to(vdiv(vel_sum(hits, key), n), max_speed), vel), max_force)
    } else {
        (0, 0)
    }
}

/// Steer toward a target: desired velocity at full speed toward it, minus
/// the current velocity, clamped. A target equal to the position gives the
/// zero force (undefined direction).
pub open spec fn seek_force_spec(
    pos: (int, int),
    vel: (int, int),
    target: (int, int),
    max_speed: int,
    max_force: int,
) -> (int, int) {
    let desired = vsub(target, pos);
    if desired == (0int, 0int) {
        (0, 0)
    } else {
        vlimit(vsub(vnorm_to(desired, max_speed), vel), max_force)
    }
}

/// Steer toward the average position of nearby agents (the query origin
/// included), by seeking the centroid when it is nonzero.
pub open spec fn cohesion_force_spec(
    hits: Seq<SpatialQueryResult>,
    pos: (int, int),
    vel: (int, int),
    max_speed: int,
    max_force: int,
) -> (int, int) {
    if hits.len() > 0 {
        let avg = vdiv(pos_sum(hits), hits.len() as int);
        if avg == (0int, 0int) {
            (0, 0)
        } else {
            seek_force_spec(pos, vel, avg, max_speed, max_force)
        }
    } else {
        (0, 0)
    }
}

/// `v` clamped into `[lo, hi]`.
pub open spec fn clamp1(v: int, lo: int, hi: int) -> int {
    if v < lo {
        lo
    } else if v > hi {
        hi
    } else {
        v
    }
}

/// The smaller of two integers.
pub open spec fn imin(a: int, b: int) -> int {
    if a <= b {
        a
    } else {
        b
    }
}

/// Nearest point on a rectangle's perimeter: clamp the point into the
/// rectangle, then project it onto the closest of the four edges (top edge
/// wins ties, then bottom, then left).
pub open spec fn nearest_perimeter_spec(p: (int, int), bmin: (int, int), bmax: (int, int)) -> (
    int,
    int,
) {
    let cx = clamp1(p.0, bmin.0, bmax.0);
    let cy = clamp1(p.1, bmin.1, bmax.1);
    let dl = abs(cx - bmin.0) as int;
    let dr = abs(cx - bmax.0) as int;
    let dt = abs(cy - bmin.1) as int;
    let db = abs(cy - bmax.1) as int;
    let m = imin(dl, imin(dr, imin(dt, db)));
    if m == dt {
        (cx, bmin.1)
    } else if m == db {
        (cx, bmax.1)
    } else if m == dl {
        (bmin.0, cy)
    } else {
        (bmax.0, cy)
    }
}

/// The dropzone force field: when the position is closer to the dropzone
/// perimeter than the threshold, a force of magnitude `max_force` pointing
/// directly away from the nearest perimeter point; otherwise nothing.
pub open spec fn avoidance_force_spec(
    pos: (int, int),
    bmin: (int, int),
    bmax: (int, int),
    max_force: int,
    threshold: int,
) -> Option<(int, int)> {
    let closest = nearest_perimeter_spec(pos, bmin, bmax);
    let d = vsub(closest, pos);
    if len_sq(d) < threshold * threshold {
        Some(vneg(vnorm_to(d, max_force)))
    } else {
        None
    }
}

/// A force scaled by a per-mille weight.
pub open spec fn weighted(f: (int, int), w: int) -> (int, int) {
    vdiv(vscale(f, w), WEIGHT_SCALE as int)
}

/// The clamped result lies within the box `[-l, l]` on each axis and within
/// length `l`.
pub proof fn lemma_limit_bounds(a: (int, int), l: int)
    requires
        l >= 0,
    ensures
        -l <= vlimit(a, l).0 <= l,
        -l <= vlimit(a, l).1 <= l,
        len_sq(vlimit(a, l)) <= l * l,
{
    assert(len_sq(a) >= 0) by (nonlinear_arith);
    if len_sq(a) > l * l {
        lemma_sqrt_floor_exists(len_sq(a));
        if sqrt_ceil(len_sq(a)) == 0 {
            assert(len_sq(a) == 0) by (nonlinear_arith)
                requires
                    len_sq(a) >= 0,
                    sqrt_ceil(len_sq(a)) == 0,
                    crate::math::is_sqrt_floor(len_sq(a), crate::math::sqrt_floor(len_sq(a))),
            ;
        } else {
            lemma_norm_component_bound(a.0, a, l);
            lemma_norm_component_bound(a.1, a, l);
            lemma_norm_len_bound(a, l);
        }
    } else {
        assert(a.0 * a.0 <= len_sq(a) && a.1 * a.1 <= len_sq(a)) by (nonlinear_arith);
        assert(-l <= a.0 <= l && -l <= a.1 <= l) by (nonlinear_arith)
            requires
                a.0 * a.0 <= l * l,
                a.1 * a.1 <= l * l,
                l >= 0,
        ;
    }
}

/// One separation contribution never exceeds `FORCE_SCALE` per axis — in
/// particular, a coincident neighbor (distance zero) contributes exactly the
/// zero vector.
pub proof fn lemma_sep_contrib_bounds(pos: (int, int), h: SpatialQueryResult)
    ensures
        -FORCE_SCALE <= sep_contrib(pos, h).0 <= FORCE_SCALE,
        -FORCE_SCALE <= sep_contrib(pos, h).1 <= FORCE_SCALE,
        h.distance == 0 ==> sep_contrib(pos, h) == (0int, 0int),
{
    if h.distance > 0 {
        let a = vsub(pos, h.position@);
        let u = vnorm_to(a, FORCE_SCALE as int);
        assert(len_sq(a) >= 0) by (nonlinear_arith);
        lemma_sqrt_floor_exists(len_sq(a));
        if sqrt_ceil(len_sq(a)) == 0 {
            vstd::arithmetic::div_mod::lemma_div_of0(h.distance as int);
        } else {
            lemma_norm_component_bound(a.0, a, FORCE_SCALE as int);
            lemma_norm_component_bound(a.1, a, FORCE_SCALE as int);
            lemma_tdiv_mag(u.0, h.distance as int);
            lemma_tdiv_mag(u.1, h.distance as int);
        }
    }
}

/// Every force stays within the `max_force` clamp, whatever the hits — the
/// separation of two coincident agents included.
pub proof fn lemma_separation_force_bounded(
    hits: Seq<SpatialQueryResult>,
    key: u64,
    pos: (int, int),
    vel: (int, int),
    max_speed: int,
    max_force: int,
)
    requires
        max_force >= 0,
    ensures
        len_sq(separation_force_spec(hits, key, pos, vel, max_speed, max_force)) <= max_force
            * max_force,
        -max_force <= separation_force_spec(hits, key, pos, vel, max_speed, max_force).0
            <= max_force,
        -max_force <= separation_force_spec(hits, key, pos, vel, max_speed, max_force).1
            <= max_force,
{
    let n = others_count(hits, key);
    let s = sep_sum(hits, key, pos);
    let avg = if n > 0 {
        vdiv(s, n)
    } else {
        s
    };
    if avg == (0int, 0int) {
        assert(len_sq((0int, 0int)) == 0);
        assert(0 <= max_force * max_force) by (nonlinear_arith);
    } else {
        lemma_limit_bounds(vsub(vnorm_to(avg, max_speed), vel), max_force);
    }
}

/// A bounded partial sum stays far inside the wide accumulator range after
/// one more bounded step.
proof fn lemma_sum_step_bound(s: int, per: int, n: int)
    requires
        0 <= per <= 0x2000_0000,
        0 <= n <= 0xffff_ffff_ffff_ffff,
        -per * n <= s <= per * n,
    ensures
        -0x2000_0000_0000_0000_0000_0000_0000 <= s <= 0x2000_0000_0000_0000_0000_0000_0000,
        -per * (n + 1) <= s - per,
        s + per <= per * (n + 1),
{
    assert(-0x2000_0000_0000_0000_0000_0000_0000 <= s <= 0x2000_0000_0000_0000_0000_0000_0000
        && -per * (n + 1) <= s - per && s + per <= per * (n + 1)) by (nonlinear_arith)
        requires
            0 <= per <= 0x2000_0000,
            0 <= n <= 0xffff_ffff_ffff_ffff,
            -per * n <= s <= per * n,
    ;
}

/// Clamp a vector to a maximum length; shorter vectors pass unchanged.
pub fn limit_vec2(vector: Vec2I, max_length: i64) -> (r: Vec2I)
    requires
        wide(vector@),
        0 <= max_length <= COORD_LIMIT,
    ensures
        r@ == vlimit(vector@, max_length as int),
        -max_length <= r.x <= max_length,
        -max_length <= r.y <= max_length,
        len_sq(r@) <= max_length * max_length,
{
    let d2: i128 = vector.len_sq_wide();
    proof {
        lemma_square_range(max_length as int, COORD_LIMIT as int);
    }
    let ll: i128 = (max_length as i128) * (max_length as i128);
    if d2 > ll {
        vector.norm_to(max_length)
    } else {
        proof {
            lemma_limit_bounds(vector@, max_length as int);
        }
        vector
    }
}

/// Separation: steer away from nearby agents, repulsion scaled inversely by
/// distance.
pub fn get_separation_force(
    entity: u64,
    position: Vec2I,
    velocity: Vec2I,
    hits: &Vec<SpatialQueryResult>,
    max_speed: i64,
    max_force: i64,
) -> (r: Vec2I)
    requires
        position.valid(),
        velocity.valid(),
        0 <= max_speed <= COORD_LIMIT,
        0 <= max_force <= COORD_LIMIT,
        hits_wf(hits@),
    ensures
        r@ == separation_force_spec(
            hits@,
            entity,
            position@,
            velocity@,
            max_speed as int,
            max_force as int,
        ),
        -max_force <= r.x <= max_force,
        -max_force <= r.y <= max_force,
        len_sq(r@) <= max_force * max_force,
{
    let mut sx: i128 = 0;
    let mut sy: i128 = 0;
    let mut count: usize = 0;
    let mut i: usize = 0;
    while i < hits.len()
        invariant
            hits_wf(hits@),
            position.valid(),
            i <= hits@.len(),
            count <= i,
            (sx as int, sy as int) == sep_sum(hits@.subrange(0, i as int), entity, position@),
            count as int == others_count(hits@.subrange(0, i as int), entity),
            -(FORCE_SCALE as int) * count <= sx <= (FORCE_SCALE as int) * count,
            -(FORCE_SCALE as int) * count <= sy <= (FORCE_SCALE as int) * count,
        decreases hits@.len() - i,
    {
        let h: SpatialQueryResult = hits[i];
        proof {
            assert(hits@.subrange(0, i as int + 1).drop_last() =~= hits@.subrange(0, i as int));
            assert(hits@.subrange(0, i as int + 1).last() == h);
            lemma_sep_contrib_bounds(position@, h);
        }
        if h.key != entity {
            proof {
                lemma_sum_step_bound(sx as int, FORCE_SCALE as int, count as int);
                lemma_sum_step_bound(sy as int, FORCE_SCALE as int, count as int);
            }
            if h.distance > 0 {
                let diff: Vec2I = position.sub(h.position);
                let unit: Vec2I = diff.norm_to(FORCE_SCALE);
                let cx: i64 = div_trunc_i64(unit.x, h.distance);
                let cy: i64 = div_trunc_i64(unit.y, h.distance);
                sx = sx + cx as i128;
                sy = sy + cy as i128;
            }
            count = count + 1;
        }
        i = i + 1;
    }
    proof {
        assert(hits@.subrange(0, hits@.len() as int) =~= hits@);
    }
    let avg: Vec2I;
    if count > 0 {
        let ax: i128 = div_trunc_i128(sx, count as i128);
        let ay: i128 = div_trunc_i128(sy, count as i128);
        proof {
            lemma_tdiv_mag(sx as int, count as int);
            lemma_tdiv_mag(sy as int, count as int);
            assert(abs(tdiv(sx as int, count as int)) <= FORCE_SCALE as int) by (nonlinear_arith)
                requires
                    abs(tdiv(sx as int, count as int)) * (count as int) <= abs(sx as int),
                    -(FORCE_SCALE as int) * (count as int) <= sx as int <= (FORCE_SCALE as int) * (
                    count as int),
                    count as int > 0,
            ;
            assert(abs(tdiv(sy as int, count as int)) <= FORCE_SCALE as int) by (nonlinear_arith)
                requires
                    abs(tdiv(sy as int, count as int)) * (count as int) <= abs(sy as int),
                    -(FORCE_SCALE as int) * (count as int) <= sy as int <= (FORCE_SCALE as int) * (
                    count as int),
                    count as int > 0,
            ;
        }
        avg = Vec2I { x: ax as i64, y: ay as i64 };
    } else {
        avg = Vec2I { x: 0, y: 0 };
    }
    if avg.x == 0 && avg.y == 0 {
        proof {
            lemma_square_range(0, max_force as int);
        }
        Vec2I { x: 0, y: 0 }
    } else {
        let steer: Vec2I = avg.norm_to(max_speed).sub(velocity);
        limit_vec2(steer, max_force)
    }
}

/// Alignment: steer along the average velocity of nearby agents.
pub fn get_alignment_force(
    entity: u64,
    velocity: Vec2I,
    hits: &Vec<SpatialQueryResult>,
    max_speed: i64,
    max_force: i64,
) -> (r: Vec2I)
    requires
        velocity.valid(),
        0 <= max_speed <= COORD_LIMIT,
        0 <= max_force <= COORD_LIMIT,
        hits_wf(hits@),
    ensures
        r@ == alignment_force_spec(hits@, entity, velocity@, max_speed as int, max_force as int),
        -max_force <= r.x <= max_force,
        -max_force <= r.y <= max_force,
        len_sq(r@) <= max_force * max_force,
{
    let mut sx: i128 = 0;
    let mut sy: i128 = 0;
    let mut count: usize = 0;
    let mut i: usize = 0;
    while i < hits.len()
        invariant
            hits_wf(hits@),
            i <= hits@.len(),
            count <= i,
            (sx as int, sy as int) == vel_sum(hits@.subrange(0, i as int), entity),
            count as int == others_count(hits@.subrange(0, i as int), entity),
            -(COORD_LIMIT as int) * count <= sx <= (COORD_LIMIT as int) * count,
            -(COORD_LIMIT as int) * count <= sy <= (COORD_LIMIT as int) * count,
        decreases hits@.len() - i,
    {
        let h: SpatialQueryResult = hits[i];
        proof {
            assert(hits@.subrange(0, i as int + 1).drop_last() =~= hits@.subrange(0, i as int));
            assert(hits@.subrange(0, i as int + 1).last() == h);
        }
        if h.key != entity {
            proof {
                lemma_sum_step_bound(sx as int, COORD_LIMIT as int, count as int);
                lemma_sum_step_bound(sy as int, COORD_LIMIT as int, count as int);
            }
            sx = sx + h.velocity.x as i128;
            sy = sy + h.velocity.y as i128;
            count = count + 1;
        }
        i = i + 1;
    }
    proof {
        assert(hits@.subrange(0, hits@.len() as int) =~= hits@);
        lemma_square_range(0, max_force as int);
    }
    if count > 0 {
        let ax: i128 = div_trunc_i128(sx, count as i128);
        let ay: i128 = div_trunc_i128(sy, count as i128);
        proof {
            lemma_tdiv_mag(sx as int, count as int);
            lemma_tdiv_mag(sy as int, count as int);
            assert(abs(tdiv(sx as int, count as int)) <= COORD_LIMIT as int) by (nonlinear_arith)
                requires
                    abs(tdiv(sx as int, count as int)) * (count as int) <= abs(sx as int),
                    -(COORD_LIMIT as int) * (count as int) <= sx as int <= (COORD_LIMIT as int) * (
                    count as int),
                    count as int > 0,
            ;
            assert(abs(tdiv(sy as int, count as int)) <= COORD_LIMIT as int) by (nonlinear_arith)
                requires
                    abs(tdiv(sy as int, count as int)) * (count as int) <= abs(sy as int),
                    -(COORD_LIMIT as int) * (count as int) <= sy as int <= (COORD_LIMIT as int) * (
                    count as int),
                    count as int > 0,
            ;
        }
        let avg = Vec2I { x: ax as i64, y: ay as i64 };
        let steer: Vec2I = avg.norm_to(max_speed).sub(velocity);
        limit_vec2(steer, max_force)
    } else {
        Vec2I { x: 0, y: 0 }
    }
}

/// Seek: steer toward a target position at full speed.
pub fn get_seek_force(
    position: Vec2I,
    velocity: Vec2I,
    target: Vec2I,
    max_speed: i64,
    max_force: i64,
) -> (r: Vec2I)
    requires
        position.valid(),
        velocity.valid(),
        target.valid(),
        0 <= max_speed <= COORD_LIMIT,
        0 <= max_force <= COORD_LIMIT,
    ensures
        r@ == seek_force_spec(
            position@,
            velocity@,
            target@,
            max_speed as int,
            max_force as int,
        ),
        -max_force <= r.x <= max_force,
        -max_force <= r.y <= max_force,
        len_sq(r@) <= max_force * max_force,
{
    let desired: Vec2I = target.sub(position);
    if desired.x == 0 && desired.y == 0 {
        proof {
            lemma_square_range(0, max_force as int);
        }
        Vec2I { x: 0, y: 0 }
    } else {
        let steer: Vec2I = desired.norm_to(max_speed).sub(velocity);
        limit_vec2(steer, max_force)
    }
}

/// Cohesion: steer toward the average position of nearby agents.
pub fn get_cohesion_force(
    position: Vec2I,
    velocity: Vec2I,
    hits: &Vec<SpatialQueryResult>,
    max_speed: i64,
    max_force: i64,
) -> (r: Vec2I)
    requires
        position.valid(),
        velocity.valid(),
        0 <= max_speed <= COORD_LIMIT,
        0 <= max_force <= COORD_LIMIT,
        hits_wf(hits@),
    ensures
        r@ == cohesion_force_spec(
            hits@,
            position@,
            velocity@,
            max_speed as int,
            max_force as int,
        ),
        -max_force <= r.x <= max_force,
        -max_force <= r.y <= max_force,
        len_sq(r@) <= max_force * max_force,
{
    let mut sx: i128 = 0;
    let mut sy: i128 = 0;
    let mut i: usize = 0;
    while i < hits.len()
        invariant
            hits_wf(hits@),
            i <= hits@.len(),
            (sx as int, sy as int) == pos_sum(hits@.subrange(0, i as int)),
            -(COORD_LIMIT as int) * (i as int) <= sx <= (COORD_LIMIT as int) * (i as int),
            -(COORD_LIMIT as int) * (i as int) <= sy <= (COORD_LIMIT as int) * (i as int),
        decreases hits@.len() - i,
    {
        let h: SpatialQueryResult = hits[i];
        proof {
            assert(hits@.subrange(0, i as int + 1).drop_last() =~= hits@.subrange(0, i as int));
            assert(hits@.subrange(0, i as int + 1).last() == h);
        }
        proof {
            lemma_sum_step_bound(sx as int, COORD_LIMIT as int, i as int);
            lemma_sum_step_bound(sy as int, COORD_LIMIT as int, i as int);
        }
        sx = sx + h.position.x as i128;
        sy = sy + h.position.y as i128;
        i = i + 1;
    }
    proof {
        assert(hits@.subrange(0, hits@.len() as int) =~= hits@);
        lemma_square_range(0, max_force as int);
    }
    let n: usize = hits.len();
    if n > 0 {
        let ax: i128 = div_trunc_i128(sx, n as i128);
        let ay: i128 = div_trunc_i128(sy, n as i128);
        proof {
            lemma_tdiv_mag(sx as int, n as int);
            lemma_tdiv_mag(sy as int, n as int);
            assert(abs(tdiv(sx as int, n as int)) <= COORD_LIMIT as int) by (nonlinear_arith)
                requires
                    abs(tdiv(sx as int, n as int)) * (n as int) <= abs(sx as int),
                    -(COORD_LIMIT as int) * (n as int) <= sx as int <= (COORD_LIMIT as int) * (
                    n as int),
                    n as int > 0,
            ;
            assert(abs(tdiv(sy as int, n as int)) <= COORD_LIMIT as int) by (nonlinear_arith)
                requires
                    abs(tdiv(sy as int, n as int)) * (n as int) <= abs(sy as int),
                    -(COORD_LIMIT as int) * (n as int) <= sy as int <= (COORD_LIMIT as int) * (
                    n as int),
                    n as int > 0,
            ;
        }
        let avg = Vec2I { x: ax as i64, y: ay as i64 };
        if avg.x == 0 && avg.y == 0 {
            Vec2I { x: 0, y: 0 }
        } else {
            get_seek_force(position, velocity, avg, max_speed, max_force)
        }
    } else {
        Vec2I { x: 0, y: 0 }
    }
}

/// Nearest point on the rectangle's perimeter to a point.
pub fn get_nearest_point_in_perimeter(point: Vec2I, boundary_min: Vec2I, boundary_max: Vec2I) -> (r:
    Vec2I)
    requires
        point.valid(),
        boundary_min.valid(),
        boundary_max.valid(),
        boundary_min.x <= boundary_max.x,
        boundary_min.y <= boundary_max.y,
    ensures
        r@ == nearest_perimeter_spec(point@, boundary_min@, boundary_max@),
        r.valid(),
{
    let cx: i64 = if point.x < boundary_min.x {
        boundary_min.x
    } else if point.x > boundary_max.x {
        boundary_max.x
    } else {
        point.x
    };
    let cy: i64 = if point.y < boundary_min.y {
        boundary_min.y
    } else if point.y > boundary_max.y {
        boundary_max.y
    } else {
        point.y
    };
    let dl: i64 = if cx - boundary_min.x >= 0 {
        cx - boundary_min.x
    } else {
        boundary_min.x - cx
    };
    let dr: i64 = if cx - boundary_max.x >= 0 {
        cx - boundary_max.x
    } else {
        boundary_max.x - cx
    };
    let dt: i64 = if cy - boundary_min.y >= 0 {
        cy - boundary_min.y
    } else {
        boundary_min.y - cy
    };
    let db: i64 = if cy - boundary_max.y >= 0 {
        cy - boundary_max.y
    } else {
        boundary_max.y - cy
    };
    let m1: i64 = if dt <= db {
        dt
    } else {
        db
    };
    let m2: i64 = if dr <= m1 {
        dr
    } else {
        m1
    };
    let m: i64 = if dl <= m2 {
        dl
    } else {
        m2
    };
    if m == dt {
        Vec2I { x: cx, y: boundary_min.y }
    } else if m == db {
        Vec2I { x: cx, y: boundary_max.y }
    } else if m == dl {
        Vec2I { x: boundary_min.x, y: cy }
    } else {
        Vec2I { x: boundary_max.x, y: cy }
    }
}

/// Avoidance force away from a rectangle's perimeter when closer to it than
/// the threshold.
pub fn calculate_avoidance_force(
    position: Vec2I,
    boundary_min: Vec2I,
    boundary_max: Vec2I,
    max_force: i64,
    some_threshold_distance: i64,
) -> (r: Option<Vec2I>)
    requires
        position.valid(),
        boundary_min.valid(),
        boundary_max.valid(),
        boundary_min.x <= boundary_max.x,
        boundary_min.y <= boundary_max.y,
        0 <= max_force <= COORD_LIMIT,
        0 <= some_threshold_distance <= COORD_LIMIT,
    ensures
        r matches Some(f) ==> (Some(f@) == avoidance_force_spec(
            position@,
            boundary_min@,
            boundary_max@,
            max_force as int,
            some_threshold_distance as int,
        ) && -max_force <= f.x <= max_force && -max_force <= f.y <= max_force),
        r is None ==> avoidance_force_spec(
            position@,
            boundary_min@,
            boundary_max@,
            max_force as int,
            some_threshold_distance as int,
        ) is None,
{
    let closest: Vec2I = get_nearest_point_in_perimeter(position, boundary_min, boundary_max);
    let d: Vec2I = closest.sub(position);
    let d2: i128 = d.len_sq_wide();
    proof {
        lemma_square_range(some_threshold_distance as int, COORD_LIMIT as int);
    }
    let tt: i128 = (some_threshold_distance as i128) * (some_threshold_distance as i128);
    if d2 < tt {
        Some(d.norm_to(max_force).neg())
    } else {
        None
    }
}

/// The per-tick velocity of one agent, composed from the weighted steering
/// forces, boundary pushes, the dropzone avoidance override, and the final
/// force and speed clamps. `Captured` agents are frozen at zero velocity.
pub open spec fn icon_velocity_spec(
    key: u64,
    pos: (int, int),
    vel: (int, int),
    ty: Type,
    col_hits: Seq<SpatialQueryResult>,
    ali_hits: Seq<SpatialQueryResult>,
    coh_hits: Seq<SpatialQueryResult>,
    target: (int, int),
    s: SettingsResource,
    bounds_min: (int, int),
    bounds_max: (int, int),
    dropzone_min: (int, int),
    dropzone_max: (int, int),
) -> (int, int) {
    if ty is Captured {
        (0, 0)
    } else {
        let max_speed: int = if ty is Follower {
            s.seek_max_speed as int
        } else {
            s.max_speed as int
        };
        let max_force: int = if ty is Follower {
            s.seek_max_force as int
        } else {
            s.max_force as int
        };
        let collision = separation_force_spec(col_hits, key, pos, vel, max_speed, max_force);
        let separation = separation_force_spec(col_hits, key, pos, vel, max_speed, max_force);
        let alignment = alignment_force_spec(ali_hits, key, vel, max_speed, max_force);
        let cohesion = cohesion_force_spec(coh_hits, pos, vel, max_speed, max_force);
        let acc0 = vadd(
            vadd(
                vadd(
                    weighted(separation, s.separation_weight as int),
                    weighted(alignment, s.alignment_weight as int),
                ),
                weighted(cohesion, s.cohesion_weight as int),
            ),
            weighted(collision, s.collision_weight as int),
        );
        let acc1 = if ty is Follower {
            vadd(
                acc0,
                weighted(
                    seek_force_spec(pos, vel, target, max_speed, max_force),
                    s.seek_weight as int,
                ),
            )
        } else {
            acc0
        };
        let ax: int = if pos.0 < bounds_min.0 {
            s.max_force as int
        } else if pos.0 > bounds_max.0 {
            -(s.max_force as int)
        } else {
            acc1.0
        };
        let ay: int = if pos.1 < bounds_min.1 {
            s.max_force as int
        } else if pos.1 > bounds_max.1 {
            -(s.max_force as int)
        } else {
            acc1.1
        };
        let acc2 = match avoidance_force_spec(
            pos,
            dropzone_min,
            dropzone_max,
            s.avoidance_force_dropzone as int,
            s.avoidance_distance_dropzone as int,
        ) {
            Some(f) => f,
            None => (ax, ay),
        };
        let acc3 = vlimit(acc2, max_force);
        vlimit(vadd(vel, acc3), max_speed)
    }
}

/// Computes the new velocity of one agent from its neighbors (`col_hits`
/// within collision distance, used by both the collision and separation
/// terms; `ali_hits` within alignment distance; `coh_hits` within cohesion
/// distance) and the follower seek target.
pub fn get_icon_velocity(
    entity: u64,
    position: Vec2I,
    velocity: Vec2I,
    icon_type: Type,
    col_hits: &Vec<SpatialQueryResult>,
    ali_hits: &Vec<SpatialQueryResult>,
    coh_hits: &Vec<SpatialQueryResult>,
    target_position: Vec2I,
    settings: &SettingsResource,
    boundaries: &crate::world::WorldBoundaryResource,
) -> (r: Vec2I)
    requires
        position.valid(),
        velocity.valid(),
        target_position.valid(),
        settings.wf(),
        boundaries.wf(),
        hits_wf(col_hits@),
        hits_wf(ali_hits@),
        hits_wf(coh_hits@),
    ensures
        r@ == icon_velocity_spec(
            entity,
            position@,
            velocity@,
            icon_type,
            col_hits@,
            ali_hits@,
            coh_hits@,
            target_position@,
            *settings,
            boundaries.bounds_min@,
            boundaries.bounds_max@,
            boundaries.dropzone_min@,
            boundaries.dropzone_max@,
        ),
        r.valid(),
{
    if let Type::Captured = icon_type {
        return Vec2I { x: 0, y: 0 };
    }
    let is_follower = if let Type::Follower = icon_type {
        true
    } else {
        false
    };
    let max_speed: i64 = if is_follower {
        settings.seek_max_speed
    } else {
        settings.max_speed
    };
    let max_force: i64 = if is_follower {
        settings.seek_max_force
    } else {
        settings.max_force
    };
    let collision_force: Vec2I = get_separation_force(
        entity,
        position,
        velocity,
        col_hits,
        max_speed,
        max_force,
    );
    let separation_force: Vec2I = get_separation_force(
        entity,
        position,
        velocity,
        col_hits,
        max_speed,
        max_force,
    );
    let alignment_force: Vec2I = get_alignment_force(
        entity,
        velocity,
        ali_hits,
        max_speed,
        max_force,
    );
    let cohesion_force: Vec2I = get_cohesion_force(
        position,
        velocity,
        coh_hits,
        max_speed,
        max_force,
    );
    let t1: Vec2I = apply_weight(separation_force, settings.separation_weight);
    let t2: Vec2I = apply_weight(alignment_force, settings.alignment_weight);
    let t3: Vec2I = apply_weight(cohesion_force, settings.cohesion_weight);
    let t4: Vec2I = apply_weight(collision_force, settings.collision_weight);
    let mut acceleration: Vec2I = t1.add(t2).add(t3).add(t4);
    if is_follower {
        let seek: Vec2I = get_seek_force(
            position,
            velocity,
            target_position,
            max_speed,
            max_force,
        );
        acceleration = acceleration.add(apply_weight(seek, settings.seek_weight));
    }
    if position.x < boundaries.bounds_min.x {
        acceleration = Vec2I { x: settings.max_force, y: acceleration.y };
    } else if position.x > boundaries.bounds_max.x {
        acceleration = Vec2I { x: -settings.max_force, y: acceleration.y };
    }
    if position.y < boundaries.bounds_min.y {
        acceleration = Vec2I { x: acceleration.x, y: settings.max_force };
    } else if position.y > boundaries.bounds_max.y {
        acceleration = Vec2I { x: acceleration.x, y: -settings.max_force };
    }
    match calculate_avoidance_force(
        position,
        boundaries.dropzone_min,
        boundaries.dropzone_max,
        settings.avoidance_force_dropzone,
        settings.avoidance_distance_dropzone,
    ) {
        Some(force) => {
            acceleration = force;
        },
        None => {},
    }
    let acceleration: Vec2I = limit_vec2(acceleration, max_force);
    limit_vec2(velocity.add(acceleration), max_speed)
}

/// One weighted force term: the force scaled by a per-mille weight.
fn apply_weight(f: Vec2I, w: i64) -> (r: Vec2I)
    requires
        -COORD_LIMIT <= f.x <= COORD_LIMIT,
        -COORD_LIMIT <= f.y <= COORD_LIMIT,
        0 <= w <= 1_000_000,
    ensures
        r@ == weighted(f@, w as int),
        -600_000_000_000 <= r.x <= 600_000_000_000,
        -600_000_000_000 <= r.y <= 600_000_000_000,
{
    proof {
        lemma_mul_abs_bound(f.x as int, w as int, COORD_LIMIT as int, 1_000_000);
        lemma_mul_abs_bound(f.y as int, w as int, COORD_LIMIT as int, 1_000_000);
        lemma_tdiv_mag(f.x as int * w as int, WEIGHT_SCALE as int);
        lemma_tdiv_mag(f.y as int * w as int, WEIGHT_SCALE as int);
    }
    let rx: i64 = div_trunc_i64(f.x * w, WEIGHT_SCALE);
    let ry: i64 = div_trunc_i64(f.y * w, WEIGHT_SCALE);
    proof {
        assert(abs(tdiv(f.x as int * w as int, 1000)) <= 600_000_000_000) by (nonlinear_arith)
            requires
                abs(tdiv(f.x as int * w as int, 1000)) * 1000 <= abs(f.x as int * w as int),
                abs(f.x as int * w as int) <= 0x2000_0000 * 1_000_000,
        ;
        assert(abs(tdiv(f.y as int * w as int, 1000)) <= 600_000_000_000) by (nonlinear_arith)
            requires
                abs(tdiv(f.y as int * w as int, 1000)) * 1000 <= abs(f.y as int * w as int),
                abs(f.y as int * w as int) <= 0x2000_0000 * 1_000_000,
        ;
    }
    Vec2I { x: rx, y: ry }
}

} // verus!
