//! Round setup and housekeeping: random non-overlapping placement of the
//! agent population, and the periodic sweep that moves stray free agents out
//! of the dropzone.

use vstd::prelude::*;

verus! {

use crate::components::{ids_distinct, Agent, IconTransform, IconType, IconVelocity, Type};
use crate::rng::rand_range_i64;
use crate::roaming::UpdateTimer;
use crate::spatial::SpatialIndex;
use crate::vec2::{dist_sq, len_sq, Vec2I};
use crate::world::WorldBoundaryResource;
use crate::{ICON_MIN_DISTANCE, SPATIAL_GRID_SIZE};

/// How many random draws a placement tries before giving up.
pub const MAX_PLACEMENT_ATTEMPTS: usize = 64;

/// Draws a random position inside the world bounds but outside the
/// dropzone. Falls back to a fixed point between the two rectangles' left
/// edges when the draws keep landing in the dropzone.
pub fn random_position_in_bounds(boundaries: &WorldBoundaryResource) -> (r: Vec2I)
    requires
        boundaries.wf(),
    ensures
        r.valid(),
        boundaries.bounds_min.x <= r.x < boundaries.bounds_max.x,
        boundaries.bounds_min.y <= r.y < boundaries.bounds_max.y,
        !boundaries.spec_in_dropzone(r),
{
    let mut attempts: usize = 0;
    while attempts < MAX_PLACEMENT_ATTEMPTS
        invariant
            boundaries.wf(),
        decreases MAX_PLACEMENT_ATTEMPTS - attempts,
    {
        let x: i64 = rand_range_i64(boundaries.bounds_min.x, boundaries.bounds_max.x);
        let y: i64 = rand_range_i64(boundaries.bounds_min.y, boundaries.bounds_max.y);
        let candidate = Vec2I { x, y };
        if !boundaries.in_dropzone(candidate) {
            return candidate;
        }
        attempts = attempts + 1;
    }
    // between the outer and inner left edges, vertically centered low edge
    let fx: i64 = boundaries.bounds_min.x + (boundaries.dropzone_min.x - boundaries.bounds_min.x)
        / 2;
    Vec2I { x: fx, y: boundaries.bounds_min.y }
}

/// Draws a random direction scaled to (at most) the initial roaming speed.
pub fn random_initial_velocity() -> (r: Vec2I)
    ensures
        r.valid(),
        len_sq(r@) <= 1_000_000,
{
    let vx: i64 = rand_range_i64(-1000, 1001);
    let vy: i64 = rand_range_i64(-1000, 1001);
    let v = Vec2I { x: vx, y: vy };
    let r = v.norm_to(1000);
    proof {
        assert(1_000_000 == 1000 * 1000);
    }
    r
}

/// Whether a candidate position is within the minimum placement distance of
/// any already placed agent.
pub fn collides(agents: &Vec<Agent>, candidate: Vec2I) -> (r: bool)
    requires
        candidate.valid(),
        forall|i: int| 0 <= i < agents@.len() ==> (#[trigger] agents@[i]).valid(),
    ensures
        r == exists|i: int|
            0 <= i < agents@.len() && dist_sq(
                (#[trigger] agents@[i]).transform.position@,
                candidate@,
            ) < (ICON_MIN_DISTANCE as int) * (ICON_MIN_DISTANCE as int),
{
    proof {
        crate::vec2::lemma_square_range(ICON_MIN_DISTANCE as int, crate::COORD_LIMIT as int);
    }
    let limit: i64 = ICON_MIN_DISTANCE * ICON_MIN_DISTANCE;
    let mut i: usize = 0;
    while i < agents.len()
        invariant
            candidate.valid(),
            forall|t: int| 0 <= t < agents@.len() ==> (#[trigger] agents@[t]).valid(),
            i <= agents@.len(),
            limit as int == (ICON_MIN_DISTANCE as int) * (ICON_MIN_DISTANCE as int),
            forall|t: int|
                0 <= t < i as int ==> dist_sq(
                    (#[trigger] agents@[t]).transform.position@,
                    candidate@,
                ) >= limit as int,
        decreases agents@.len() - i,
    {
        let d2: i64 = agents[i].transform.position.dist_sq(candidate);
        if d2 < limit {
            return true;
        }
        i = i + 1;
    }
    false
}

/// Creates a fresh population: agent `0` is the player, parked at a fixed
/// spot inside the dropzone; every other agent is `Free`, placed uniformly
/// in the world outside the dropzone, no two agents closer than the minimum
/// placement distance, each with a small random initial velocity; all are
/// indexed. Returns nothing only when a random draw could not place another
/// agent: a population of one (the player alone, placed deterministically)
/// always succeeds.
pub fn init_icons(n: usize, boundaries: &WorldBoundaryResource) -> (r: Option<
    (Vec<Agent>, SpatialIndex),
>)
    requires
        boundaries.wf(),
        1 <= n <= 1_000_000,
        boundaries.bounds_min.x < 0 < boundaries.bounds_max.x,
        boundaries.bounds_min.y < (boundaries.dropzone_max.y - boundaries.dropzone_min.y) / 4
            < boundaries.bounds_max.y,
        crate::spatial::ceil_div(
            boundaries.bounds_max.x - boundaries.bounds_min.x,
            SPATIAL_GRID_SIZE as int,
        ) * crate::spatial::ceil_div(
            boundaries.bounds_max.y - boundaries.bounds_min.y,
            SPATIAL_GRID_SIZE as int,
        ) <= usize::MAX,
    ensures
        n == 1 ==> r is Some,
        r matches Some(world) ==> {
            let agents = world.0@;
            let index = world.1;
            &&& agents.len() == n
            &&& (forall|i: int| 0 <= i < n ==> (#[trigger] agents[i]).id == i as u64)
            &&& ids_distinct(agents)
            &&& (forall|i: int| 0 <= i < n ==> (#[trigger] agents[i]).valid())
            &&& crate::components::one_player_at(agents, 0)
            &&& agents[0].transform.position@ == (
                0int,
                (boundaries.dropzone_max.y - boundaries.dropzone_min.y) / 4,
            )
            &&& agents[0].velocity.0@ == (0int, 0int)
            &&& (forall|i: int|
                1 <= i < n ==> {
                    let a = #[trigger] agents[i];
                    &&& a.icon_type.0 is Free
                    &&& boundaries.bounds_min.x <= a.transform.position.x
                        < boundaries.bounds_max.x
                    &&& boundaries.bounds_min.y <= a.transform.position.y
                        < boundaries.bounds_max.y
                    &&& !boundaries.spec_in_dropzone(a.transform.position)
                    &&& len_sq(a.velocity.0@) <= 1_000_000
                })
            &&& (forall|i: int, j: int|
                0 <= i < j < n ==> dist_sq(
                    (#[trigger] agents[i]).transform.position@,
                    (#[trigger] agents[j]).transform.position@,
                ) >= (ICON_MIN_DISTANCE as int) * (ICON_MIN_DISTANCE as int))
            &&& index.wf()
            &&& index.min == boundaries.bounds_min
            &&& index.max == boundaries.bounds_max
            &&& index.cell_size == SPATIAL_GRID_SIZE
            &&& (forall|id: u64|
                index.contents().contains_key(id) <==> id < n as u64)
            &&& (forall|i: int|
                0 <= i < n ==> (#[trigger] index.contents()[i as u64]).0 == agents[i].transform.position
                    && index.contents()[i as u64].1 == agents[i].velocity.0)
        },
{
    let mut agents: Vec<Agent> = Vec::new();
    let mut index: SpatialIndex = SpatialIndex::new(
        boundaries.bounds_min,
        boundaries.bounds_max,
        SPATIAL_GRID_SIZE,
    );
    let py: i64 = ((boundaries.dropzone_max.y - boundaries.dropzone_min.y) as u64 / 4) as i64;
    let ppos = Vec2I { x: 0, y: py };
    let player = Agent {
        id: 0,
        transform: IconTransform { position: ppos, rotation: 0 },
        velocity: IconVelocity(Vec2I { x: 0, y: 0 }),
        icon_type: IconType(Type::Player),
    };
    agents.push(player);
    proof {
        index.lemma_in_grid_of_bounds(ppos@);
    }
    index.insert(0, ppos, Vec2I { x: 0, y: 0 });
    let mut i: usize = 1;
    #[verifier::loop_isolation(false)]
    while i < n
        invariant
            agents@.len() == i as int,
            1 <= i <= n,
            index.wf(),
            index.min == boundaries.bounds_min,
            index.max == boundaries.bounds_max,
            index.cell_size == SPATIAL_GRID_SIZE,
            forall|t: int| 0 <= t < i as int ==> (#[trigger] agents@[t]).id == t as u64,
            forall|t: int| 0 <= t < i as int ==> (#[trigger] agents@[t]).valid(),
            agents@[0] == player,
            forall|t: int| 1 <= t < i as int ==> !((#[trigger] agents@[t]).icon_type.0 is Player),
            forall|t: int|
                1 <= t < i as int ==> {
                    let a = #[trigger] agents@[t];
                    &&& a.icon_type.0 is Free
                    &&& boundaries.bounds_min.x <= a.transform.position.x
                        < boundaries.bounds_max.x
                    &&& boundaries.bounds_min.y <= a.transform.position.y
                        < boundaries.bounds_max.y
                    &&& !boundaries.spec_in_dropzone(a.transform.position)
                    &&& len_sq(a.velocity.0@) <= 1_000_000
                },
            forall|t1: int, t2: int|
                0 <= t1 < t2 < i as int ==> dist_sq(
                    (#[trigger] agents@[t1]).transform.position@,
                    (#[trigger] agents@[t2]).transform.position@,
                ) >= (ICON_MIN_DISTANCE as int) * (ICON_MIN_DISTANCE as int),
            forall|id: u64| index.contents().contains_key(id) <==> id < i as u64,
            forall|t: int|
                0 <= t < i as int ==> (#[trigger] index.contents()[t as u64]).0
                    == agents@[t].transform.position && index.contents()[t as u64].1
                    == agents@[t].velocity.0,
        decreases n - i,
    {
        let mut attempts: usize = 0;
        let mut placed: bool = false;
        #[verifier::loop_isolation(false)]
        while attempts < MAX_PLACEMENT_ATTEMPTS && !placed
            invariant
                placed ==> agents@.len() == i as int + 1,
                !placed ==> agents@.len() == i as int,
                index.wf(),
                index.min == boundaries.bounds_min,
                index.max == boundaries.bounds_max,
                index.cell_size == SPATIAL_GRID_SIZE,
                forall|t: int| 0 <= t < agents@.len() ==> (#[trigger] agents@[t]).id == t as u64,
                forall|t: int| 0 <= t < agents@.len() ==> (#[trigger] agents@[t]).valid(),
                agents@[0] == player,
                forall|t: int|
                    1 <= t < agents@.len() ==> !((#[trigger] agents@[t]).icon_type.0 is Player),
                forall|t: int|
                    1 <= t < agents@.len() ==> {
                        let a = #[trigger] agents@[t];
                        &&& a.icon_type.0 is Free
                        &&& boundaries.bounds_min.x <= a.transform.position.x
                            < boundaries.bounds_max.x
                        &&& boundaries.bounds_min.y <= a.transform.position.y
                            < boundaries.bounds_max.y
                        &&& !boundaries.spec_in_dropzone(a.transform.position)
                        &&& len_sq(a.velocity.0@) <= 1_000_000
                    },
                forall|t1: int, t2: int|
                    0 <= t1 < t2 < agents@.len() ==> dist_sq(
                        (#[trigger] agents@[t1]).transform.position@,
                        (#[trigger] agents@[t2]).transform.position@,
                    ) >= (ICON_MIN_DISTANCE as int) * (ICON_MIN_DISTANCE as int),
                forall|id: u64| index.contents().contains_key(id) <==> id < agents@.len() as u64,
                forall|t: int|
                    0 <= t < agents@.len() ==> (#[trigger] index.contents()[t as u64]).0
                        == agents@[t].transform.position && index.contents()[t as u64].1
                        == agents@[t].velocity.0,
            decreases MAX_PLACEMENT_ATTEMPTS - attempts, (if placed { 0int } else { 1int }),
        {
            let candidate: Vec2I = random_position_in_bounds(boundaries);
            if !collides(&agents, candidate) {
                let vel: Vec2I = random_initial_velocity();
                let agent = Agent {
                    id: i as u64,
                    transform: IconTransform { position: candidate, rotation: 0 },
                    velocity: IconVelocity(vel),
                    icon_type: IconType(Type::Free),
                };
                agents.push(agent);
                proof {
                    index.lemma_in_grid_of_bounds(candidate@);
                }
                index.insert(i as u64, candidate, vel);
                placed = true;
            }
            attempts = attempts + 1;
        }
        if !placed {
            return None;
        }
        i = i + 1;
    }
    Some((agents, index))
}

/// Periodic housekeeping: free agents that ended up inside the dropzone are
/// teleported to a fresh random position outside it and re-indexed.
pub fn fix_free_items_in_dropzone(
    agents: &mut Vec<Agent>,
    spatial_index: &mut SpatialIndex,
    boundaries: &WorldBoundaryResource,
    timer: &mut UpdateTimer,
    dt_ms: i64,
)
    requires
        boundaries.wf(),
        old(spatial_index).wf(),
        old(spatial_index).min == boundaries.bounds_min,
        old(spatial_index).max == boundaries.bounds_max,
        ids_distinct(old(agents)@),
        forall|i: int| 0 <= i < old(agents)@.len() ==> (#[trigger] old(agents)@[i]).valid(),
        0 <= dt_ms <= 0x1000_0000_0000,
        0 <= old(timer).elapsed_ms <= 0x1000_0000_0000,
        0 <= old(timer).interval_ms <= 0x1000_0000_0000,
    ensures
        final(spatial_index).wf(),
        final(spatial_index).same_grid(*old(spatial_index)),
        final(timer).interval_ms == old(timer).interval_ms,
        final(agents)@.len() == old(agents)@.len(),
        forall|i: int| 0 <= i < final(agents)@.len() ==> (#[trigger] final(agents)@[i]).valid(),
        ({
            let fired = old(timer).elapsed_ms + dt_ms >= old(timer).interval_ms;
            &&& final(timer).elapsed_ms == (if fired {
                0int
            } else {
                old(timer).elapsed_ms + dt_ms
            })
            &&& (!fired ==> final(agents)@ == old(agents)@ && *final(spatial_index) == *old(spatial_index))
            &&& (fired ==> (forall|i: int|
                0 <= i < old(agents)@.len() ==> {
                    let a0 = #[trigger] old(agents)@[i];
                    let a1 = final(agents)@[i];
                    &&& (!stray(a0, *boundaries) ==> a1 == a0)
                    &&& (stray(a0, *boundaries) ==> a1.id == a0.id && a1.icon_type == a0.icon_type
                        && a1.velocity == a0.velocity && a1.transform.rotation
                        == a0.transform.rotation && boundaries.bounds_min.x
                        <= a1.transform.position.x < boundaries.bounds_max.x
                        && boundaries.bounds_min.y <= a1.transform.position.y
                        < boundaries.bounds_max.y && !boundaries.spec_in_dropzone(
                        a1.transform.position,
                    ) && final(spatial_index).contents().contains_key(a0.id) && final(spatial_index).contents()[a0.id].0 == a1.transform.position && final(spatial_index).contents()[a0.id].1 == a0.velocity.0)
                }) && (forall|id: u64|
                !(exists|i: int|
                    0 <= i < old(agents)@.len() && old(agents)@[i].id == id && #[trigger] stray(
                        old(agents)@[i],
                        *boundaries,
                    )) ==> (final(spatial_index).contents().contains_key(id)
                    == #[trigger] old(spatial_index).contents().contains_key(id) && (old(spatial_index).contents().contains_key(id) ==> final(spatial_index).contents()[id] == old(spatial_index).contents()[id]))))
        }),
{
    let fired = timer.tick(dt_ms);
    if !fired {
        return ;
    }
    let ghost pre = agents@;
    let ghost c_orig = spatial_index.contents();
    let mut i: usize = 0;
    #[verifier::loop_isolation(false)]
    while i < agents.len()
        invariant
            agents@.len() == pre.len(),
            i <= pre.len(),
            spatial_index.wf(),
            spatial_index.same_grid(*old(spatial_index)),
            forall|t: int| i as int <= t < pre.len() ==> #[trigger] agents@[t] == pre[t],
            forall|t: int| 0 <= t < agents@.len() ==> (#[trigger] agents@[t]).valid(),
            forall|t: int|
                0 <= t < i as int ==> {
                    let a0 = pre[t];
                    let a1 = #[trigger] agents@[t];
                    &&& (!stray(a0, *boundaries) ==> a1 == a0)
                    &&& (stray(a0, *boundaries) ==> a1.id == a0.id && a1.icon_type == a0.icon_type
                        && a1.velocity == a0.velocity && a1.transform.rotation
                        == a0.transform.rotation && boundaries.bounds_min.x
                        <= a1.transform.position.x < boundaries.bounds_max.x
                        && boundaries.bounds_min.y <= a1.transform.position.y
                        < boundaries.bounds_max.y && !boundaries.spec_in_dropzone(
                        a1.transform.position,
                    ) && spatial_index.contents().contains_key(a0.id)
                        && spatial_index.contents()[a0.id].0 == a1.transform.position
                        && spatial_index.contents()[a0.id].1 == a0.velocity.0)
                },
            forall|id: u64|
                !(exists|t: int|
                    0 <= t < i as int && pre[t].id == id && #[trigger] stray(
                        pre[t],
                        *boundaries,
                    )) ==> (spatial_index.contents().contains_key(id)
                    == #[trigger] c_orig.contains_key(id) && (c_orig.contains_key(id)
                    ==> spatial_index.contents()[id] == c_orig[id])),
        decreases pre.len() - i,
    {
        let a: Agent = agents[i];
        let is_free = match a.icon_type.0 {
            Type::Free => true,
            _ => false,
        };
        if is_free && boundaries.in_dropzone(a.transform.position) {
            let new_position: Vec2I = random_position_in_bounds(boundaries);
            let aref: &mut Agent = &mut agents[i];
            *aref = Agent {
                transform: IconTransform {
                    position: new_position,
                    rotation: a.transform.rotation,
                },
                ..a
            };
            let ghost chead = spatial_index.contents();
            proof {
                spatial_index.lemma_in_grid_of_bounds(new_position@);
            }
            spatial_index.insert(a.id, new_position, a.velocity.0);
            proof {
                assert(spatial_index.contents() == chead.insert(
                    a.id,
                    (new_position, a.velocity.0),
                ));
                assert(stray(pre[i as int], *boundaries));
                assert forall|id: u64|
                    !(exists|t: int|
                        0 <= t < i as int + 1 && pre[t].id == id && #[trigger] stray(
                            pre[t],
                            *boundaries,
                        )) implies (spatial_index.contents().contains_key(id)
                    == c_orig.contains_key(id) && (c_orig.contains_key(id)
                    ==> spatial_index.contents()[id] == c_orig[id])) by {
                    assert(id != a.id);
                    assert(chead.contains_key(id) == c_orig.contains_key(id) && (
                    c_orig.contains_key(id) ==> chead[id] == c_orig[id]));
                }
                assert forall|t: int|
                    0 <= t < i as int && stray(pre[t], *boundaries) implies
                    spatial_index.contents().contains_key(pre[t].id)
                        && spatial_index.contents()[pre[t].id].0 == agents@[t].transform.position
                        && spatial_index.contents()[pre[t].id].1 == pre[t].velocity.0 by {
                    assert(pre[t].id != a.id);
                }
            }
        }
        i = i + 1;
    }
}

/// A free agent standing inside the dropzone — the condition the sweep
/// repairs.
pub open spec fn stray(a: Agent, b: WorldBoundaryResource) -> bool {
    a.icon_type.0 is Free && b.spec_in_dropzone(a.transform.position)
}

} // verus!
