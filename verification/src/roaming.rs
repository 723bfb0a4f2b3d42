//! The Roaming Engine: on a fixed-interval timer, recomputes every
//! non-frozen agent's velocity from the steering forces against one
//! consistent spatial-index snapshot; a separate per-frame step integrates
//! positions and re-indexes agents.
//!
//! Rotation is not touched here: the host derives each agent's heading from
//! its velocity when rendering.

use vstd::prelude::*;

verus! {

use crate::components::{ids_distinct, one_player_at, Agent, IconVelocity, Type};
use crate::settings::SettingsResource;
use crate::spatial::{SpatialIndex, SpatialQueryResult};
use crate::steering::{get_icon_velocity, hits_wf, icon_velocity_spec};
use crate::vec2::{vadd, vdiv, vneg, vscale, Vec2I};
use crate::world::WorldBoundaryResource;

/// Fixed-interval gate for the roaming update, independent of frame rate.
#[derive(Clone, Copy, Debug, PartialEq, Eq, Structural)]
pub struct UpdateTimer {
    pub interval_ms: i64,
    pub elapsed_ms: i64,
}

impl UpdateTimer {
    pub fn new(interval_ms: i64) -> (r: Self)
        ensures
            r.interval_ms == interval_ms,
            r.elapsed_ms == 0,
    {
        UpdateTimer { interval_ms, elapsed_ms: 0 }
    }

    /// Accumulates elapsed time; fires and restarts when the interval has
    /// passed.
    pub fn tick(&mut self, dt_ms: i64) -> (fired: bool)
        requires
            0 <= dt_ms <= 0x1000_0000_0000,
            0 <= old(self).elapsed_ms <= 0x1000_0000_0000,
            0 <= old(self).interval_ms <= 0x1000_0000_0000,
        ensures
            final(self).interval_ms == old(self).interval_ms,
            fired == (old(self).elapsed_ms + dt_ms >= old(self).interval_ms),
            final(self).elapsed_ms == if fired {
                0int
            } else {
                old(self).elapsed_ms + dt_ms
            },
    {
        let total: i64 = self.elapsed_ms + dt_ms;
        if total >= self.interval_ms {
            self.elapsed_ms = 0;
            true
        } else {
            self.elapsed_ms = total;
            false
        }
    }
}

impl Default for UpdateTimer {
    /// The stock roaming gate: fires every 300 milliseconds.
    fn default() -> (r: Self)
        ensures
            r.interval_ms == 300,
            r.elapsed_ms == 0,
    {
        UpdateTimer { interval_ms: 300, elapsed_ms: 0 }
    }
}

/// The position of the (unique) `Player`-mode agent.
pub open spec fn player_pos(agents: Seq<Agent>) -> (int, int) {
    let pi = choose|pi: int| one_player_at(agents, pi);
    agents[pi].transform.position@
}

/// The per-agent outcome of one roaming update: `Player` and `Captured`
/// agents keep their state; every other agent keeps everything but its
/// velocity, which becomes the steering result against some complete query
/// snapshot of the index.
pub open spec fn roamed(
    a0: Agent,
    a1: Agent,
    index: SpatialIndex,
    target: (int, int),
    s: SettingsResource,
    b: WorldBoundaryResource,
) -> bool {
    if a0.icon_type.0 is Player || a0.icon_type.0 is Captured {
        a1 == a0
    } else {
        exists|ch: Seq<SpatialQueryResult>, ah: Seq<SpatialQueryResult>, oh: Seq<
            SpatialQueryResult,
        >|
            #![trigger index.results_valid(a0.transform.position@, s.collision_distance as int, ch), index.results_valid(a0.transform.position@, s.alignment_distance as int, ah), index.results_valid(a0.transform.position@, s.cohesion_distance as int, oh)]
            {
                &&& index.results_valid(
                    a0.transform.position@,
                    s.collision_distance as int,
                    ch,
                )
                &&& index.results_valid(a0.transform.position@, s.alignment_distance as int, ah)
                &&& index.results_valid(a0.transform.position@, s.cohesion_distance as int, oh)
                &&& a1.id == a0.id
                &&& a1.transform == a0.transform
                &&& a1.icon_type == a0.icon_type
                &&& a1.velocity.0@ == icon_velocity_spec(
                    a0.id,
                    a0.transform.position@,
                    a0.velocity.0@,
                    a0.icon_type.0,
                    ch,
                    ah,
                    oh,
                    target,
                    s,
                    b.bounds_min@,
                    b.bounds_max@,
                    b.dropzone_min@,
                    b.dropzone_max@,
                )
            }
    }
}

/// One roaming update: when the timer fires, computes a new velocity for
/// every agent that is neither `Player` nor `Captured`, reading all
/// neighborhoods from the same index snapshot and writing only velocities.
pub fn update_icon_roaming_velocity(
    timer: &mut UpdateTimer,
    dt_ms: i64,
    agents: &mut Vec<Agent>,
    spatial_index: &SpatialIndex,
    settings: &SettingsResource,
    boundaries: &WorldBoundaryResource,
)
    requires
        settings.wf(),
        boundaries.wf(),
        spatial_index.wf(),
        0 <= dt_ms <= 0x1000_0000_0000,
        0 <= old(timer).elapsed_ms <= 0x1000_0000_0000,
        0 <= old(timer).interval_ms <= 0x1000_0000_0000,
        forall|i: int| 0 <= i < old(agents)@.len() ==> (#[trigger] old(agents)@[i]).valid(),
        exists|pi: int| one_player_at(old(agents)@, pi),
    ensures
        final(timer).interval_ms == old(timer).interval_ms,
        ({
            let fired = old(timer).elapsed_ms + dt_ms >= old(timer).interval_ms;
            &&& final(timer).elapsed_ms == (if fired {
                0int
            } else {
                old(timer).elapsed_ms + dt_ms
            })
            &&& (!fired ==> final(agents)@ == old(agents)@)
            &&& (fired ==> final(agents)@.len() == old(agents)@.len() && (forall|i: int|
                0 <= i < old(agents)@.len() ==> roamed(
                    old(agents)@[i],
                    #[trigger] final(agents)@[i],
                    *spatial_index,
                    player_pos(old(agents)@),
                    *settings,
                    *boundaries,
                )) && (forall|i: int|
                0 <= i < final(agents)@.len() ==> (#[trigger] final(agents)@[i]).valid()))
        }),
{
    let fired = timer.tick(dt_ms);
    if !fired {
        return ;
    }
    let ghost pre = agents@;
    // locate the player's position, the follower seek target
    let mut player_position: Vec2I = Vec2I { x: 0, y: 0 };
    let mut found_player: bool = false;
    let mut p: usize = 0;
    #[verifier::loop_isolation(false)]
    while p < agents.len()
        invariant
            agents@ == pre,
            p <= pre.len(),
            !found_player ==> forall|t: int|
                0 <= t < p as int ==> !(#[trigger] pre[t].icon_type.0 is Player),
            found_player ==> player_position@ == player_pos(pre) && player_position.valid(),
        decreases pre.len() - p,
    {
        let is_player = match agents[p].icon_type.0 {
            Type::Player => true,
            _ => false,
        };
        if is_player && !found_player {
            player_position = agents[p].transform.position;
            found_player = true;
            proof {
                let pi = choose|pi: int| one_player_at(pre, pi);
                assert(pi == p as int);
            }
        }
        p = p + 1;
    }
    proof {
        if !found_player {
            let pi = choose|pi: int| one_player_at(pre, pi);
            assert(pre[pi].icon_type.0 is Player);
        }
    }
    let mut i: usize = 0;
    #[verifier::loop_isolation(false)]
    while i < agents.len()
        invariant
            agents@.len() == pre.len(),
            i <= pre.len(),
            found_player,
            forall|t: int| i as int <= t < pre.len() ==> #[trigger] agents@[t] == pre[t],
            forall|t: int|
                0 <= t < i as int ==> roamed(
                    pre[t],
                    #[trigger] agents@[t],
                    *spatial_index,
                    player_pos(pre),
                    *settings,
                    *boundaries,
                ),
            forall|t: int| 0 <= t < agents@.len() ==> (#[trigger] agents@[t]).valid(),
        decreases pre.len() - i,
    {
        let a: Agent = agents[i];
        let frozen = match a.icon_type.0 {
            Type::Player => true,
            Type::Captured => true,
            _ => false,
        };
        if !frozen {
            let col_hits = spatial_index.query(a.transform.position, settings.collision_distance);
            let ali_hits = spatial_index.query(a.transform.position, settings.alignment_distance);
            let coh_hits = spatial_index.query(a.transform.position, settings.cohesion_distance);
            proof {
                spatial_index.lemma_contents_valid();
                assert(hits_wf(col_hits@));
                assert(hits_wf(ali_hits@));
                assert(hits_wf(coh_hits@));
            }
            let v: Vec2I = get_icon_velocity(
                a.id,
                a.transform.position,
                a.velocity.0,
                a.icon_type.0,
                &col_hits,
                &ali_hits,
                &coh_hits,
                player_position,
                settings,
                boundaries,
            );
            let aref: &mut Agent = &mut agents[i];
            *aref = Agent { velocity: IconVelocity(v), ..a };
            proof {
                assert(roamed(
                    pre[i as int],
                    agents@[i as int],
                    *spatial_index,
                    player_pos(pre),
                    *settings,
                    *boundaries,
                )) by {
                    assert(spatial_index.results_valid(
                        a.transform.position@,
                        settings.collision_distance as int,
                        col_hits@,
                    ));
                }
            }
        }
        i = i + 1;
    }
}

/// Whether integrating agent `i`'s velocity over `dt_ms` keeps it in bounds
/// (only such agents move; the others bounce by reversing their velocity).
pub open spec fn step_target(a: Agent, s: SettingsResource, dt_ms: int) -> (int, int) {
    vadd(a.transform.position@, vdiv(vscale(a.velocity.0@, dt_ms * s.velocity_time_scale), 1000))
}

/// Position integration, run every frame: each non-`Captured` agent moves
/// along its velocity (scaled by the elapsed time); a move that would leave
/// the world bounds instead reverses the velocity; moved agents are
/// re-indexed at their new position.
pub fn apply_icon_velocity(
    agents: &mut Vec<Agent>,
    spatial_index: &mut SpatialIndex,
    boundaries: &WorldBoundaryResource,
    settings: &SettingsResource,
    dt_ms: i64,
)
    requires
        settings.wf(),
        boundaries.wf(),
        old(spatial_index).wf(),
        old(spatial_index).min == boundaries.bounds_min,
        old(spatial_index).max == boundaries.bounds_max,
        ids_distinct(old(agents)@),
        0 <= dt_ms <= 10_000,
        forall|i: int| 0 <= i < old(agents)@.len() ==> (#[trigger] old(agents)@[i]).valid(),
    ensures
        final(spatial_index).wf(),
        final(spatial_index).same_grid(*old(spatial_index)),
        final(agents)@.len() == old(agents)@.len(),
        forall|i: int| 0 <= i < final(agents)@.len() ==> (#[trigger] final(agents)@[i]).valid(),
        forall|i: int|
            0 <= i < old(agents)@.len() ==> {
                let a0 = old(agents)@[i];
                let np = step_target(a0, *settings, dt_ms as int);
                let a1 = #[trigger] final(agents)@[i];
                &&& (a0.icon_type.0 is Captured ==> a1 == a0)
                &&& (!(a0.icon_type.0 is Captured) && !in_bounds_pt(*boundaries, np) ==> a1.id
                    == a0.id && a1.transform == a0.transform && a1.icon_type == a0.icon_type
                    && a1.velocity.0@ == vneg(a0.velocity.0@))
                &&& (!(a0.icon_type.0 is Captured) && in_bounds_pt(*boundaries, np) ==> a1.id
                    == a0.id && a1.transform.position@ == np && a1.transform.rotation
                    == a0.transform.rotation && a1.icon_type == a0.icon_type && a1.velocity
                    == a0.velocity)
            },
        forall|i: int|
            0 <= i < old(agents)@.len() && #[trigger] agent_moves(
                old(agents)@[i],
                *settings,
                *boundaries,
                dt_ms as int,
            ) ==> {
                let a0 = old(agents)@[i];
                let np = step_target(a0, *settings, dt_ms as int);
                let c = final(spatial_index).contents();
                &&& (old(spatial_index).spec_in_grid(np) ==> c.contains_key(a0.id) && c[a0.id].0@
                    == np && c[a0.id].1 == a0.velocity.0)
                &&& (!old(spatial_index).spec_in_grid(np) ==> !c.contains_key(a0.id))
            },
        forall|id: u64|
            !(exists|i: int|
                0 <= i < old(agents)@.len() && old(agents)@[i].id == id && #[trigger] agent_moves(
                    old(agents)@[i],
                    *settings,
                    *boundaries,
                    dt_ms as int,
                )) ==> (final(spatial_index).contents().contains_key(id)
                == #[trigger] old(spatial_index).contents().contains_key(id) && (old(
                spatial_index,
            ).contents().contains_key(id) ==> final(spatial_index).contents()[id] == old(
                spatial_index,
            ).contents()[id])),
{
    let ghost pre = agents@;
    let ghost c_orig = spatial_index.contents();
    let mut i: usize = 0;
    #[verifier::loop_isolation(false)]
    while i < agents.len()
        invariant
            agents@.len() == pre.len(),
            i <= pre.len(),
            spatial_index.wf(),
            spatial_index.same_grid(*old(spatial_index)),
            forall|t: int| i as int <= t < pre.len() ==> #[trigger] agents@[t] == pre[t],
            forall|t: int| 0 <= t < agents@.len() ==> (#[trigger] agents@[t]).valid(),
            forall|t: int|
                0 <= t < i as int ==> {
                    let a0 = pre[t];
                    let np = step_target(a0, *settings, dt_ms as int);
                    let a1 = #[trigger] agents@[t];
                    &&& (a0.icon_type.0 is Captured ==> a1 == a0)
                    &&& (!(a0.icon_type.0 is Captured) && !in_bounds_pt(*boundaries, np) ==> a1.id
                        == a0.id && a1.transform == a0.transform && a1.icon_type == a0.icon_type
                        && a1.velocity.0@ == vneg(a0.velocity.0@))
                    &&& (!(a0.icon_type.0 is Captured) && in_bounds_pt(*boundaries, np) ==> a1.id
                        == a0.id && a1.transform.position@ == np && a1.transform.rotation
                        == a0.transform.rotation && a1.icon_type == a0.icon_type && a1.velocity
                        == a0.velocity)
                },
            forall|t: int|
                0 <= t < i as int && #[trigger] agent_moves(
                    pre[t],
                    *settings,
                    *boundaries,
                    dt_ms as int,
                ) ==> {
                    let a0 = pre[t];
                    let np = step_target(a0, *settings, dt_ms as int);
                    let c = spatial_index.contents();
                    &&& (old(spatial_index).spec_in_grid(np) ==> c.contains_key(a0.id) && c[a0.id].0@
                        == np && c[a0.id].1 == a0.velocity.0)
                    &&& (!old(spatial_index).spec_in_grid(np) ==> !c.contains_key(a0.id))
                },
            forall|id: u64|
                !(exists|t: int|
                    0 <= t < i as int && pre[t].id == id && #[trigger] agent_moves(
                        pre[t],
                        *settings,
                        *boundaries,
                        dt_ms as int,
                    )) ==> (spatial_index.contents().contains_key(id)
                    == #[trigger] c_orig.contains_key(id) && (c_orig.contains_key(id)
                    ==> spatial_index.contents()[id] == c_orig[id])),
        decreases pre.len() - i,
    {
        let a: Agent = agents[i];
        let captured = match a.icon_type.0 {
            Type::Captured => true,
            _ => false,
        };
        if !captured {
            proof {
                assert(0 <= dt_ms as int * settings.velocity_time_scale as int <= 100_000_000)
                    by (nonlinear_arith)
                    requires
                        0 <= dt_ms <= 10_000,
                        0 <= settings.velocity_time_scale <= 10_000,
                ;
                crate::vec2::lemma_mul_abs_bound(
                    a.velocity.0.x as int,
                    dt_ms as int * settings.velocity_time_scale as int,
                    crate::COORD_LIMIT as int,
                    100_000_000,
                );
                crate::vec2::lemma_mul_abs_bound(
                    a.velocity.0.y as int,
                    dt_ms as int * settings.velocity_time_scale as int,
                    crate::COORD_LIMIT as int,
                    100_000_000,
                );
            }
            let m: i64 = dt_ms * settings.velocity_time_scale;
            let dx: i64 = crate::math::div_trunc_i64(a.velocity.0.x * m, 1000);
            let dy: i64 = crate::math::div_trunc_i64(a.velocity.0.y * m, 1000);
            proof {
                crate::vec2::lemma_tdiv_mag(a.velocity.0.x as int * m as int, 1000);
                crate::vec2::lemma_tdiv_mag(a.velocity.0.y as int * m as int, 1000);
            }
            let np = Vec2I { x: a.transform.position.x + dx, y: a.transform.position.y + dy };
            if boundaries.in_bounds(np) {
                let aref: &mut Agent = &mut agents[i];
                *aref = Agent {
                    transform: crate::components::IconTransform {
                        position: np,
                        rotation: a.transform.rotation,
                    },
                    ..a
                };
                let ghost chead = spatial_index.contents();
                spatial_index.insert(a.id, np, a.velocity.0);
                proof {
                    assert(agent_moves(pre[i as int], *settings, *boundaries, dt_ms as int));
                    if old(spatial_index).spec_in_grid(np@) {
                        assert(spatial_index.contents() == chead.insert(a.id, (np, a.velocity.0)));
                    } else {
                        assert(spatial_index.contents() == chead.remove(a.id));
                    }
                    assert forall|id: u64|
                        !(exists|t: int|
                            0 <= t < i as int + 1 && pre[t].id == id && #[trigger] agent_moves(
                                pre[t],
                                *settings,
                                *boundaries,
                                dt_ms as int,
                            )) implies (spatial_index.contents().contains_key(id)
                        == c_orig.contains_key(id) && (c_orig.contains_key(id)
                        ==> spatial_index.contents()[id] == c_orig[id])) by {
                        assert(id != a.id);
                        assert(chead.contains_key(id) == c_orig.contains_key(id) && (
                        c_orig.contains_key(id) ==> chead[id] == c_orig[id]));
                    }
                    assert forall|t: int|
                        0 <= t < i as int + 1 && #[trigger] agent_moves(
                            pre[t],
                            *settings,
                            *boundaries,
                            dt_ms as int,
                        ) implies {
                        let a0 = pre[t];
                        let np2 = step_target(a0, *settings, dt_ms as int);
                        let c = spatial_index.contents();
                        &&& (old(spatial_index).spec_in_grid(np2) ==> c.contains_key(a0.id) && c[
                            a0.id].0@ == np2 && c[a0.id].1 == a0.velocity.0)
                        &&& (!old(spatial_index).spec_in_grid(np2) ==> !c.contains_key(a0.id))
                    } by {
                        if t < i as int {
                            assert(pre[t].id != a.id);
                        } else {
                            assert(np@ == step_target(pre[t], *settings, dt_ms as int));
                        }
                    }
                }
            } else {
                let aref: &mut Agent = &mut agents[i];
                *aref = Agent { velocity: IconVelocity(Vec2I { x: -a.velocity.0.x, y: -a.velocity.0.y }), ..a };
                proof {
                    assert(!agent_moves(pre[i as int], *settings, *boundaries, dt_ms as int));
                }
            }
        }
        i = i + 1;
    }
}

/// A point lies within the outer world rectangle, borders included.
pub open spec fn in_bounds_pt(b: WorldBoundaryResource, p: (int, int)) -> bool {
    &&& b.bounds_min.x <= p.0 <= b.bounds_max.x
    &&& b.bounds_min.y <= p.1 <= b.bounds_max.y
}

/// The agent is neither frozen nor bouncing: this step moves and re-indexes
/// it.
pub open spec fn agent_moves(
    a: Agent,
    s: SettingsResource,
    b: WorldBoundaryResource,
    dt_ms: int,
) -> bool {
    !(a.icon_type.0 is Captured) && in_bounds_pt(b, step_target(a, s, dt_ms))
}

} // verus!
