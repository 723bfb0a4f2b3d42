//! The capture state machine: free agents become followers through a
//! hover-hold or a projectile hit, and followers are captured in a batch
//! when the player enters the dropzone, where Dropzone Packing parks each of
//! them on a fixed grid slot.

use vstd::prelude::*;

verus! {

use crate::components::{ids_distinct, Agent, IconTransform, IconType, IconVelocity, Type};
use crate::events::{IconCaptureEvent, PlayerFollowEvent};
use crate::math::{div_floor_i64, isqrt_ceil_u64, lemma_sqrt_floor_bound, sqrt_ceil, tdiv};
use crate::settings::SettingsResource;
use crate::spatial::SpatialIndex;
use crate::vec2::{dist_sq, vadd, vdiv, vscale, Vec2I};
use crate::COORD_LIMIT;
use crate::world::WorldBoundaryResource;

/// At most this many capture notifications are emitted per batch.
pub const MAX_CAPTURE_EVENTS: usize = 10;

/// The set of agents currently following the player, in the order they were
/// gained.
pub struct IconFollowers {
    pub followers: Vec<u64>,
}

impl IconFollowers {
    /// No identity occurs twice.
    pub open spec fn wf(&self) -> bool {
        forall|i: int, j: int|
            0 <= i < j < self.followers@.len() ==> self.followers@[i] != self.followers@[j]
    }

    pub fn new() -> (r: Self)
        ensures
            r.wf(),
            r.followers@.len() == 0,
    {
        IconFollowers { followers: Vec::new() }
    }

    pub fn len(&self) -> (r: usize)
        ensures
            r == self.followers@.len(),
    {
        self.followers.len()
    }

    /// Whether an agent is currently a follower.
    pub fn contains(&self, entity: u64) -> (r: bool)
        ensures
            r == self.followers@.contains(entity),
    {
        let mut i: usize = 0;
        while i < self.followers.len()
            invariant
                i <= self.followers@.len(),
                forall|t: int| 0 <= t < i as int ==> self.followers@[t] != entity,
            decreases self.followers@.len() - i,
        {
            if self.followers[i] == entity {
                return true;
            }
            i = i + 1;
        }
        false
    }

    /// Adds a follower; adding one already present changes nothing.
    pub fn insert(&mut self, entity: u64)
        requires
            old(self).wf(),
        ensures
            final(self).wf(),
            old(self).followers@.contains(entity) ==> final(self).followers@ == old(self).followers@,
            !old(self).followers@.contains(entity) ==> final(self).followers@ == old(self).followers@.push(entity),
    {
        if !self.contains(entity) {
            self.followers.push(entity);
        }
    }

    /// Removes all followers.
    pub fn clear(&mut self)
        ensures
            final(self).wf(),
            final(self).followers@.len() == 0,
    {
        self.followers.clear();
    }
}

/// Center of dropzone grid slot `index`, for a square dropzone sized to hold
/// `n` agents: `ceil(sqrt(n))` columns of square cells, filled top-to-bottom
/// and left-to-right.
pub open spec fn slot_center_spec(dmin: (int, int), dmax: (int, int), n: int, index: int) -> (
    int,
    int,
) {
    let size = dmax.0 - dmin.0;
    let cols = sqrt_ceil(n);
    let cell = size / cols;
    (
        dmin.0 + (index % cols) * cell + cell / 2,
        dmin.1 + (cols - (index / cols) - 1) * cell + cell / 2,
    )
}

/// The agents already parked in the dropzone, in capture order.
pub struct IconCapturedGrid {
    pub captured: Vec<u64>,
}

impl IconCapturedGrid {
    pub fn new() -> (r: Self)
        ensures
            r.captured@.len() == 0,
    {
        IconCapturedGrid { captured: Vec::new() }
    }

    /// Appends a captured agent and returns the center of its grid slot.
    /// Slots past the nominal grid (more captures than `n_icons`) still get
    /// valid, denser coordinates below the dropzone; slots within it lie
    /// inside the dropzone rectangle.
    pub fn add_captured(&mut self, entity: u64, boundaries: &WorldBoundaryResource, n_icons: usize) -> (r:
        Vec2I)
        requires
            boundaries.wf(),
            boundaries.dropzone_max.x - boundaries.dropzone_min.x == boundaries.dropzone_max.y
                - boundaries.dropzone_min.y,
            1 <= n_icons <= 0xffff_ffff,
            old(self).captured@.len() <= 0xffff_ffff,
            sqrt_ceil(n_icons as int) <= boundaries.dropzone_max.x - boundaries.dropzone_min.x,
        ensures
            final(self).captured@ == old(self).captured@.push(entity),
            r@ == slot_center_spec(
                boundaries.dropzone_min@,
                boundaries.dropzone_max@,
                n_icons as int,
                old(self).captured@.len() as int,
            ),
            old(self).captured@.len() < n_icons ==> (boundaries.dropzone_min.x <= r.x
                <= boundaries.dropzone_max.x && boundaries.dropzone_min.y <= r.y
                <= boundaries.dropzone_max.y),
    {
        let index: usize = self.captured.len();
        self.captured.push(entity);
        let size: i64 = boundaries.dropzone_max.x - boundaries.dropzone_min.x;
        let cols_u: u64 = isqrt_ceil_u64(n_icons as u64);
        proof {
            lemma_sqrt_floor_bound(n_icons as int, 0x1_0000);
        }
        let cols: i64 = cols_u as i64;
        let icon_size: i64 = div_floor_i64(size, cols);
        let ix: i64 = ((index as u64) % cols_u) as i64;
        let iy: i64 = ((index as u64) / cols_u) as i64;
        let half: i64 = div_floor_i64(icon_size, 2);
        proof {
            vstd::arithmetic::div_mod::lemma_mod_bound(index as int, cols as int);
            vstd::arithmetic::div_mod::lemma_div_pos_is_pos(index as int, cols as int);
            vstd::arithmetic::div_mod::lemma_div_is_ordered(index as int, 0xffff_ffff, cols as int);
            assert((ix as int) * (icon_size as int) <= (cols as int - 1) * (icon_size as int))
                by (nonlinear_arith)
                requires
                    0 <= ix as int <= (cols as int) - 1,
                    icon_size >= 0,
            ;
            assert((cols as int) * (icon_size as int) <= size as int) by {
                vstd::arithmetic::div_mod::lemma_fundamental_div_mod(size as int, cols as int);
                vstd::arithmetic::div_mod::lemma_mod_bound(size as int, cols as int);
            }
            assert((cols as int - 1) * (icon_size as int) == (cols as int) * (icon_size as int)
                - icon_size as int) by (nonlinear_arith);
            assert(-0x4000_0000_0000_0000 <= (cols as int - iy as int - 1) * (icon_size as int)
                <= 0x4000_0000_0000_0000) by (nonlinear_arith)
                requires
                    0 <= iy as int <= 0xffff_ffff,
                    0 <= cols as int <= 0x1_0001,
                    0 <= icon_size as int <= 0x4000_0000,
            ;
        }
        let x: i64 = boundaries.dropzone_min.x + ix * icon_size + half;
        let y: i64 = boundaries.dropzone_min.y + (cols - iy - 1) * icon_size + half;
        proof {
            assert(index as int >= (cols as int) * (iy as int)) by {
                vstd::arithmetic::div_mod::lemma_fundamental_div_mod(index as int, cols as int);
                vstd::arithmetic::div_mod::lemma_mod_bound(index as int, cols as int);
            }
            if (index as int) < (n_icons as int) {
                assert((iy as int) < cols as int) by (nonlinear_arith)
                    requires
                        iy as int == index as int / cols as int,
                        (cols as int) * (cols as int) >= n_icons as int,
                        (index as int) < n_icons as int,
                        cols as int >= 1,
                        iy as int >= 0,
                        index as int >= (cols as int) * (iy as int),
                ;
                assert(0 <= (cols as int - iy as int - 1) * (icon_size as int) <= (cols as int - 1)
                    * (icon_size as int)) by (nonlinear_arith)
                    requires
                        0 <= cols as int - iy as int - 1 <= cols as int - 1,
                        icon_size >= 0,
                ;
                assert(0 <= half as int <= icon_size as int);
            }
        }
        Vec2I { x, y }
    }
}

/// Two different capture indices are never assigned the same slot center
/// within one round, as long as the grid cell is at least one unit wide.
pub proof fn lemma_slot_centers_distinct(dmin: (int, int), dmax: (int, int), n: int, i: int, j: int)
    requires
        0 <= i,
        0 <= j,
        i != j,
        sqrt_ceil(n) >= 1,
        (dmax.0 - dmin.0) / sqrt_ceil(n) >= 1,
    ensures
        slot_center_spec(dmin, dmax, n, i) != slot_center_spec(dmin, dmax, n, j),
{
    let size = dmax.0 - dmin.0;
    let cols = sqrt_ceil(n);
    let cell = size / cols;
    vstd::arithmetic::div_mod::lemma_fundamental_div_mod(i, cols);
    vstd::arithmetic::div_mod::lemma_fundamental_div_mod(j, cols);
    vstd::arithmetic::div_mod::lemma_mod_bound(i, cols);
    vstd::arithmetic::div_mod::lemma_mod_bound(j, cols);
    if i % cols != j % cols {
        assert((i % cols) * cell != (j % cols) * cell) by (nonlinear_arith)
            requires
                i % cols != j % cols,
                cell >= 1,
        ;
    } else {
        assert(i / cols != j / cols) by (nonlinear_arith)
            requires
                i == cols * (i / cols) + i % cols,
                j == cols * (j / cols) + j % cols,
                i % cols == j % cols,
                i != j,
        ;
        assert((cols - (i / cols) - 1) * cell != (cols - (j / cols) - 1) * cell)
            by (nonlinear_arith)
            requires
                i / cols != j / cols,
                cell >= 1,
        ;
    }
}

/// Finds the position of the agent with the given identity.
fn find_agent_index(agents: &Vec<Agent>, id: u64) -> (r: usize)
    requires
        exists|i: int| 0 <= i < agents@.len() && agents@[i].id == id,
    ensures
        r < agents@.len(),
        agents@[r as int].id == id,
{
    let alen: usize = agents.len();
    let mut i: usize = 0;
    while agents[i].id != id
        invariant
            alen == agents@.len(),
            i < alen,
            forall|t: int| 0 <= t < i as int ==> agents@[t].id != id,
            exists|t: int| i as int <= t < agents@.len() && agents@[t].id == id,
        decreases agents@.len() - i,
    {
        proof {
            let t = choose|t: int| i as int <= t < agents@.len() && agents@[t].id == id;
            assert(t >= i + 1);
        }
        i = i + 1;
    }
    i
}

/// Whether every agent is in `Player` or `Captured` mode — the round-won
/// condition.
pub fn all_parked(agents: &Vec<Agent>) -> (r: bool)
    ensures
        r == (forall|i: int|
            0 <= i < agents@.len() ==> (agents@[i].icon_type.0 is Player
                || #[trigger] agents@[i].icon_type.0 is Captured)),
{
    let mut i: usize = 0;
    while i < agents.len()
        invariant
            i <= agents@.len(),
            forall|t: int|
                0 <= t < i as int ==> (agents@[t].icon_type.0 is Player
                    || #[trigger] agents@[t].icon_type.0 is Captured),
        decreases agents@.len() - i,
    {
        let parked = match agents[i].icon_type.0 {
            Type::Player => true,
            Type::Captured => true,
            _ => false,
        };
        if !parked {
            return false;
        }
        i = i + 1;
    }
    true
}

/// Turns one free agent into a follower and records it in the follower set.
pub fn make_follower(agents: &mut Vec<Agent>, followers: &mut IconFollowers, entity: u64) -> (r:
    PlayerFollowEvent)
    requires
        old(followers).wf(),
        ids_distinct(old(agents)@),
        exists|i: int|
            0 <= i < old(agents)@.len() && old(agents)@[i].id == entity && old(agents)@[i].icon_type.0 is Free,
    ensures
        final(followers).wf(),
        old(followers).followers@.contains(entity) ==> final(followers).followers@ == old(followers).followers@,
        !old(followers).followers@.contains(entity) ==> final(followers).followers@ == old(followers).followers@.push(entity),
        followed(old(agents)@, final(agents)@, entity),
        r == (PlayerFollowEvent { entity }),
{
    let ghost pre = agents@;
    let i: usize = find_agent_index(agents, entity);
    proof {
        let w = choose|w: int|
            0 <= w < pre.len() && pre[w].id == entity && pre[w].icon_type.0 is Free;
        assert(w == i as int);
    }
    let cur: Agent = agents[i];
    let a: &mut Agent = &mut agents[i];
    *a = Agent { icon_type: IconType(Type::Follower), ..cur };
    followers.insert(entity);
    proof {
        assert(agents@[i as int] == Agent { icon_type: IconType(Type::Follower), ..pre[i as int] });
    }
    PlayerFollowEvent { entity }
}


/// The agent with identity `id` exists and is in `Free` mode.
pub open spec fn free_agent(agents: Seq<Agent>, id: u64) -> bool {
    exists|i: int|
        0 <= i < agents.len() && agents[i].id == id && #[trigger] agents[i].icon_type.0 is Free
}

/// `after` is `before` with exactly the agent of identity `id` switched to
/// `Follower` mode.
pub open spec fn followed(before: Seq<Agent>, after: Seq<Agent>, id: u64) -> bool {
    &&& after.len() == before.len()
    &&& exists|i: int|
        #![trigger before[i]]
        0 <= i < before.len() && before[i].id == id && after[i] == (Agent {
            icon_type: IconType(Type::Follower),
            ..before[i]
        }) && (forall|t: int| 0 <= t < before.len() && t != i ==> after[t] == before[t])
}

/// What a freshly captured agent looks like: same identity, parked at its
/// slot center, heading reset, frozen.
pub open spec fn parked(a: Agent, orig: Agent, slot: (int, int)) -> bool {
    &&& a.id == orig.id
    &&& a.transform.position@ == slot
    &&& a.transform.rotation == 0
    &&& a.velocity.0@ == (0int, 0int)
    &&& a.icon_type.0 is Captured
}

/// What one batch capture returns: the (capped) notifications and whether
/// the round was won by it.
pub struct CaptureOutcome {
    pub events: Vec<IconCaptureEvent>,
    pub round_won: bool,
}

/// When the player stands in the dropzone with followers, captures the whole
/// follower batch: each follower is parked on the next dropzone grid slot
/// (in follower order), frozen, marked `Captured`, and re-indexed once; the
/// score grows by `1 + floor(batch_size * multiplier)` per captured agent;
/// at most `MAX_CAPTURE_EVENTS` notifications are emitted; the follower set
/// is cleared; and the round is won exactly when no `Free` or `Follower`
/// agent remains. Otherwise nothing changes.
pub fn player_follower_dropzone(
    boundaries: &WorldBoundaryResource,
    followers: &mut IconFollowers,
    agents: &mut Vec<Agent>,
    player_position: Vec2I,
    captured: &mut IconCapturedGrid,
    spatial_index: &mut SpatialIndex,
    score: &mut crate::health::PlayerScore,
    settings: &SettingsResource,
) -> (r: CaptureOutcome)
    requires
        boundaries.wf(),
        settings.wf(),
        old(spatial_index).wf(),
        old(spatial_index).min == boundaries.bounds_min,
        old(spatial_index).max == boundaries.bounds_max,
        ids_distinct(old(agents)@),
        old(followers).wf(),
        forall|t: int|
            0 <= t < old(followers).followers@.len() ==> exists|i: int|
                0 <= i < old(agents)@.len() && old(agents)@[i].id == #[trigger] old(followers).followers@[t] && old(agents)@[i].icon_type.0 is Follower,
        boundaries.dropzone_max.x - boundaries.dropzone_min.x == boundaries.dropzone_max.y
            - boundaries.dropzone_min.y,
        2 <= old(agents)@.len() <= 1_000_000,
        sqrt_ceil(old(agents)@.len() - 1) <= boundaries.dropzone_max.x
            - boundaries.dropzone_min.x,
        old(captured).captured@.len() + old(followers).followers@.len() <= old(agents)@.len() - 1,
        old(score).score <= 0x1000_0000_0000_0000,
    ensures
        final(spatial_index).wf(),
        final(spatial_index).same_grid(*old(spatial_index)),
        // a batch of size k raises the score by exactly k * (1 + floor(k * m))
        boundaries.spec_in_dropzone(player_position) && old(followers).followers@.len() > 0
            ==> final(score).score == old(score).score + old(followers).followers@.len() * (
            1 + tdiv(
            old(followers).followers@.len() * settings.player_score_follower_multiplier,
            1000,
        )),
        ({
            let fired = boundaries.spec_in_dropzone(player_position) && old(followers).followers@.len() > 0;
            let fseq = old(followers).followers@;
            let k = fseq.len() as int;
            let pre = old(agents)@;
            let base = old(captured).captured@.len() as int;
            let n_icons = pre.len() - 1;
            let dmin = boundaries.dropzone_min@;
            let dmax = boundaries.dropzone_max@;
            &&& (!fired ==> *final(followers) == *old(followers) && final(agents)@ == pre
                && *final(captured) == *old(captured) && *final(spatial_index) == *old(
                spatial_index) && *final(score) == *old(score) && r.events@.len() == 0
                && !r.round_won)
            &&& (fired ==> {
                &&& final(score).score == old(score).score + k * (1 + tdiv(
                    k * settings.player_score_follower_multiplier,
                    1000,
                ))
                &&& final(followers).followers@.len() == 0
                &&& final(followers).wf()
                &&& final(captured).captured@ == old(captured).captured@ + fseq
                &&& final(agents)@.len() == pre.len()
                &&& (forall|i: int|
                    0 <= i < pre.len() && !fseq.contains(pre[i].id) ==> final(agents)@[i] == pre[i])
                &&& (forall|u: int|
                    0 <= u < k ==> exists|i: int|
                        0 <= i < pre.len() && pre[i].id == #[trigger] fseq[u] && parked(
                            final(agents)@[i],
                            pre[i],
                            slot_center_spec(dmin, dmax, n_icons, base + u),
                        ))
                &&& r.events@.len() == (if k < 10 { k } else { 10int })
                &&& (forall|e: int|
                    0 <= e < r.events@.len() ==> #[trigger] r.events@[e].entity == fseq[e])
                &&& r.round_won == (forall|i: int|
                    0 <= i < final(agents)@.len() ==> (final(agents)@[i].icon_type.0 is Player
                        || #[trigger] final(agents)@[i].icon_type.0 is Captured))
                &&& (forall|id: u64|
                    !fseq.contains(id) ==> (final(spatial_index).contents().contains_key(id)
                        == old(spatial_index).contents().contains_key(id) && (old(spatial_index).contents().contains_key(id) ==> final(spatial_index).contents()[id] == old(spatial_index).contents()[id])))
                &&& (forall|u: int|
                    0 <= u < k ==> (final(spatial_index).contents().contains_key(#[trigger] fseq[u])
                        && final(spatial_index).contents()[fseq[u]].0@ == slot_center_spec(
                        dmin,
                        dmax,
                        n_icons,
                        base + u,
                    ) && final(spatial_index).contents()[fseq[u]].1@ == (0int, 0int)))
            })
        }),
{
    let ghost pre = agents@;
    let ghost fseq = followers.followers@;
    let ghost base = captured.captured@.len() as int;
    let ghost cap0 = captured.captured@;
    let ghost score0 = score.score as int;
    let ghost c_orig = spatial_index.contents();
    let ghost dmin = boundaries.dropzone_min@;
    let ghost dmax = boundaries.dropzone_max@;
    let mut events: Vec<IconCaptureEvent> = Vec::new();
    if !(boundaries.in_dropzone(player_position) && followers.len() > 0) {
        return CaptureOutcome { events, round_won: false };
    }
    let n_icons: usize = agents.len() - 1;
    let k: usize = followers.len();
    let kw: i64 = k as i64;
    proof {
        assert(0 <= kw as int * settings.player_score_follower_multiplier <= 1_000_000_000_000)
            by (nonlinear_arith)
            requires
                0 <= kw as int <= 1_000_000,
                0 <= settings.player_score_follower_multiplier <= 1_000_000,
        ;
    }
    let bonus_product: i64 = kw * settings.player_score_follower_multiplier;
    proof {
        vstd::arithmetic::div_mod::lemma_div_pos_is_pos(bonus_product as int, 1000);
        vstd::arithmetic::div_mod::lemma_div_is_ordered(
            bonus_product as int,
            1_000_000_000_000,
            1000,
        );
    }
    let per: u64 = 1 + crate::math::div_trunc_i64(bonus_product, 1000) as u64;
    proof {
        assert((k as int) * (per as int) <= 1_000_000 * 1_000_000_001) by (nonlinear_arith)
            requires
                0 <= k as int <= 1_000_000,
                1 <= per as int <= 1_000_000_001,
        ;
    }
    proof {
        assert(captured.captured@ =~= cap0 + fseq.subrange(0, 0));
        assert forall|u: int| 0 <= u < k implies exists|i: int|
            0 <= i < pre.len() && pre[i].id == #[trigger] fseq[u]
                && pre[i].icon_type.0 is Follower by {
            assert(fseq[u] == old(followers).followers@[u]);
            let i0 = choose|i: int|
                0 <= i < old(agents)@.len() && old(agents)@[i].id == old(followers).followers@[u] && old(agents)@[i].icon_type.0 is Follower;
            assert(pre[i0].id == fseq[u] && pre[i0].icon_type.0 is Follower);
        }
    }
    let mut t: usize = 0;
    #[verifier::loop_isolation(false)]
    while t < k
        invariant
            boundaries.wf(),
            settings.wf(),
            spatial_index.wf(),
            spatial_index.same_grid(*old(spatial_index)),
            spatial_index.min == boundaries.bounds_min,
            spatial_index.max == boundaries.bounds_max,
            pre == old(agents)@,
            fseq == old(followers).followers@,
            base == old(captured).captured@.len() as int,
            cap0 == old(captured).captured@,
            score0 == old(score).score as int,
            c_orig == old(spatial_index).contents(),
            followers.followers@ == fseq,
            followers.wf(),
            k == fseq.len(),
            kw as int == k as int,
            2 <= pre.len() <= 1_000_000,
            n_icons as int == pre.len() - 1,
            1 <= n_icons,
            t <= k,
            base + k <= n_icons as int,
            0 <= base,
            dmin == boundaries.dropzone_min@,
            dmax == boundaries.dropzone_max@,
            boundaries.dropzone_max.x - boundaries.dropzone_min.x == boundaries.dropzone_max.y
                - boundaries.dropzone_min.y,
            sqrt_ceil(n_icons as int) <= boundaries.dropzone_max.x - boundaries.dropzone_min.x,
            per as int == 1 + tdiv(kw as int * settings.player_score_follower_multiplier, 1000),
            per as int <= 1_000_000_001,
            ids_distinct(pre),
            agents@.len() == pre.len(),
            forall|i: int| 0 <= i < pre.len() ==> #[trigger] agents@[i].id == pre[i].id,
            score.score as int == score0 + t as int * per as int,
            score0 <= 0x1000_0000_0000_0000,
            captured.captured@ == cap0 + fseq.subrange(0, t as int),
            forall|i: int|
                0 <= i < pre.len() && !fseq.subrange(0, t as int).contains(pre[i].id)
                    ==> #[trigger] agents@[i] == pre[i],
            forall|u: int|
                0 <= u < t as int ==> exists|i: int|
                    0 <= i < pre.len() && pre[i].id == #[trigger] fseq[u] && parked(
                        agents@[i],
                        pre[i],
                        slot_center_spec(dmin, dmax, n_icons as int, base + u),
                    ),
            events@.len() == (if t < 10 { t as int } else { 10int }),
            forall|e: int| 0 <= e < events@.len() ==> #[trigger] events@[e].entity == fseq[e],
            forall|id: u64|
                !fseq.subrange(0, t as int).contains(id) ==> (#[trigger] spatial_index.contents().contains_key(
                    id,
                ) == c_orig.contains_key(id) && (c_orig.contains_key(id)
                    ==> spatial_index.contents()[id] == c_orig[id])),
            forall|u: int|
                0 <= u < t as int ==> (spatial_index.contents().contains_key(#[trigger] fseq[u])
                    && spatial_index.contents()[fseq[u]].0@ == slot_center_spec(
                    dmin,
                    dmax,
                    n_icons as int,
                    base + u,
                ) && spatial_index.contents()[fseq[u]].1@ == (0int, 0int)),
        decreases k - t,
    {
        let ghost ag0 = agents@;
        let ghost chead = spatial_index.contents();
        let f: u64 = followers.followers[t];
        proof {
            assert(fseq[t as int] == f);
            let wi = choose|i: int|
                0 <= i < pre.len() && pre[i].id == fseq[t as int]
                    && pre[i].icon_type.0 is Follower;
            assert(agents@[wi].id == f);
        }
        let j: usize = find_agent_index(agents, f);
        let ghost precap = captured.captured@;
        proof {
            assert(precap.len() == cap0.len() + (t as int));
        }
        let new_position: Vec2I = captured.add_captured(f, boundaries, n_icons);
        proof {
            assert(precap.len() as int == base + t as int);
            assert(base + (t as int) < n_icons as int);
            assert(new_position.valid());
        }
        let cur: Agent = agents[j];
        let aref: &mut Agent = &mut agents[j];
        *aref = Agent {
            id: cur.id,
            transform: IconTransform { position: new_position, rotation: 0 },
            velocity: IconVelocity(Vec2I { x: 0, y: 0 }),
            icon_type: IconType(Type::Captured),
        };
        proof {
            assert((t as int + 1) * per as int == t as int * per as int + per as int)
                by (nonlinear_arith);
            assert((t as int + 1) * per as int <= 1_000_000 * 1_000_000_001) by (nonlinear_arith)
                requires
                    0 <= t as int + 1 <= 1_000_000,
                    1 <= per as int <= 1_000_000_001,
            ;
        }
        score.score = score.score + per;
        if events.len() < MAX_CAPTURE_EVENTS {
            events.push(IconCaptureEvent { entity: f });
        }
        let ghost c0 = spatial_index.contents();
        proof {
            spatial_index.lemma_in_grid_of_bounds(new_position@);
        }
        let zv: Vec2I = Vec2I { x: 0, y: 0 };
        spatial_index.insert(f, new_position, zv);
        proof {
            assert(spatial_index.contents() == c0.insert(f, (new_position, zv)));
            assert(fseq.subrange(0, t as int + 1) =~= fseq.subrange(0, t as int).push(
                fseq[t as int]));
            assert(captured.captured@ =~= cap0 + fseq.subrange(0, t as int + 1));
            // the updated agent satisfies `parked` for slot base + t
            assert(agents@[j as int].transform.position@ == slot_center_spec(
                dmin,
                dmax,
                n_icons as int,
                base + t as int,
            ));
            // distinctness of follower ids keeps earlier witnesses intact
            // agents untouched by this batch keep their state
            assert forall|i: int|
                0 <= i < pre.len() && !fseq.subrange(0, t as int + 1).contains(pre[i].id) implies
                agents@[i] == pre[i] by {
                assert(fseq.subrange(0, t as int + 1)[t as int] == fseq[t as int]);
                assert(fseq.subrange(0, t as int + 1).contains(fseq[t as int]));
                assert(pre[j as int].id == fseq[t as int]);
                assert(i != j as int);
                assert(!fseq.subrange(0, t as int).contains(pre[i].id)) by {
                    if fseq.subrange(0, t as int).contains(pre[i].id) {
                        let w = choose|w: int|
                            0 <= w < t as int && fseq.subrange(0, t as int)[w] == pre[i].id;
                        assert(fseq.subrange(0, t as int + 1)[w] == pre[i].id);
                    }
                }
                assert(agents@[i] == ag0[i]);
            }
            // index entries outside this batch keep their record
            assert forall|id: u64| !fseq.subrange(0, t as int + 1).contains(id) implies (
                #[trigger] spatial_index.contents().contains_key(id) == c_orig.contains_key(id) && (
                c_orig.contains_key(id) ==> spatial_index.contents()[id] == c_orig[id])) by {
                assert(fseq.subrange(0, t as int + 1)[t as int] == fseq[t as int]);
                assert(fseq.subrange(0, t as int + 1).contains(fseq[t as int]));
                assert(id != fseq[t as int]);
                assert(!fseq.subrange(0, t as int).contains(id)) by {
                    if fseq.subrange(0, t as int).contains(id) {
                        let w = choose|w: int|
                            0 <= w < t as int && fseq.subrange(0, t as int)[w] == id;
                        assert(fseq.subrange(0, t as int + 1)[w] == id);
                    }
                }
                assert(c0 == chead);
                assert(chead.contains_key(id) == c_orig.contains_key(id));
                assert(c_orig.contains_key(id) ==> chead[id] == c_orig[id]);
                assert(spatial_index.contents() == c0.insert(f, (new_position, zv)));
                assert(spatial_index.contents().contains_key(id) == c0.contains_key(id));
                assert(c0.contains_key(id) ==> spatial_index.contents()[id] == c0[id]);
            }
            assert forall|u: int| 0 <= u < t as int + 1 implies exists|i: int|
                0 <= i < pre.len() && pre[i].id == #[trigger] fseq[u] && parked(
                    agents@[i],
                    pre[i],
                    slot_center_spec(dmin, dmax, n_icons as int, base + u),
                ) by {
                if u < t as int {
                    let i0 = choose|i: int|
                        0 <= i < pre.len() && pre[i].id == fseq[u] && parked(
                            ag0[i],
                            pre[i],
                            slot_center_spec(dmin, dmax, n_icons as int, base + u),
                        );
                    assert(fseq[u] != fseq[t as int]);
                    assert(i0 != j as int);
                    assert(agents@[i0] == ag0[i0]);
                    assert(parked(
                        agents@[i0],
                        pre[i0],
                        slot_center_spec(dmin, dmax, n_icons as int, base + u),
                    ));
                } else {
                    assert(pre[j as int].id == fseq[u]);
                    assert(parked(
                        agents@[j as int],
                        pre[j as int],
                        slot_center_spec(dmin, dmax, n_icons as int, base + u),
                    ));
                }
            }
        }
        t = t + 1;
    }
    proof {
        assert(fseq.subrange(0, k as int) =~= fseq);
    }
    followers.clear();
    let won: bool = all_parked(agents);
    CaptureOutcome { events, round_won: won }
}


/// A player-fired projectile: where it spawned, where it is, how it moves.
#[derive(Clone, Copy, Debug, PartialEq, Eq, Structural)]
pub struct Projectile {
    pub start: Vec2I,
    pub position: Vec2I,
    pub velocity: Vec2I,
}

/// Cooldown between projectile volleys, in milliseconds left.
#[derive(Clone, Copy, Debug, PartialEq, Eq, Structural)]
pub struct ProjectileCooldown {
    pub remaining_ms: i64,
}

impl ProjectileCooldown {
    pub fn new() -> (r: Self)
        ensures
            r.remaining_ms == 0,
    {
        ProjectileCooldown { remaining_ms: 0 }
    }

    /// Advances time; firing is allowed when no time remains.
    pub fn tick(&mut self, dt_ms: i64) -> (ready: bool)
        requires
            0 <= dt_ms,
            0 <= old(self).remaining_ms,
        ensures
            final(self).remaining_ms == if old(self).remaining_ms <= dt_ms {
                0int
            } else {
                old(self).remaining_ms - dt_ms
            },
            ready == (final(self).remaining_ms == 0),
    {
        if self.remaining_ms <= dt_ms {
            self.remaining_ms = 0;
            true
        } else {
            self.remaining_ms = self.remaining_ms - dt_ms;
            false
        }
    }

    /// Starts the cooldown after a volley.
    pub fn arm(&mut self, cooldown_ms: i64)
        ensures
            final(self).remaining_ms == cooldown_ms,
    {
        self.remaining_ms = cooldown_ms;
    }
}

/// Quarter turn, in milliradians.
pub const HALF_PI_MRAD: i64 = 1_571;

/// The 45-degree volley spread, in milliradians.
pub const SPREAD_MRAD: i64 = 785;

/// Firing directions of one volley: one projectile per follower plus one,
/// capped at twenty, fanned evenly over the spread and centered on the
/// player's heading plus a quarter turn.
pub fn spawn_projectile_angles(player_rotation: i64, n_followers: usize) -> (r: Vec<i64>)
    requires
        -10_000 <= player_rotation <= 10_000,
    ensures
        r@.len() == (if n_followers < 19 { n_followers + 1 } else { 20int }),
        forall|i: int|
            0 <= i < r@.len() ==> #[trigger] r@[i] == player_rotation + HALF_PI_MRAD + i * (
            SPREAD_MRAD as int / r@.len() as int) + (SPREAD_MRAD as int / r@.len() as int) / 2
                - SPREAD_MRAD as int / 2,
{
    let n: usize = if n_followers < 19 {
        n_followers + 1
    } else {
        20
    };
    let step: i64 = ((SPREAD_MRAD as u64) / (n as u64)) as i64;
    let half_step: i64 = ((step as u64) / 2) as i64;
    let half_spread: i64 = ((SPREAD_MRAD as u64) / 2) as i64;
    let mut r: Vec<i64> = Vec::new();
    let mut i: usize = 0;
    while i < n
        invariant
            1 <= n <= 20,
            r@.len() == i as int,
            i <= n,
            0 <= step <= SPREAD_MRAD,
            step == SPREAD_MRAD as int / n as int,
            half_step == step as int / 2,
            half_spread == SPREAD_MRAD as int / 2,
            -10_000 <= player_rotation <= 10_000,
            forall|t: int|
                0 <= t < i as int ==> #[trigger] r@[t] == player_rotation + HALF_PI_MRAD + t * (
                step as int) + half_step - half_spread,
        decreases n - i,
    {
        proof {
            assert(0 <= (i as int) * (step as int) <= 20 * 785) by (nonlinear_arith)
                requires
                    0 <= i as int <= 20,
                    0 <= step as int <= 785,
            ;
        }
        r.push(player_rotation + HALF_PI_MRAD + (i as i64) * step + half_step - half_spread);
        i = i + 1;
    }
    r
}

/// What became of a projectile after one step.
#[derive(Clone, Copy, Debug, PartialEq, Eq, Structural)]
pub enum ProjectileFate {
    Flying,
    DespawnedInDropzone,
    DespawnedOutOfRange,
    Hit,
}

/// Advances one projectile by one frame: it moves along its velocity, then
/// despawns silently inside the dropzone or past its despawn distance;
/// otherwise, if any `Free` agent lies within half an icon of it, that agent
/// becomes a follower (regardless of any hover-hold progress) and the
/// projectile is consumed.
pub fn update_projectile(
    proj: &mut Projectile,
    agents: &mut Vec<Agent>,
    followers: &mut IconFollowers,
    spatial_index: &SpatialIndex,
    boundaries: &WorldBoundaryResource,
    settings: &SettingsResource,
    dt_ms: i64,
) -> (r: (ProjectileFate, Option<PlayerFollowEvent>))
    requires
        settings.wf(),
        boundaries.wf(),
        spatial_index.wf(),
        old(proj).position.valid(),
        old(proj).velocity.valid(),
        old(proj).start.valid(),
        0 <= dt_ms <= 10_000,
        ids_distinct(old(agents)@),
        old(followers).wf(),
        -COORD_LIMIT <= old(proj).position@.0 + tdiv(old(proj).velocity@.0 * dt_ms, 1000)
            <= COORD_LIMIT,
        -COORD_LIMIT <= old(proj).position@.1 + tdiv(old(proj).velocity@.1 * dt_ms, 1000)
            <= COORD_LIMIT,
    ensures
        final(proj).start == old(proj).start,
        final(proj).velocity == old(proj).velocity,
        final(proj).position@ == vadd(
            old(proj).position@,
            vdiv(vscale(old(proj).velocity@, dt_ms as int), 1000),
        ),
        final(followers).wf(),
        ({
            let newpos = final(proj).position;
            let gone_dz = boundaries.spec_in_dropzone(newpos);
            let gone_range = !gone_dz && dist_sq(newpos@, old(proj).start@) >= (
            settings.projectile_despawn_distance as int) * (
            settings.projectile_despawn_distance as int);
            let reachable = exists|kk: u64|
                #[trigger] spatial_index.qualifies(kk, newpos@, crate::ICON_SIZE as int / 2)
                    && free_agent(old(agents)@, kk);
            &&& (gone_dz ==> r.0 is DespawnedInDropzone && final(agents)@ == old(agents)@
                && *final(followers) == *old(followers) && r.1 is None)
            &&& (gone_range ==> r.0 is DespawnedOutOfRange && final(agents)@ == old(agents)@
                && *final(followers) == *old(followers) && r.1 is None)
            &&& (!gone_dz && !gone_range && !reachable ==> r.0 is Flying && final(agents)@ == old(agents)@ && *final(followers) == *old(followers) && r.1 is None)
            &&& (!gone_dz && !gone_range && reachable ==> r.0 is Hit && (exists|kk: u64|
                #![trigger spatial_index.qualifies(kk, newpos@, crate::ICON_SIZE as int / 2)]
                spatial_index.qualifies(kk, newpos@, crate::ICON_SIZE as int / 2) && free_agent(
                    old(agents)@,
                    kk,
                ) && followed(old(agents)@, final(agents)@, kk) && r.1 == Some(
                    PlayerFollowEvent { entity: kk },
                ) && (!old(followers).followers@.contains(kk) ==> final(followers).followers@
                    == old(followers).followers@.push(kk)) && (old(followers).followers@.contains(kk) ==> final(followers).followers@ == old(followers).followers@)))
        }),
{
    proof {
        crate::vec2::lemma_mul_abs_bound(
            proj.velocity.x as int,
            dt_ms as int,
            COORD_LIMIT as int,
            10_000,
        );
        crate::vec2::lemma_mul_abs_bound(
            proj.velocity.y as int,
            dt_ms as int,
            COORD_LIMIT as int,
            10_000,
        );
    }
    let dxs: i64 = crate::math::div_trunc_i64(proj.velocity.x * dt_ms, 1000);
    let dys: i64 = crate::math::div_trunc_i64(proj.velocity.y * dt_ms, 1000);
    let newpos = Vec2I { x: proj.position.x + dxs, y: proj.position.y + dys };
    proj.position = newpos;
    if boundaries.in_dropzone(newpos) {
        return (ProjectileFate::DespawnedInDropzone, None);
    }
    let d2: i64 = newpos.dist_sq(proj.start);
    proof {
        crate::vec2::lemma_square_range(
            settings.projectile_despawn_distance as int,
            COORD_LIMIT as int,
        );
    }
    if d2 >= settings.projectile_despawn_distance * settings.projectile_despawn_distance {
        return (ProjectileFate::DespawnedOutOfRange, None);
    }
    let hits: Vec<crate::spatial::SpatialQueryResult> = spatial_index.query(
        newpos,
        crate::ICON_SIZE / 2,
    );
    let mut i: usize = 0;
    #[verifier::loop_isolation(false)]
    while i < hits.len()
        invariant
            agents@ == old(agents)@,
            *followers == *old(followers),
            forall|t: int| 0 <= t < i as int ==> !free_agent(agents@, #[trigger] hits@[t].key),
            i <= hits@.len(),
        decreases hits@.len() - i,
    {
        let key: u64 = hits[i].key;
        if is_free(agents, key) {
            let ev = make_follower(agents, followers, key);
            proof {
                assert(spatial_index.qualifies(key, newpos@, crate::ICON_SIZE as int / 2));
            }
            return (ProjectileFate::Hit, Some(ev));
        }
        i = i + 1;
    }
    proof {
        assert forall|kk: u64|
            spatial_index.qualifies(kk, newpos@, crate::ICON_SIZE as int / 2) implies !free_agent(
            agents@,
            kk,
        ) by {
            let w = choose|w: int| 0 <= w < hits@.len() && hits@[w].key == kk;
        }
    }
    (ProjectileFate::Flying, None)
}

/// Whether the identified agent exists and is in `Free` mode.
fn is_free(agents: &Vec<Agent>, id: u64) -> (r: bool)
    ensures
        r == free_agent(agents@, id),
{
    let mut i: usize = 0;
    while i < agents.len()
        invariant
            i <= agents@.len(),
            forall|t: int|
                0 <= t < i as int ==> !(agents@[t].id == id
                    && #[trigger] agents@[t].icon_type.0 is Free),
        decreases agents@.len() - i,
    {
        let a = agents[i];
        if a.id == id {
            let free = match a.icon_type.0 {
                Type::Free => true,
                _ => false,
            };
            if free {
                return true;
            }
        }
        i = i + 1;
    }
    false
}

/// Hover-hold capture progress: the agent currently hovered with the input
/// held, and for how long.
#[derive(Clone, Copy, Debug, PartialEq, Eq, Structural)]
pub struct CaptureProgress {
    pub target: Option<u64>,
    pub elapsed_ms: i64,
}

/// The agent currently under the cursor, if any.
#[derive(Clone, Copy, Debug, PartialEq, Eq, Structural)]
pub struct HoveredIcon(pub Option<u64>);

/// Advances the hover-hold interaction: releasing the input or leaving the
/// target resets the progress; holding on one free agent accumulates time,
/// and once the configured capture duration is reached the agent becomes a
/// follower and the progress resets.
pub fn update_hover_capture(
    progress: &mut CaptureProgress,
    agents: &mut Vec<Agent>,
    followers: &mut IconFollowers,
    hovered: HoveredIcon,
    held: bool,
    dt_ms: i64,
    settings: &SettingsResource,
) -> (r: Option<PlayerFollowEvent>)
    requires
        settings.wf(),
        ids_distinct(old(agents)@),
        old(followers).wf(),
        0 <= dt_ms <= 86_400_000,
        0 <= old(progress).elapsed_ms <= 0x1000_0000_0000,
        hovered.0 matches Some(id) ==> free_agent(old(agents)@, id),
    ensures
        final(followers).wf(),
        (!held || hovered.0 is None) ==> (final(progress).target is None && final(progress).elapsed_ms == 0 && final(agents)@ == old(agents)@ && *final(followers) == *old(followers)
            && r is None),
        hovered.0 matches Some(id) ==> (held ==> ({
            let accum = if old(progress).target == Some(id) {
                old(progress).elapsed_ms + dt_ms
            } else {
                dt_ms as int
            };
            &&& (accum < settings.capture_time ==> final(progress).target == Some(id) && final(progress).elapsed_ms == accum && final(agents)@ == old(agents)@ && *final(followers) == *old(followers) && r is None)
            &&& (accum >= settings.capture_time ==> final(progress).target is None && final(progress).elapsed_ms == 0 && followed(old(agents)@, final(agents)@, id) && r == Some(
                PlayerFollowEvent { entity: id },
            ) && (!old(followers).followers@.contains(id) ==> final(followers).followers@ == old(followers).followers@.push(id)) && (old(followers).followers@.contains(id) ==> final(followers).followers@ == old(followers).followers@))
        })),
{
    let target: u64;
    match hovered.0 {
        None => {
            progress.target = None;
            progress.elapsed_ms = 0;
            return None;
        },
        Some(id) => {
            target = id;
        },
    }
    if !held {
        progress.target = None;
        progress.elapsed_ms = 0;
        return None;
    }
    let same = match progress.target {
        Some(prev) => prev == target,
        None => false,
    };
    let accum: i64 = if same {
        progress.elapsed_ms + dt_ms
    } else {
        dt_ms
    };
    if accum >= settings.capture_time {
        progress.target = None;
        progress.elapsed_ms = 0;
        let ev = make_follower(agents, followers, target);
        Some(ev)
    } else {
        progress.target = Some(target);
        progress.elapsed_ms = accum;
        None
    }
}

} // verus!
