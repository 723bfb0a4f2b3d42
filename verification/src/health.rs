//! Player score, health, and contact damage.

use vstd::prelude::*;

verus! {

use crate::components::{Agent, Type};
use crate::events::PlayerDamageEvent;
use crate::math::tdiv;
use crate::settings::SettingsResource;
use crate::spatial::SpatialQueryResult;
use crate::vec2::Vec2I;
use crate::world::WorldBoundaryResource;

/// The player's score.
#[derive(Clone, Copy, Debug, PartialEq, Eq, Structural)]
pub struct PlayerScore {
    pub score: u64,
}

/// The player's health; the round is lost when it reaches zero.
#[derive(Clone, Copy, Debug, PartialEq, Eq, Structural)]
pub struct PlayerHealth {
    pub health: i64,
    pub max_health: i64,
}

/// Cooldown between contact-damage applications, in milliseconds left.
#[derive(Clone, Copy, Debug, PartialEq, Eq, Structural)]
pub struct PlayerDamageCooldown {
    pub remaining_ms: i64,
}

impl PlayerDamageCooldown {
    pub fn new() -> (r: Self)
        ensures
            r.remaining_ms == 0,
    {
        PlayerDamageCooldown { remaining_ms: 0 }
    }

    /// Advances time; the cooldown is over when no time remains.
    pub fn tick(&mut self, dt_ms: i64) -> (ready: bool)
        requires
            0 <= dt_ms,
            0 <= old(self).remaining_ms,
        ensures
            final(self).remaining_ms == if old(self).remaining_ms <= dt_ms {
                0int
            } else {
                old(self).remaining_ms - dt_ms
            },
            ready == (final(self).remaining_ms == 0),
    {
        if self.remaining_ms <= dt_ms {
            self.remaining_ms = 0;
            true
        } else {
            self.remaining_ms = self.remaining_ms - dt_ms;
            false
        }
    }
}

/// Resets score, health and damage cooldown for a new round.
pub fn reset_resources(
    score: &mut PlayerScore,
    health: &mut PlayerHealth,
    cooldown: &mut PlayerDamageCooldown,
    settings: &SettingsResource,
)
    ensures
        final(score).score == 0,
        final(health).health == settings.player_max_health,
        final(health).max_health == settings.player_max_health,
        final(cooldown).remaining_ms == 0,
{
    score.score = 0;
    health.health = settings.player_max_health;
    health.max_health = settings.player_max_health;
    cooldown.remaining_ms = 0;
}

/// Whether the agent with identity `id` damages the player on contact: it
/// exists and is in `Free` or `Follower` mode.
pub open spec fn damaging(agents: Seq<Agent>, id: u64) -> bool {
    exists|i: int|
        0 <= i < agents.len() && agents[i].id == id && (agents[i].icon_type.0 is Free
            || #[trigger] agents[i].icon_type.0 is Follower)
}

/// How many query hits touch a damaging agent.
pub open spec fn damaging_count(hits: Seq<SpatialQueryResult>, agents: Seq<Agent>) -> int
    decreases hits.len(),
{
    if hits.len() == 0 {
        0
    } else {
        damaging_count(hits.drop_last(), agents) + if damaging(agents, hits.last().key) {
            1int
        } else {
            0int
        }
    }
}

/// Contact damage per touching agent: the base amount plus a per-mille bonus
/// for every follower currently held.
pub open spec fn damage_amount_spec(settings: SettingsResource, follower_count: int) -> int {
    settings.player_damage_amount + tdiv(
        follower_count * settings.player_damage_follower_multiplier,
        1000,
    )
}

/// Applies contact damage from the agents currently touching the player.
/// Damage is suppressed inside the dropzone, rate-limited by the cooldown,
/// scales with the current follower count, and hits once per touching `Free`
/// or `Follower` agent. Returns one event per application; the round is lost
/// when health drops to zero or below.
pub fn damage_player(
    health: &mut PlayerHealth,
    cooldown: &mut PlayerDamageCooldown,
    player_position: Vec2I,
    hits: &Vec<SpatialQueryResult>,
    agents: &Vec<Agent>,
    follower_count: usize,
    boundaries: &WorldBoundaryResource,
    settings: &SettingsResource,
    dt_ms: i64,
) -> (r: (Vec<PlayerDamageEvent>, bool))
    requires
        settings.wf(),
        0 <= dt_ms,
        0 <= old(cooldown).remaining_ms,
        -0x1_0000_0000_0000 <= old(health).health <= 0x1_0000_0000_0000,
        hits@.len() <= 1_000_000,
        follower_count <= 1_000_000,
    ensures
        ({
            let dmg = damage_amount_spec(*settings, follower_count as int);
            let cnt = damaging_count(hits@, agents@);
            let suppressed = boundaries.spec_in_dropzone(player_position);
            let pending = !(if old(cooldown).remaining_ms <= dt_ms {
                0int
            } else {
                old(cooldown).remaining_ms - dt_ms
            } == 0);
            &&& (suppressed ==> *final(health) == *old(health) && *final(cooldown) == *old(
                cooldown) && r.0@.len() == 0 && !r.1)
            &&& (!suppressed && pending ==> *final(health) == *old(health)
                && final(cooldown).remaining_ms == old(cooldown).remaining_ms - dt_ms
                && r.0@.len() == 0 && !r.1)
            &&& (!suppressed && !pending ==> {
                &&& final(health).health == old(health).health - cnt * dmg
                &&& final(health).max_health == old(health).max_health
                &&& r.0@.len() == cnt
                &&& (forall|e: int| 0 <= e < r.0@.len() ==> #[trigger] r.0@[e].amount == dmg)
                &&& r.1 == (final(health).health <= 0 && cnt > 0)
                &&& final(cooldown).remaining_ms == (if cnt > 0 {
                    settings.player_damage_cooldown as int
                } else {
                    0int
                })
            })
        }),
{
    let mut events: Vec<PlayerDamageEvent> = Vec::new();
    if boundaries.in_dropzone(player_position) {
        return (events, false);
    }
    let ready = cooldown.tick(dt_ms);
    if !ready {
        return (events, false);
    }
    let fc: i64 = follower_count as i64;
    proof {
        assert(0 <= fc as int * settings.player_damage_follower_multiplier
            <= 1_000_000_000_000) by (nonlinear_arith)
            requires
                0 <= fc as int <= 1_000_000,
                0 <= settings.player_damage_follower_multiplier <= 1_000_000,
        ;
    }
    let product: i64 = fc * settings.player_damage_follower_multiplier;
    proof {
        vstd::arithmetic::div_mod::lemma_div_pos_is_pos(product as int, 1000);
        lemma_tdiv_le(product as int, 1000);
    }
    let damage: i64 = settings.player_damage_amount + crate::math::div_trunc_i64(product, 1000);
    let mut hit_count: usize = 0;
    let mut i: usize = 0;
    while i < hits.len()
        invariant
            i <= hits@.len(),
            hits@.len() <= 1_000_000,
            hit_count as int == damaging_count(hits@.subrange(0, i as int), agents@),
            hit_count <= i,
            events@.len() == hit_count as int,
            forall|e: int| 0 <= e < events@.len() ==> #[trigger] events@[e].amount == damage as int,
        decreases hits@.len() - i,
    {
        let h: SpatialQueryResult = hits[i];
        proof {
            assert(hits@.subrange(0, i as int + 1).drop_last() =~= hits@.subrange(0, i as int));
            assert(hits@.subrange(0, i as int + 1).last() == h);
        }
        if is_damaging(agents, h.key) {
            hit_count = hit_count + 1;
            events.push(PlayerDamageEvent { amount: damage });
        }
        i = i + 1;
    }
    proof {
        assert(hits@.subrange(0, hits@.len() as int) =~= hits@);
        lemma_damaging_count_le(hits@, agents@);
        assert((hit_count as int) * (damage as int) <= 1_000_000 * (damage as int))
            by (nonlinear_arith)
            requires
                0 <= hit_count as int <= 1_000_000,
                damage as int >= 0,
        ;
        assert((hit_count as int) * (damage as int) >= 0) by (nonlinear_arith)
            requires
                hit_count as int >= 0,
                damage as int >= 0,
        ;
        assert(1_000_000 * (damage as int) <= 1_000_000 * 1_000_001_000_000) by (nonlinear_arith)
            requires
                0 <= damage as int <= 1_000_001_000_000,
        ;
    }
    let delta: i64 = (hit_count as i64) * damage;
    health.health = health.health - delta;
    let lost = health.health <= 0 && hit_count > 0;
    if hit_count > 0 {
        cooldown.remaining_ms = settings.player_damage_cooldown;
    }
    (events, lost)
}

/// Truncating division by a positive divisor never exceeds a nonnegative
/// dividend.
proof fn lemma_tdiv_le(a: int, b: int)
    requires
        0 <= a,
        1 <= b,
    ensures
        tdiv(a, b) <= a,
{
    vstd::arithmetic::div_mod::lemma_fundamental_div_mod(a, b);
    vstd::arithmetic::div_mod::lemma_div_pos_is_pos(a, b);
    assert(a / b <= a) by (nonlinear_arith)
        requires
            a == b * (a / b) + a % b,
            a % b >= 0,
            b >= 1,
            a / b >= 0,
    ;
}

/// The damaging count never exceeds the number of hits.
proof fn lemma_damaging_count_le(hits: Seq<SpatialQueryResult>, agents: Seq<Agent>)
    ensures
        0 <= damaging_count(hits, agents) <= hits.len(),
    decreases hits.len(),
{
    if hits.len() > 0 {
        lemma_damaging_count_le(hits.drop_last(), agents);
    }
}

/// Whether the identified agent is in `Free` or `Follower` mode.
fn is_damaging(agents: &Vec<Agent>, id: u64) -> (r: bool)
    ensures
        r == damaging(agents@, id),
{
    let mut i: usize = 0;
    while i < agents.len()
        invariant
            i <= agents@.len(),
            forall|t: int|
                0 <= t < i as int ==> !(agents@[t].id == id && (agents@[t].icon_type.0 is Free
                    || #[trigger] agents@[t].icon_type.0 is Follower)),
        decreases agents@.len() - i,
    {
        let a = agents[i];
        if a.id == id {
            let dmg = match a.icon_type.0 {
                Type::Free => true,
                Type::Follower => true,
                _ => false,
            };
            if dmg {
                return true;
            }
        }
        i = i + 1;
    }
    false
}

} // verus!
