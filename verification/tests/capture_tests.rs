use iconwars_core::capture::{
    player_follower_dropzone, spawn_projectile_angles, update_hover_capture, update_projectile,
    CaptureProgress, HoveredIcon, IconCapturedGrid, IconFollowers, Projectile, ProjectileFate,
};
use iconwars_core::components::{Agent, IconTransform, IconType, IconVelocity, Type};
use iconwars_core::controller::{normalize_angle, update_player_velocity};
use iconwars_core::events::PlayerFollowEvent;
use iconwars_core::health::{damage_player, PlayerDamageCooldown, PlayerHealth, PlayerScore};
use iconwars_core::icons::{fix_free_items_in_dropzone, init_icons, random_position_in_bounds};
use iconwars_core::math::{div_floor_i64, div_trunc_i64, isqrt_u64};
use iconwars_core::roaming::{apply_icon_velocity, update_icon_roaming_velocity, UpdateTimer};
use iconwars_core::settings::SettingsResource;
use iconwars_core::spatial::{SpatialIndex, SpatialQueryResult};
use iconwars_core::vec2::Vec2I;
use iconwars_core::world::WorldBoundaryResource;
use iconwars_core::SPATIAL_GRID_SIZE;

fn v(x: i64, y: i64) -> Vec2I {
    Vec2I { x, y }
}

/// The scenario world: bounds `[-100, 100]^2`, dropzone `[-10, 10]^2`, in
/// milli-units.
fn scenario_world() -> WorldBoundaryResource {
    WorldBoundaryResource {
        grid_spacing: 1_000,
        bounds_min: v(-100_000, -100_000),
        bounds_max: v(100_000, 100_000),
        dropzone_min: v(-10_000, -10_000),
        dropzone_max: v(10_000, 10_000),
    }
}

fn scenario_index(b: &WorldBoundaryResource) -> SpatialIndex {
    SpatialIndex::new(b.bounds_min, b.bounds_max, SPATIAL_GRID_SIZE)
}

fn agent(id: u64, pos: Vec2I, ty: Type) -> Agent {
    Agent {
        id,
        transform: IconTransform { position: pos, rotation: 0 },
        velocity: IconVelocity(v(0, 0)),
        icon_type: IconType(ty),
    }
}

#[test]
fn test_capture_batch_scenario() {
    // player at (5, 5) inside the dropzone with two followers: both are
    // captured at distinct slots inside the dropzone, and the score grows by
    // 2 + 2 * floor(2 * multiplier) = 2 with the stock multiplier of 0.1
    let b = scenario_world();
    let settings = SettingsResource::default();
    let mut agents = vec![
        agent(0, v(5_000, 5_000), Type::Player),
        agent(1, v(50_000, 0), Type::Follower),
        agent(2, v(60_100, 0), Type::Follower),
    ];
    let mut followers = IconFollowers::new();
    followers.insert(1);
    followers.insert(2);
    let mut captured = IconCapturedGrid::new();
    let mut index = scenario_index(&b);
    let mut score = PlayerScore { score: 0 };
    let outcome = player_follower_dropzone(
        &b,
        &mut followers,
        &mut agents,
        v(5_000, 5_000),
        &mut captured,
        &mut index,
        &mut score,
        &settings,
    );
    assert_eq!(score.score, 2);
    assert_eq!(outcome.events.len(), 2);
    assert_eq!(outcome.events[0].entity, 1);
    assert_eq!(outcome.events[1].entity, 2);
    assert_eq!(followers.len(), 0);
    for i in 1..3 {
        assert_eq!(agents[i].icon_type, IconType(Type::Captured));
        let p = agents[i].transform.position;
        assert!(-10_000 <= p.x && p.x <= 10_000);
        assert!(-10_000 <= p.y && p.y <= 10_000);
        assert_eq!(agents[i].velocity.0, v(0, 0));
        assert_eq!(agents[i].transform.rotation, 0);
    }
    // no two capture indices share a slot center
    assert_ne!(agents[1].transform.position, agents[2].transform.position);
    // everyone is Player or Captured: the round is won
    assert!(outcome.round_won);
}

#[test]
fn test_capture_batch_score_formula() {
    // batch of size 2 with multiplier 1.5: each captured agent is worth
    // 1 + floor(2 * 1.5) = 4 points, 8 in total
    let b = scenario_world();
    let mut settings = SettingsResource::default();
    settings.player_score_follower_multiplier = 1_500;
    let mut agents = vec![
        agent(0, v(0, 0), Type::Player),
        agent(1, v(50_000, 0), Type::Follower),
        agent(2, v(60_100, 0), Type::Follower),
        agent(3, v(80_000, 0), Type::Free),
    ];
    let mut followers = IconFollowers::new();
    followers.insert(1);
    followers.insert(2);
    let mut captured = IconCapturedGrid::new();
    let mut index = scenario_index(&b);
    let mut score = PlayerScore { score: 0 };
    let outcome = player_follower_dropzone(
        &b,
        &mut followers,
        &mut agents,
        v(0, 0),
        &mut captured,
        &mut index,
        &mut score,
        &settings,
    );
    assert_eq!(score.score, 8);
    // one Free agent remains: not a victory
    assert!(!outcome.round_won);
}

#[test]
fn test_round_won_detected_exactly_once() {
    let b = scenario_world();
    let settings = SettingsResource::default();
    let mut agents = vec![
        agent(0, v(5_000, 5_000), Type::Player),
        agent(1, v(50_000, 0), Type::Follower),
        agent(2, v(60_100, 0), Type::Follower),
    ];
    let mut followers = IconFollowers::new();
    followers.insert(1);
    followers.insert(2);
    let mut captured = IconCapturedGrid::new();
    let mut index = scenario_index(&b);
    let mut score = PlayerScore { score: 0 };
    let first = player_follower_dropzone(
        &b,
        &mut followers,
        &mut agents,
        v(5_000, 5_000),
        &mut captured,
        &mut index,
        &mut score,
        &settings,
    );
    assert!(first.round_won);
    // the follower set was cleared, so the next tick reports no new win
    let second = player_follower_dropzone(
        &b,
        &mut followers,
        &mut agents,
        v(5_000, 5_000),
        &mut captured,
        &mut index,
        &mut score,
        &settings,
    );
    assert!(!second.round_won);
    assert_eq!(second.events.len(), 0);
    assert_eq!(score.score, 2);
}

#[test]
fn test_capture_outside_dropzone_is_noop() {
    let b = scenario_world();
    let settings = SettingsResource::default();
    let mut agents = vec![
        agent(0, v(50_000, 50_000), Type::Player),
        agent(1, v(50_000, 0), Type::Follower),
    ];
    let mut followers = IconFollowers::new();
    followers.insert(1);
    let mut captured = IconCapturedGrid::new();
    let mut index = scenario_index(&b);
    let mut score = PlayerScore { score: 0 };
    let outcome = player_follower_dropzone(
        &b,
        &mut followers,
        &mut agents,
        v(50_000, 50_000),
        &mut captured,
        &mut index,
        &mut score,
        &settings,
    );
    assert_eq!(score.score, 0);
    assert_eq!(followers.len(), 1);
    assert_eq!(agents[1].icon_type, IconType(Type::Follower));
    assert!(!outcome.round_won);
}

#[test]
fn test_hover_hold_captures_after_duration() {
    // a Free agent at the origin; a hover-hold for the full configured
    // duration turns it into a follower
    let settings = SettingsResource::default();
    let mut agents = vec![
        agent(0, v(1_000, 0), Type::Player),
        agent(1, v(0, 0), Type::Free),
    ];
    let mut followers = IconFollowers::new();
    let mut progress = CaptureProgress { target: None, elapsed_ms: 0 };
    let r = update_hover_capture(
        &mut progress,
        &mut agents,
        &mut followers,
        HoveredIcon(Some(1)),
        true,
        100,
        &settings,
    );
    assert_eq!(r, Some(PlayerFollowEvent { entity: 1 }));
    assert_eq!(agents[1].icon_type, IconType(Type::Follower));
    assert_eq!(followers.len(), 1);
    assert_eq!(progress.target, None);
    assert_eq!(progress.elapsed_ms, 0);
}

#[test]
fn test_hover_hold_partial_then_release_resets() {
    let settings = SettingsResource::default();
    let mut agents = vec![
        agent(0, v(1_000, 0), Type::Player),
        agent(1, v(0, 0), Type::Free),
    ];
    let mut followers = IconFollowers::new();
    let mut progress = CaptureProgress { target: None, elapsed_ms: 0 };
    let r = update_hover_capture(
        &mut progress,
        &mut agents,
        &mut followers,
        HoveredIcon(Some(1)),
        true,
        60,
        &settings,
    );
    assert_eq!(r, None);
    assert_eq!(progress.target, Some(1));
    assert_eq!(progress.elapsed_ms, 60);
    // releasing the input resets the progress
    let r2 = update_hover_capture(
        &mut progress,
        &mut agents,
        &mut followers,
        HoveredIcon(Some(1)),
        false,
        60,
        &settings,
    );
    assert_eq!(r2, None);
    assert_eq!(progress.target, None);
    assert_eq!(progress.elapsed_ms, 0);
    assert_eq!(agents[1].icon_type, IconType(Type::Free));
}

#[test]
fn test_hover_hold_target_change_restarts() {
    let settings = SettingsResource::default();
    let mut agents = vec![
        agent(0, v(1_000, 0), Type::Player),
        agent(1, v(0, 0), Type::Free),
        agent(2, v(70_000, 0), Type::Free),
    ];
    let mut followers = IconFollowers::new();
    let mut progress = CaptureProgress { target: Some(2), elapsed_ms: 90 };
    let r = update_hover_capture(
        &mut progress,
        &mut agents,
        &mut followers,
        HoveredIcon(Some(1)),
        true,
        60,
        &settings,
    );
    // the hovered target changed, so the old progress does not carry over
    assert_eq!(r, None);
    assert_eq!(progress.target, Some(1));
    assert_eq!(progress.elapsed_ms, 60);
}

#[test]
fn test_projectile_hit_captures_free_agent() {
    // a projectile and a Free agent at the same position: the agent becomes
    // a follower and the projectile is consumed
    let b = scenario_world();
    let settings = SettingsResource::default();
    let mut agents = vec![
        agent(0, v(50_000, 50_000), Type::Player),
        agent(1, v(20_000, 0), Type::Free),
    ];
    let mut followers = IconFollowers::new();
    let mut index = scenario_index(&b);
    index.insert(1, v(20_000, 0), v(0, 0));
    let mut proj = Projectile { start: v(20_000, 0), position: v(20_000, 0), velocity: v(0, 0) };
    let (fate, ev) = update_projectile(
        &mut proj,
        &mut agents,
        &mut followers,
        &index,
        &b,
        &settings,
        16,
    );
    assert_eq!(fate, ProjectileFate::Hit);
    assert_eq!(ev, Some(PlayerFollowEvent { entity: 1 }));
    assert_eq!(agents[1].icon_type, IconType(Type::Follower));
    assert_eq!(followers.len(), 1);
}

#[test]
fn test_projectile_despawns_in_dropzone() {
    let b = scenario_world();
    let settings = SettingsResource::default();
    let mut agents = vec![agent(0, v(50_000, 50_000), Type::Player)];
    let mut followers = IconFollowers::new();
    let index = scenario_index(&b);
    let mut proj = Projectile { start: v(0, 0), position: v(0, 0), velocity: v(0, 0) };
    let (fate, ev) = update_projectile(
        &mut proj,
        &mut agents,
        &mut followers,
        &index,
        &b,
        &settings,
        16,
    );
    assert_eq!(fate, ProjectileFate::DespawnedInDropzone);
    assert_eq!(ev, None);
}

#[test]
fn test_projectile_despawns_out_of_range() {
    let b = scenario_world();
    let mut settings = SettingsResource::default();
    settings.projectile_despawn_distance = 100_000;
    let mut agents = vec![agent(0, v(50_000, 50_000), Type::Player)];
    let mut followers = IconFollowers::new();
    let index = scenario_index(&b);
    let mut proj = Projectile {
        start: v(-80_000, -80_000),
        position: v(30_000, 30_000),
        velocity: v(0, 0),
    };
    let (fate, ev) = update_projectile(
        &mut proj,
        &mut agents,
        &mut followers,
        &index,
        &b,
        &settings,
        16,
    );
    assert_eq!(fate, ProjectileFate::DespawnedOutOfRange);
    assert_eq!(ev, None);
}

#[test]
fn test_spawn_projectile_angles() {
    let single = spawn_projectile_angles(0, 0);
    assert_eq!(single, vec![1_571]);
    let pair = spawn_projectile_angles(0, 1);
    assert_eq!(pair, vec![1_375, 1_767]);
    // capped at twenty projectiles
    let many = spawn_projectile_angles(0, 100);
    assert_eq!(many.len(), 20);
}

#[test]
fn test_damage_applied_outside_dropzone() {
    let b = scenario_world();
    let settings = SettingsResource::default();
    let agents = vec![
        agent(0, v(50_000, 0), Type::Player),
        agent(1, v(51_000, 0), Type::Free),
    ];
    let hits = vec![SpatialQueryResult {
        key: 1,
        position: v(51_000, 0),
        velocity: v(0, 0),
        distance: 1_000,
    }];
    let mut health = PlayerHealth { health: 100, max_health: 100 };
    let mut cooldown = PlayerDamageCooldown::new();
    let (events, lost) = damage_player(
        &mut health,
        &mut cooldown,
        v(50_000, 0),
        &hits,
        &agents,
        0,
        &b,
        &settings,
        16,
    );
    assert_eq!(health.health, 90);
    assert_eq!(events.len(), 1);
    assert_eq!(events[0].amount, 10);
    assert!(!lost);
    assert_eq!(cooldown.remaining_ms, 500);
    // a second tick during the cooldown applies nothing
    let (events2, lost2) = damage_player(
        &mut health,
        &mut cooldown,
        v(50_000, 0),
        &hits,
        &agents,
        0,
        &b,
        &settings,
        16,
    );
    assert_eq!(health.health, 90);
    assert_eq!(events2.len(), 0);
    assert!(!lost2);
}

#[test]
fn test_damage_scales_with_followers() {
    // per-agent damage is amount + floor(follower_count * multiplier):
    // 10 + floor(4 * 0.5) = 12
    let b = scenario_world();
    let settings = SettingsResource::default();
    let agents = vec![
        agent(0, v(50_000, 0), Type::Player),
        agent(1, v(51_000, 0), Type::Follower),
    ];
    let hits = vec![SpatialQueryResult {
        key: 1,
        position: v(51_000, 0),
        velocity: v(0, 0),
        distance: 1_000,
    }];
    let mut health = PlayerHealth { health: 100, max_health: 100 };
    let mut cooldown = PlayerDamageCooldown::new();
    let (events, _) = damage_player(
        &mut health,
        &mut cooldown,
        v(50_000, 0),
        &hits,
        &agents,
        4,
        &b,
        &settings,
        16,
    );
    assert_eq!(health.health, 88);
    assert_eq!(events[0].amount, 12);
}

#[test]
fn test_damage_suppressed_in_dropzone() {
    let b = scenario_world();
    let settings = SettingsResource::default();
    let agents = vec![
        agent(0, v(0, 0), Type::Player),
        agent(1, v(1_000, 0), Type::Free),
    ];
    let hits = vec![SpatialQueryResult {
        key: 1,
        position: v(1_000, 0),
        velocity: v(0, 0),
        distance: 1_000,
    }];
    let mut health = PlayerHealth { health: 100, max_health: 100 };
    let mut cooldown = PlayerDamageCooldown::new();
    let (events, lost) = damage_player(
        &mut health,
        &mut cooldown,
        v(0, 0),
        &hits,
        &agents,
        0,
        &b,
        &settings,
        16,
    );
    assert_eq!(health.health, 100);
    assert!(events.is_empty());
    assert!(!lost);
}

#[test]
fn test_update_timer_gates_and_restarts() {
    let mut timer = UpdateTimer::new(300);
    assert!(!timer.tick(100));
    assert!(!timer.tick(100));
    assert!(timer.tick(100));
    assert_eq!(timer.elapsed_ms, 0);
    assert!(!timer.tick(299));
    assert!(timer.tick(1));
}

#[test]
fn test_normalize_angle() {
    assert_eq!(normalize_angle(0), 0);
    assert_eq!(normalize_angle(7_000), 717);
    assert_eq!(normalize_angle(-100), 6_183);
    assert_eq!(normalize_angle(6_283), 0);
}

#[test]
fn test_update_player_velocity_accelerates() {
    let settings = SettingsResource::default();
    let r = update_player_velocity(v(0, 0), v(1_000, 0), 1_000, &settings);
    assert_eq!((r.x, r.y), (35_000, 0));
}

#[test]
fn test_update_player_velocity_idle_stays_zero() {
    let settings = SettingsResource::default();
    let r = update_player_velocity(v(0, 0), v(0, 0), 1_000, &settings);
    assert_eq!((r.x, r.y), (0, 0));
}

#[test]
fn test_apply_icon_velocity_moves_and_bounces() {
    let b = WorldBoundaryResource::default();
    let settings = SettingsResource::default();
    let mut index = SpatialIndex::new(b.bounds_min, b.bounds_max, SPATIAL_GRID_SIZE);
    let mut agents = vec![
        agent(0, v(0, 0), Type::Player),
        Agent {
            id: 1,
            transform: IconTransform { position: v(10_000, 0), rotation: 0 },
            velocity: IconVelocity(v(100, 0)),
            icon_type: IconType(Type::Free),
        },
        Agent {
            id: 2,
            transform: IconTransform { position: v(5_110_000, 0), rotation: 0 },
            velocity: IconVelocity(v(100, 0)),
            icon_type: IconType(Type::Free),
        },
    ];
    apply_icon_velocity(&mut agents, &mut index, &b, &settings, 1_000);
    // velocity 100 over one second at time scale 300 moves 30 units
    assert_eq!(agents[1].transform.position, v(40_000, 0));
    assert_eq!(agents[1].velocity.0, v(100, 0));
    // the third agent would leave the world: it bounces instead
    assert_eq!(agents[2].transform.position, v(5_110_000, 0));
    assert_eq!(agents[2].velocity.0, v(-100, 0));
    // the moved agent is re-indexed at its new position
    let hits = index.query(v(40_000, 0), 1_000);
    assert!(hits.iter().any(|h| h.key == 1));
}

#[test]
fn test_roaming_updates_velocity_within_limits() {
    let b = WorldBoundaryResource::default();
    let settings = SettingsResource::default();
    let mut index = SpatialIndex::new(b.bounds_min, b.bounds_max, SPATIAL_GRID_SIZE);
    index.insert(0, v(0, 0), v(0, 0));
    index.insert(1, v(100_000, 0), v(0, 0));
    let mut agents = vec![
        agent(0, v(0, 0), Type::Player),
        agent(1, v(100_000, 0), Type::Free),
    ];
    let mut timer = UpdateTimer::new(300);
    update_icon_roaming_velocity(&mut timer, 300, &mut agents, &index, &settings, &b);
    // the player is driven by input, not steering
    assert_eq!(agents[0].velocity.0, v(0, 0));
    // the free agent is drawn toward the only centroid in cohesion range
    assert_eq!(agents[1].velocity.0, v(-15, 0));
}

#[test]
fn test_roaming_skips_when_timer_pending() {
    let b = WorldBoundaryResource::default();
    let settings = SettingsResource::default();
    let index = SpatialIndex::new(b.bounds_min, b.bounds_max, SPATIAL_GRID_SIZE);
    let mut agents = vec![
        agent(0, v(0, 0), Type::Player),
        Agent {
            id: 1,
            transform: IconTransform { position: v(100_000, 0), rotation: 0 },
            velocity: IconVelocity(v(7, 7)),
            icon_type: IconType(Type::Free),
        },
    ];
    let mut timer = UpdateTimer::new(300);
    update_icon_roaming_velocity(&mut timer, 100, &mut agents, &index, &settings, &b);
    assert_eq!(agents[1].velocity.0, v(7, 7));
    assert_eq!(timer.elapsed_ms, 100);
}

#[test]
fn test_fix_free_items_moves_strays_out() {
    let b = scenario_world();
    let mut index = scenario_index(&b);
    index.insert(1, v(0, 0), v(0, 0));
    let mut agents = vec![
        agent(0, v(50_000, 50_000), Type::Player),
        agent(1, v(0, 0), Type::Free),
    ];
    let mut timer = UpdateTimer::new(0);
    fix_free_items_in_dropzone(&mut agents, &mut index, &b, &mut timer, 16);
    let p = agents[1].transform.position;
    assert!(!(p.x >= -10_000 && p.x <= 10_000 && p.y >= -10_000 && p.y <= 10_000));
    assert!(p.x >= -100_000 && p.x < 100_000 && p.y >= -100_000 && p.y < 100_000);
}

#[test]
fn test_init_icons_population() {
    let b = WorldBoundaryResource::default();
    let world = init_icons(10, &b);
    let (agents, index) = world.expect("a ten-agent world fits comfortably");
    assert_eq!(agents.len(), 10);
    assert_eq!(agents[0].icon_type, IconType(Type::Player));
    assert_eq!(agents[0].transform.position, v(0, 512_000));
    for i in 1..10 {
        assert_eq!(agents[i].icon_type, IconType(Type::Free));
        let p = agents[i].transform.position;
        assert!(!b_contains_dropzone(&b, p));
        assert!(p.x >= b.bounds_min.x && p.x < b.bounds_max.x);
        assert!(p.y >= b.bounds_min.y && p.y < b.bounds_max.y);
    }
    for i in 0..10 {
        for j in (i + 1)..10 {
            let dx = (agents[i].transform.position.x - agents[j].transform.position.x) as i128;
            let dy = (agents[i].transform.position.y - agents[j].transform.position.y) as i128;
            let min = iconwars_core::ICON_MIN_DISTANCE as i128;
            assert!(dx * dx + dy * dy >= min * min);
        }
        let hits = index.query(agents[i].transform.position, 1);
        assert!(hits.iter().any(|h| h.key == agents[i].id));
    }
}

fn b_contains_dropzone(b: &WorldBoundaryResource, p: Vec2I) -> bool {
    p.x >= b.dropzone_min.x && p.x <= b.dropzone_max.x && p.y >= b.dropzone_min.y
        && p.y <= b.dropzone_max.y
}

#[test]
fn test_random_positions_respect_bounds() {
    let b = WorldBoundaryResource::default();
    let mut xs: Vec<i64> = Vec::new();
    for _ in 0..200 {
        let p = random_position_in_bounds(&b);
        assert!(p.x >= b.bounds_min.x && p.x < b.bounds_max.x);
        assert!(p.y >= b.bounds_min.y && p.y < b.bounds_max.y);
        assert!(!b_contains_dropzone(&b, p));
        if !xs.contains(&p.x) {
            xs.push(p.x);
        }
    }
    // the draws are random, not a constant
    assert!(xs.len() >= 2);
}

#[test]
fn test_integer_math_helpers() {
    assert_eq!(isqrt_u64(0), 0);
    assert_eq!(isqrt_u64(15), 3);
    assert_eq!(isqrt_u64(16), 4);
    assert_eq!(div_floor_i64(-7, 2), -4);
    assert_eq!(div_trunc_i64(-7, 2), -3);
    assert_eq!(div_floor_i64(7, 2), 3);
}

#[test]
fn test_settings_and_world_defaults() {
    let s = SettingsResource::default();
    assert_eq!(s.max_speed, 290);
    assert_eq!(s.capture_time, 100);
    assert_eq!(s.player_max_health, 100);
    let b = WorldBoundaryResource::default();
    assert_eq!(b.bounds_max, v(5_120_000, 5_120_000));
    assert_eq!(b.dropzone_max, v(1_024_000, 1_024_000));
    assert!(b.in_dropzone(v(0, 0)));
    assert!(!b.in_dropzone(v(2_000_000, 0)));
    assert!(b.in_bounds(v(2_000_000, 0)));
    assert!(!b.in_bounds(v(6_000_000, 0)));
}

#[test]
fn test_capture_in_dropzone_without_followers_is_noop() {
    let b = scenario_world();
    let settings = SettingsResource::default();
    let mut agents = vec![
        agent(0, v(0, 0), Type::Player),
        agent(1, v(50_000, 0), Type::Free),
    ];
    let mut followers = IconFollowers::new();
    let mut captured = IconCapturedGrid::new();
    let mut index = scenario_index(&b);
    let mut score = PlayerScore { score: 0 };
    let outcome = player_follower_dropzone(
        &b,
        &mut followers,
        &mut agents,
        v(0, 0),
        &mut captured,
        &mut index,
        &mut score,
        &settings,
    );
    assert_eq!(score.score, 0);
    assert!(outcome.events.is_empty());
    assert!(!outcome.round_won);
    assert_eq!(agents[1].icon_type, IconType(Type::Free));
}

#[test]
fn test_dropzone_packing_overflows_past_nominal_grid() {
    // more captures than the grid was sized for still get valid, pairwise
    // distinct slot centers
    let b = scenario_world();
    let mut grid = IconCapturedGrid::new();
    let mut slots: Vec<Vec2I> = Vec::new();
    for id in 0..5u64 {
        slots.push(grid.add_captured(id, &b, 2));
    }
    for i in 0..5 {
        for j in (i + 1)..5 {
            assert_ne!(slots[i], slots[j]);
        }
    }
    // the first slots of the nominal grid lie inside the dropzone
    assert!(slots[0].x >= -10_000 && slots[0].x <= 10_000);
    assert!(slots[0].y >= -10_000 && slots[0].y <= 10_000);
}

#[test]
fn test_follower_set_ignores_duplicates() {
    let mut followers = IconFollowers::new();
    followers.insert(7);
    followers.insert(7);
    assert_eq!(followers.len(), 1);
    assert!(followers.contains(7));
    followers.clear();
    assert_eq!(followers.len(), 0);
}

#[test]
fn test_init_icons_player_alone_always_succeeds() {
    // with no roaming agents to place, setup never depends on a random draw
    let b = WorldBoundaryResource::default();
    let world = init_icons(1, &b);
    let (agents, _) = world.expect("a lone player is placed deterministically");
    assert_eq!(agents.len(), 1);
    assert_eq!(agents[0].icon_type, IconType(Type::Player));
}
