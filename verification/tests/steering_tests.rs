use iconwars_core::components::Type;
use iconwars_core::settings::SettingsResource;
use iconwars_core::spatial::SpatialQueryResult;
use iconwars_core::steering::{
    calculate_avoidance_force, get_alignment_force, get_cohesion_force, get_icon_velocity,
    get_nearest_point_in_perimeter, get_seek_force, get_separation_force, limit_vec2,
};
use iconwars_core::vec2::Vec2I;
use iconwars_core::world::WorldBoundaryResource;

fn v(x: i64, y: i64) -> Vec2I {
    Vec2I { x, y }
}

fn hit(key: u64, position: Vec2I, velocity: Vec2I, distance: i64) -> SpatialQueryResult {
    SpatialQueryResult { key, position, velocity, distance }
}

#[test]
fn test_separation_coincident_is_zero_and_bounded() {
    // a neighbor at distance zero must not blow the force up: it contributes
    // nothing, and the result stays within the force clamp
    let hits = vec![hit(2, v(0, 0), v(0, 0), 0)];
    let f = get_separation_force(1, v(0, 0), v(0, 0), &hits, 290, 50);
    assert_eq!((f.x, f.y), (0, 0));
    assert!(f.x.abs() <= 50 && f.y.abs() <= 50);
}

#[test]
fn test_separation_pushes_away_from_neighbor() {
    let hits = vec![hit(2, v(-10_000, 0), v(0, 0), 10_000)];
    let f = get_separation_force(1, v(0, 0), v(0, 0), &hits, 290, 50);
    assert_eq!((f.x, f.y), (50, 0));
}

#[test]
fn test_separation_ignores_self() {
    let hits = vec![hit(1, v(-10_000, 0), v(0, 0), 10_000)];
    let f = get_separation_force(1, v(0, 0), v(0, 0), &hits, 290, 50);
    assert_eq!((f.x, f.y), (0, 0));
}

#[test]
fn test_alignment_follows_average_velocity() {
    let hits = vec![hit(2, v(5_000, 0), v(100, 0), 5_000)];
    let f = get_alignment_force(1, v(0, 0), &hits, 290, 50);
    assert_eq!((f.x, f.y), (50, 0));
}

#[test]
fn test_alignment_no_neighbors_is_zero() {
    let hits = vec![hit(1, v(0, 0), v(100, 0), 0)];
    let f = get_alignment_force(1, v(0, 0), &hits, 290, 50);
    assert_eq!((f.x, f.y), (0, 0));
}

#[test]
fn test_seek_force_toward_target() {
    let f = get_seek_force(v(0, 0), v(0, 0), v(1000, 0), 290, 50);
    assert_eq!((f.x, f.y), (50, 0));
}

#[test]
fn test_seek_force_zero_at_target() {
    let f = get_seek_force(v(7, 7), v(3, 3), v(7, 7), 290, 50);
    assert_eq!((f.x, f.y), (0, 0));
}

#[test]
fn test_cohesion_steers_toward_centroid() {
    let hits = vec![
        hit(2, v(1_000, 0), v(0, 0), 1_000),
        hit(3, v(3_000, 0), v(0, 0), 3_000),
    ];
    let f = get_cohesion_force(v(0, 0), v(0, 0), &hits, 290, 50);
    assert_eq!((f.x, f.y), (50, 0));
}

#[test]
fn test_limit_vec2_clamps_long_vectors() {
    let r = limit_vec2(v(300, 400), 100);
    assert_eq!((r.x, r.y), (60, 80));
    let r2 = limit_vec2(v(30, 40), 100);
    assert_eq!((r2.x, r2.y), (30, 40));
}

#[test]
fn test_nearest_point_in_perimeter() {
    let p = get_nearest_point_in_perimeter(v(1_000, -9_000), v(-10_000, -10_000), v(10_000, 10_000));
    assert_eq!((p.x, p.y), (1_000, -10_000));
    // a point outside is clamped to the nearest edge point
    let q = get_nearest_point_in_perimeter(v(12_000, 0), v(-10_000, -10_000), v(10_000, 10_000));
    assert_eq!((q.x, q.y), (10_000, 0));
}

#[test]
fn test_avoidance_force_near_perimeter() {
    let f = calculate_avoidance_force(v(12_000, 0), v(-10_000, -10_000), v(10_000, 10_000), 85, 5_000);
    match f {
        Some(force) => {
            assert_eq!((force.x, force.y), (85, 0));
        },
        None => panic!("expected an avoidance force near the perimeter"),
    }
}

#[test]
fn test_avoidance_force_far_is_none() {
    let f = calculate_avoidance_force(v(50_000, 0), v(-10_000, -10_000), v(10_000, 10_000), 85, 5_000);
    assert!(f.is_none());
}

#[test]
fn test_icon_velocity_captured_is_frozen() {
    let settings = SettingsResource::default();
    let boundaries = WorldBoundaryResource::default();
    let empty: Vec<SpatialQueryResult> = Vec::new();
    let r = get_icon_velocity(
        1,
        v(2_000_000, 0),
        v(100, 100),
        Type::Captured,
        &empty,
        &empty,
        &empty,
        v(0, 0),
        &settings,
        &boundaries,
    );
    assert_eq!((r.x, r.y), (0, 0));
}

#[test]
fn test_icon_velocity_bounded_by_max_speed() {
    let settings = SettingsResource::default();
    let boundaries = WorldBoundaryResource::default();
    let hits = vec![hit(2, v(2_010_000, 0), v(100, 0), 10_000)];
    let r = get_icon_velocity(
        1,
        v(2_000_000, 0),
        v(0, 0),
        Type::Free,
        &hits,
        &hits,
        &hits,
        v(0, 0),
        &settings,
        &boundaries,
    );
    let len_sq = (r.x as i128) * (r.x as i128) + (r.y as i128) * (r.y as i128);
    assert!(len_sq <= 290i128 * 290i128);
}
