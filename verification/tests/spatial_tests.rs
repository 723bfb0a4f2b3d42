use iconwars_core::spatial::{offset_iter, SpatialIndex};
use iconwars_core::vec2::Vec2I;
use iconwars_core::world::WorldBoundaryResource;
use iconwars_core::SPATIAL_GRID_SIZE;

fn world() -> WorldBoundaryResource {
    WorldBoundaryResource::default()
}

fn index() -> SpatialIndex {
    let b = world();
    SpatialIndex::new(b.bounds_min, b.bounds_max, SPATIAL_GRID_SIZE)
}

fn v(x: i64, y: i64) -> Vec2I {
    Vec2I { x, y }
}

#[test]
fn test_query_finds_neighbor() {
    // two agents 50 units apart; a query on one with radius >= 50 finds the other
    let mut idx = index();
    idx.insert(1, v(0, 0), v(0, 0));
    idx.insert(2, v(30_000, 40_000), v(5, 5));
    let hits = idx.query(v(0, 0), 50_000);
    let found: Vec<u64> = hits.iter().map(|h| h.key).collect();
    assert!(found.contains(&1));
    assert!(found.contains(&2));
    for h in &hits {
        if h.key == 2 {
            assert_eq!(h.distance, 50_000);
            assert_eq!(h.position, v(30_000, 40_000));
            assert_eq!(h.velocity, v(5, 5));
        }
    }
}

#[test]
fn test_query_never_returns_agent_beyond_radius() {
    let mut idx = index();
    idx.insert(1, v(0, 0), v(0, 0));
    idx.insert(2, v(30_000, 40_000), v(0, 0));
    let hits = idx.query(v(0, 0), 49_999);
    assert!(hits.iter().all(|h| h.key != 2));
    // and every returned agent really is within the radius
    for h in &hits {
        let dx = h.position.x as i128;
        let dy = h.position.y as i128;
        assert!(dx * dx + dy * dy <= 49_999i128 * 49_999i128);
    }
}

#[test]
fn test_insert_idempotent() {
    let mut idx = index();
    idx.insert(1, v(10_000, 20_000), v(3, 4));
    idx.insert(7, v(-50_000, 0), v(0, 0));
    let before = idx.query(v(0, 0), 100_000);
    idx.insert(1, v(10_000, 20_000), v(3, 4));
    let after = idx.query(v(0, 0), 100_000);
    assert_eq!(before, after);
}

#[test]
fn test_insert_moves_agent_without_duplicates() {
    let mut idx = index();
    idx.insert(1, v(0, 0), v(0, 0));
    idx.insert(1, v(400_000, 0), v(0, 0));
    let near_old = idx.query(v(0, 0), 50_000);
    assert!(near_old.iter().all(|h| h.key != 1));
    let near_new = idx.query(v(400_000, 0), 50_000);
    assert_eq!(near_new.iter().filter(|h| h.key == 1).count(), 1);
}

#[test]
fn test_query_nonpositive_radius_is_empty() {
    let mut idx = index();
    idx.insert(1, v(0, 0), v(0, 0));
    assert!(idx.query(v(0, 0), 0).is_empty());
    assert!(idx.query(v(0, 0), -5).is_empty());
}

#[test]
fn test_out_of_range_insert_unindexes() {
    let mut idx = index();
    idx.insert(1, v(0, 0), v(0, 0));
    idx.insert(1, v(6_000_000, 0), v(0, 0));
    assert!(idx.query(v(0, 0), 100_000).is_empty());
}

#[test]
fn test_offset_iter_small() {
    let r = offset_iter(5, 7, 1);
    let expected = vec![
        (4, 6),
        (4, 7),
        (4, 8),
        (5, 6),
        (5, 7),
        (5, 8),
        (6, 6),
        (6, 7),
        (6, 8),
    ];
    assert_eq!(r, expected);
}

#[test]
fn test_offset_iter_zero_distance() {
    assert_eq!(offset_iter(-3, 9, 0), vec![(-3, 9)]);
}

#[test]
fn test_in_grid() {
    let idx = index();
    assert!(idx.in_grid(v(0, 0)));
    assert!(!idx.in_grid(v(6_000_000, 0)));
}

#[test]
fn test_agent_on_world_edge_is_queryable() {
    let b = world();
    let mut idx = index();
    // a position on the lower-left corner falls in the first cell
    idx.insert(1, v(b.bounds_min.x, b.bounds_min.y), v(0, 0));
    let hits = idx.query(v(b.bounds_min.x, b.bounds_min.y), 1);
    assert_eq!(hits.len(), 1);
    assert_eq!(hits[0].key, 1);
    assert_eq!(hits[0].distance, 0);
}

#[test]
fn test_offset_iter_negative_distance_is_empty() {
    assert!(offset_iter(5, 7, -1).is_empty());
}
