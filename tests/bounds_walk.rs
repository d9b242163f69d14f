use amethyst_voxelmap::{clamp_render_bounds, compute_render_bounds, Bounds, Dimensions,
    DrawVoxelsBoundsDefault, FlatEncoder, Point3, VecStorage, VoxelMap, BlockVoxel, VoxelStorage};

fn p(x: i32, y: i32, z: i32) -> Point3 {
    Point3::new(x, y, z)
}

#[test]
fn walk_yields_volume_distinct_contained_points() {
    let b = Bounds::new(p(-1, 2, 0), p(2, 4, 3));
    let pts = b.points();
    assert_eq!(b.volume(), 18);
    assert_eq!(pts.len(), 18);
    for (i, q) in pts.iter().enumerate() {
        assert!(b.contains(q));
        for r in &pts[i + 1..] {
            assert_ne!(q, r);
        }
    }
}

#[test]
fn walk_moves_x_fastest_then_y_then_z() {
    let b = Bounds::new(p(0, 0, 0), p(2, 2, 2));
    let pts = b.points();
    assert_eq!(
        pts,
        vec![p(0, 0, 0), p(1, 0, 0), p(0, 1, 0), p(1, 1, 0), p(0, 0, 1), p(1, 0, 1), p(0, 1, 1), p(1, 1, 1)]
    );
}

#[test]
fn iterator_hands_out_points_then_none() {
    let b = Bounds::new(p(5, 5, 5), p(7, 6, 6));
    let mut it = b.iter();
    assert_eq!(it.next(), Some(p(5, 5, 5)));
    assert_eq!(it.next(), Some(p(6, 5, 5)));
    assert_eq!(it.next(), None);
    assert_eq!(it.next(), None);
}

#[test]
fn empty_bounds_walk_nothing() {
    let b = Bounds::empty();
    assert_eq!(b.volume(), 0);
    assert!(b.points().is_empty());
    assert_eq!(b.iter().next(), None);
    assert_eq!(b.min(), p(0, 0, 0));
    assert_eq!(b.max(), p(0, 0, 0));
}

#[test]
fn degenerate_axis_walks_nothing() {
    let b = Bounds::new(p(0, 0, 0), p(0, 3, 3));
    assert_eq!(b.volume(), 0);
    assert!(b.points().is_empty());
}

#[test]
fn contains_is_half_open() {
    let b = Bounds::new(p(0, 0, 0), p(2, 2, 2));
    assert!(b.contains(&p(0, 0, 0)));
    assert!(b.contains(&p(1, 1, 1)));
    assert!(!b.contains(&p(2, 1, 1)));
    assert!(!b.contains(&p(-1, 0, 0)));
}

#[test]
fn intersects_needs_overlap_on_every_axis() {
    let a = Bounds::new(p(0, 0, 0), p(2, 2, 2));
    assert!(a.intersects(&Bounds::new(p(1, 1, 1), p(3, 3, 3))));
    assert!(!a.intersects(&Bounds::new(p(2, 0, 0), p(3, 2, 2))));
    assert!(!a.intersects(&Bounds::new(p(0, 0, 5), p(2, 2, 6))));
}

#[test]
fn center_is_the_middle_rounded_down() {
    assert_eq!(Bounds::new(p(0, 0, 0), p(8, 8, 8)).center(), p(4, 4, 4));
    assert_eq!(Bounds::new(p(2, -4, 1), p(5, 0, 2)).center(), p(3, -2, 1));
}

#[test]
fn render_bounds_without_request_is_storage() {
    let storage = Bounds::new(p(0, 0, 0), p(8, 8, 8));
    let r = clamp_render_bounds(None, Some(storage));
    assert_eq!(r, storage);
}

#[test]
fn render_bounds_request_is_clamped_into_storage() {
    let storage = Bounds::new(p(0, 0, 0), p(8, 8, 8));
    let requested = Bounds::new(p(-2, -2, -2), p(4, 4, 4));
    let r = clamp_render_bounds(Some(requested), Some(storage));
    assert_eq!(r, Bounds::new(p(0, 0, 0), p(4, 4, 4)));
}

#[test]
fn render_bounds_request_outside_storage_is_empty() {
    let storage = Bounds::new(p(0, 0, 0), p(8, 8, 8));
    let requested = Bounds::new(p(10, 10, 10), p(12, 12, 12));
    let r = clamp_render_bounds(Some(requested), Some(storage));
    assert_eq!(r.volume(), 0);
}

#[test]
fn render_bounds_with_neither_is_empty() {
    assert_eq!(clamp_render_bounds(None, None), Bounds::empty());
    let q = Bounds::new(p(1, 1, 1), p(2, 2, 2));
    assert_eq!(clamp_render_bounds(Some(q), None), q);
}

#[test]
fn default_strategy_draws_whole_map() {
    let storage: VecStorage<BlockVoxel, FlatEncoder> =
        VecStorage::from_dimensions(Dimensions::new(8, 8, 8));
    let map = VoxelMap::new(storage, 0);
    let r = compute_render_bounds::<_, _, DrawVoxelsBoundsDefault>(&map);
    assert_eq!(Some(r), map.bounds());
    assert_eq!(r, Bounds::new(p(0, 0, 0), p(8, 8, 8)));
}
