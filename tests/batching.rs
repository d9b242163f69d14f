use amethyst_voxelmap::{BlockVoxel, Bounds, Dimensions, FaceInstance, FlatEncoder, Point3,
    VecStorage, VoxelBatch, VoxelMap, VoxelStorage};

type TestMap = VoxelMap<BlockVoxel, VecStorage<BlockVoxel, FlatEncoder>>;

fn map_with(d: Dimensions, cells: &[(Point3, BlockVoxel)], sheet: usize) -> TestMap {
    let mut storage: VecStorage<BlockVoxel, FlatEncoder> = VecStorage::from_dimensions(d);
    for (c, v) in cells {
        *storage.get_mut(c).unwrap() = *v;
    }
    VoxelMap::new(storage, sheet)
}

fn faces_of(map: &TestMap) -> Vec<FaceInstance> {
    let mut batch = VoxelBatch::new();
    batch.begin_frame();
    batch.prepare_map(0, map, None, Some((1, false)));
    batch.groups().into_iter().flat_map(|g| g.entries.into_iter().map(|e| e.instance)).collect()
}

const SPRITES: [usize; 6] = [10, 11, 12, 13, 14, 15];

#[test]
fn neighbors_report_occupied_sides_in_face_order() {
    let solid = BlockVoxel::solid(SPRITES);
    let map = map_with(
        Dimensions::new(3, 3, 3),
        &[(Point3::new(1, 1, 1), solid), (Point3::new(1, 1, 2), solid), (Point3::new(0, 1, 1), solid)],
        0,
    );
    assert_eq!(map.get_neighbors(Point3::new(1, 1, 1)), [true, false, false, false, true, false]);
    assert_eq!(map.get_neighbors(Point3::new(0, 0, 0)), [false; 6]);
}

#[test]
fn shared_face_of_solid_pair_is_culled() {
    let solid = BlockVoxel::solid(SPRITES);
    let map = map_with(
        Dimensions::new(2, 1, 1),
        &[(Point3::new(0, 0, 0), solid), (Point3::new(1, 0, 0), solid)],
        0,
    );
    let faces = faces_of(&map);
    // Face 5 is +x, face 4 is -x: the two faces that touch.
    assert!(!faces.iter().any(|f| f.coordinate == Point3::new(0, 0, 0) && f.face == 5));
    assert!(!faces.iter().any(|f| f.coordinate == Point3::new(1, 0, 0) && f.face == 4));
    let left: Vec<u32> =
        faces.iter().filter(|f| f.coordinate == Point3::new(0, 0, 0)).map(|f| f.face).collect();
    let right: Vec<u32> =
        faces.iter().filter(|f| f.coordinate == Point3::new(1, 0, 0)).map(|f| f.face).collect();
    assert_eq!(left, vec![0, 1, 2, 3, 4]);
    assert_eq!(right, vec![0, 1, 2, 3, 5]);
    assert_eq!(faces.len(), 10);
    assert_eq!(faces[0], FaceInstance { sprite: 10, coordinate: Point3::new(0, 0, 0), face: 0 });
}

#[test]
fn faces_opting_out_of_culling_are_drawn() {
    let mut glass = BlockVoxel::solid(SPRITES);
    glass.culling = [false; 6];
    let map = map_with(
        Dimensions::new(2, 1, 1),
        &[(Point3::new(0, 0, 0), glass), (Point3::new(1, 0, 0), glass)],
        0,
    );
    assert_eq!(faces_of(&map).len(), 12);
}

#[test]
fn voxel_without_texture_emits_nothing() {
    let mut hidden = BlockVoxel::solid(SPRITES);
    hidden.faces = None;
    let solid = BlockVoxel::solid(SPRITES);
    let map = map_with(
        Dimensions::new(2, 1, 1),
        &[(Point3::new(0, 0, 0), hidden), (Point3::new(1, 0, 0), solid)],
        0,
    );
    let faces = faces_of(&map);
    assert!(faces.iter().all(|f| f.coordinate == Point3::new(1, 0, 0)));
    // The hidden voxel is still occupied, so it hides the -x face of its neighbour.
    assert_eq!(faces.len(), 5);
}

#[test]
fn missing_texture_skips_instance() {
    let solid = BlockVoxel::solid(SPRITES);
    let map = map_with(Dimensions::new(1, 1, 1), &[(Point3::new(0, 0, 0), solid)], 0);
    let mut batch = VoxelBatch::new();
    batch.begin_frame();
    batch.prepare_map(0, &map, None, None);
    assert_eq!(batch.count(), 0);
    assert!(batch.groups().is_empty());
}

#[test]
fn requested_region_limits_the_walk() {
    let solid = BlockVoxel::solid(SPRITES);
    let map = map_with(
        Dimensions::new(4, 1, 1),
        &[(Point3::new(0, 0, 0), solid), (Point3::new(3, 0, 0), solid)],
        0,
    );
    let mut batch = VoxelBatch::new();
    batch.begin_frame();
    let region = batch.prepare_map(
        0,
        &map,
        Some(Bounds::new(Point3::new(-5, -5, -5), Point3::new(2, 5, 5))),
        Some((1, false)),
    );
    assert_eq!(region, Bounds::new(Point3::new(0, 0, 0), Point3::new(2, 1, 1)));
    assert_eq!(batch.count(), 6);
}

#[test]
fn batch_groups_by_texture_in_emission_order() {
    let solid = BlockVoxel::solid(SPRITES);
    let one = |c: Point3| map_with(Dimensions::new(2, 2, 2), &[(c, solid)], 0);
    let a = one(Point3::new(0, 0, 0));
    let b = one(Point3::new(1, 0, 0));
    let c = one(Point3::new(0, 1, 0));
    let mut batch = VoxelBatch::new();
    batch.begin_frame();
    batch.prepare_map(0, &a, None, Some((7, true)));
    batch.prepare_map(1, &b, None, Some((9, false)));
    batch.prepare_map(2, &c, None, Some((7, false)));
    let groups = batch.groups();
    assert_eq!(groups.len(), 2);
    assert_eq!(groups[0].texture, 7);
    assert_eq!(groups[1].texture, 9);
    assert_eq!(groups[0].entries.len(), 12);
    assert_eq!(groups[1].entries.len(), 6);
    let maps: Vec<usize> = groups[0].entries.iter().map(|e| e.map_index).collect();
    assert_eq!(maps, vec![0, 0, 0, 0, 0, 0, 2, 2, 2, 2, 2, 2]);
    let faces: Vec<u32> = groups[0].entries[..6].iter().map(|e| e.instance.face).collect();
    assert_eq!(faces, vec![0, 1, 2, 3, 4, 5]);
    assert_eq!(groups[0].entries[6].instance.coordinate, Point3::new(0, 1, 0));
    assert!(batch.changed());
}

#[test]
fn second_identical_frame_is_clean() {
    let solid = BlockVoxel::solid(SPRITES);
    let map = map_with(
        Dimensions::new(2, 1, 1),
        &[(Point3::new(0, 0, 0), solid), (Point3::new(1, 0, 0), solid)],
        0,
    );
    let mut batch = VoxelBatch::new();
    batch.begin_frame();
    batch.prepare_map(0, &map, None, Some((3, true)));
    assert!(batch.changed());
    let first: Vec<_> = batch.groups().into_iter().flat_map(|g| g.entries).collect();
    batch.begin_frame();
    batch.prepare_map(0, &map, None, Some((3, false)));
    let second: Vec<_> = batch.groups().into_iter().flat_map(|g| g.entries).collect();
    assert_eq!(first, second);
    assert!(!batch.changed());
}

#[test]
fn changed_voxel_marks_frame_dirty() {
    let solid = BlockVoxel::solid(SPRITES);
    let mut map = map_with(Dimensions::new(2, 1, 1), &[(Point3::new(0, 0, 0), solid)], 0);
    let mut batch = VoxelBatch::new();
    batch.begin_frame();
    batch.prepare_map(0, &map, None, Some((3, false)));
    *map.get_mut(&Point3::new(1, 0, 0)).unwrap() = solid;
    batch.begin_frame();
    batch.prepare_map(0, &map, None, Some((3, false)));
    assert!(batch.changed());
    batch.begin_frame();
    batch.prepare_map(0, &map, None, Some((3, true)));
    assert!(batch.changed());
}

#[test]
fn map_is_centred_and_keeps_sheet() {
    let map = map_with(Dimensions::new(8, 4, 2), &[], 5);
    assert_eq!(map.transform(), [-4, -2, -1]);
    assert_eq!(map.sprite_sheet(), 5);
    assert_eq!(map.dimensions(), Dimensions::new(8, 4, 2));
    assert_eq!(map.origin(), Point3::new(0, 0, 0));
    assert!(map.get(&Point3::new(8, 0, 0)).is_none());
    assert!(map.get(&Point3::new(-1, 0, 0)).is_none());
    assert_eq!(map.get(&Point3::new(7, 3, 1)), Some(&BlockVoxel::empty()));
}

#[test]
fn uniform_pool_grows_and_shrinks_with_hysteresis() {
    assert_eq!(amethyst_voxelmap::pool_len(0, 3), 3);
    assert_eq!(amethyst_voxelmap::pool_len(4, 3), 4);
    assert_eq!(amethyst_voxelmap::pool_len(8, 5), 8);
    assert_eq!(amethyst_voxelmap::pool_len(8, 4), 4);
    assert_eq!(amethyst_voxelmap::pool_len(8, 3), 3);
    assert_eq!(amethyst_voxelmap::pool_len(2, 0), 0);
}

#[test]
fn group_entries_split_into_runs_per_map() {
    let entry = |m: usize| amethyst_voxelmap::BatchEntry {
        texture: 1,
        map_index: m,
        instance: FaceInstance { sprite: 0, coordinate: Point3::new(0, 0, 0), face: 0 },
    };
    let entries: Vec<_> = [0, 0, 2, 2, 2, 0].iter().map(|&m| entry(m)).collect();
    assert_eq!(amethyst_voxelmap::map_runs(&entries), vec![(0, 0, 2), (2, 2, 5), (0, 5, 6)]);
    assert!(amethyst_voxelmap::map_runs(&Vec::new()).is_empty());
}

#[test]
fn fresh_storage_holds_default_voxels_on_its_grid_only() {
    let storage: VecStorage<BlockVoxel, amethyst_voxelmap::MortonEncoder> =
        VecStorage::from_dimensions(Dimensions::new(3, 3, 3));
    for c in Bounds::new(Point3::new(0, 0, 0), Point3::new(3, 3, 3)).points() {
        assert_eq!(storage.get(&c), Some(&BlockVoxel::default()));
    }
    // Inside the Morton padding, but off the grid.
    assert!(storage.get(&Point3::new(3, 0, 0)).is_none());
    assert!(storage.get(&Point3::new(0, -1, 0)).is_none());
    assert_eq!(storage.bounds(), Some(Bounds::new(Point3::new(0, 0, 0), Point3::new(3, 3, 3))));
}
