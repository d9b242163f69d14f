use amethyst_voxelmap::{CoordinateEncoder, Dimensions, FlatEncoder, MortonEncoder};

fn all_indices<E: CoordinateEncoder>(d: Dimensions) -> Vec<u32> {
    let e = E::from_dimensions(d);
    let mut out = Vec::new();
    for z in 0..d.z {
        for y in 0..d.y {
            for x in 0..d.x {
                out.push(e.encode(x, y, z).unwrap());
            }
        }
    }
    out
}

fn assert_distinct_and_allocated<E: CoordinateEncoder>(d: Dimensions) {
    let mut idx = all_indices::<E>(d);
    let alloc = E::allocation_size(d);
    assert!(idx.iter().all(|&i| (i as usize) < alloc));
    let n = idx.len();
    idx.sort();
    idx.dedup();
    assert_eq!(idx.len(), n);
}

#[test]
fn flat_encoding_is_injective_on_grid() {
    assert_distinct_and_allocated::<FlatEncoder>(Dimensions::new(3, 4, 5));
    assert_eq!(FlatEncoder::allocation_size(Dimensions::new(3, 4, 5)), 60);
}

#[test]
fn morton_encoding_is_injective_on_grid() {
    assert_distinct_and_allocated::<MortonEncoder>(Dimensions::new(3, 4, 5));
    assert_distinct_and_allocated::<MortonEncoder>(Dimensions::new(8, 8, 8));
}

#[test]
fn flat_index_is_row_major() {
    let e = FlatEncoder::from_dimensions(Dimensions::new(3, 4, 5));
    assert_eq!(e.encode(0, 0, 0), Some(0));
    assert_eq!(e.encode(2, 0, 0), Some(2));
    assert_eq!(e.encode(0, 1, 0), Some(3));
    assert_eq!(e.encode(1, 2, 3), Some(1 + 2 * 3 + 3 * 12));
}

#[test]
fn morton_index_interleaves_bits() {
    let e = MortonEncoder::from_dimensions(Dimensions::new(8, 8, 8));
    assert_eq!(e.encode(1, 0, 0), Some(1));
    assert_eq!(e.encode(0, 1, 0), Some(2));
    assert_eq!(e.encode(0, 0, 1), Some(4));
    assert_eq!(e.encode(2, 0, 0), Some(8));
    assert_eq!(e.encode(7, 7, 7), Some(511));
    assert_eq!(MortonEncoder::allocation_size(Dimensions::new(8, 8, 8)), 3584);
}

#[test]
fn out_of_range_coordinates_are_rejected() {
    let d = Dimensions::new(3, 4, 5);
    let flat = FlatEncoder::from_dimensions(d);
    let morton = MortonEncoder::from_dimensions(d);
    for (x, y, z) in [(3, 0, 0), (0, 4, 0), (0, 0, 5), (100, 100, 100)] {
        assert_eq!(flat.encode(x, y, z), None);
        assert_eq!(morton.encode(x, y, z), None);
    }
}

#[test]
fn largest_morton_grid_fits_thirty_bits() {
    let d = Dimensions::new(1023, 1023, 1023);
    assert_eq!(MortonEncoder::allocation_size(d), (1 << 30) - 1);
    let e = MortonEncoder::from_dimensions(d);
    assert_eq!(e.encode(1022, 1022, 1022), Some((1 << 30) - 1 - 7));
    assert_eq!(e.encode(1023, 0, 0), None);
}
