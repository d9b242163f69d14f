use std::marker::PhantomData;

use vstd::prelude::*;

use crate::bounds::Bounds;
use crate::point::{Dimensions, Point3};
use crate::storage::VoxelStorage;

verus! {

/// Unit offset towards the neighbour across face `f`. Faces are numbered
/// `+z, -z, +y, -y, -x, +x`; arrays of six per-face values use that order.
pub open spec fn face_offset(f: int) -> (int, int, int) {
    if f == 0 {
        (0, 0, 1)
    } else if f == 1 {
        (0, 0, -1)
    } else if f == 2 {
        (0, 1, 0)
    } else if f == 3 {
        (0, -1, 0)
    } else if f == 4 {
        (-1, 0, 0)
    } else {
        (1, 0, 0)
    }
}

pub open spec fn fits_i32(v: int) -> bool {
    i32::MIN <= v <= i32::MAX
}

/// The coordinate across face `f` of `c`, if it is representable.
pub open spec fn neighbor_coord(c: Point3, f: int) -> Option<Point3> {
    let (dx, dy, dz) = face_offset(f);
    if fits_i32(c.x + dx) && fits_i32(c.y + dy) && fits_i32(c.z + dz) {
        Some(Point3 { x: (c.x + dx) as i32, y: (c.y + dy) as i32, z: (c.z + dz) as i32 })
    } else {
        None
    }
}

/// What a cell of a voxel map holds, as the renderer sees it.
pub trait Voxel: Sized {
    spec fn occupied_spec(&self, c: Point3) -> bool;

    spec fn texture_spec(&self, c: Point3) -> Option<[usize; 6]>;

    spec fn culling_spec(&self, c: Point3) -> [bool; 6];

    /// Whether the voxel hides the faces of its neighbours that touch it.
    fn occupied(&self, coordinates: &Point3) -> (r: bool)
        ensures
            r == self.occupied_spec(*coordinates),
    ;

    /// One sprite index per face, or `None` for a voxel that draws nothing.
    fn texture(&self, coordinates: &Point3) -> (r: Option<[usize; 6]>)
        ensures
            r == self.texture_spec(*coordinates),
    ;

    /// Per face: whether an occupied neighbour on that side hides it.
    fn neighbor_culling(&self, coordinates: &Point3) -> (r: [bool; 6])
        ensures
            r == self.culling_spec(*coordinates),
    ;
}

/// A plain cubic voxel: solid or not, with fixed sprites and culling flags.
#[derive(Clone, Copy, Debug, PartialEq, Eq)]
pub struct BlockVoxel {
    pub solid: bool,
    pub faces: Option<[usize; 6]>,
    pub culling: [bool; 6],
}

impl BlockVoxel {
    /// An empty cell: not solid, draws nothing.
    pub fn empty() -> (r: BlockVoxel)
        ensures
            !r.solid,
            r.faces.is_none(),
            r.culling == [true, true, true, true, true, true],
    {
        BlockVoxel { solid: false, faces: None, culling: [true, true, true, true, true, true] }
    }

    /// A solid voxel drawn with one sprite per face, culled by its
    /// neighbours on every side.
    pub fn solid(faces: [usize; 6]) -> (r: BlockVoxel)
        ensures
            r.solid,
            r.faces == Some(faces),
            r.culling == [true, true, true, true, true, true],
    {
        BlockVoxel { solid: true, faces: Some(faces), culling: [true, true, true, true, true, true] }
    }
}

impl Default for BlockVoxel {
    fn default() -> (r: BlockVoxel)
        ensures
            !r.solid,
            r.faces.is_none(),
            r.culling == [true, true, true, true, true, true],
    {
        BlockVoxel::empty()
    }
}

impl Voxel for BlockVoxel {
    open spec fn occupied_spec(&self, c: Point3) -> bool {
        self.solid
    }

    open spec fn texture_spec(&self, c: Point3) -> Option<[usize; 6]> {
        self.faces
    }

    open spec fn culling_spec(&self, c: Point3) -> [bool; 6] {
        self.culling
    }

    fn occupied(&self, coordinates: &Point3) -> (r: bool) {
        self.solid
    }

    fn texture(&self, coordinates: &Point3) -> (r: Option<[usize; 6]>) {
        self.faces
    }

    fn neighbor_culling(&self, coordinates: &Point3) -> (r: [bool; 6]) {
        self.culling
    }
}

/// Translation that moves the middle of the box `[lo, hi)` to the origin.
pub open spec fn placement_for(corners: Option<(Point3, Point3)>) -> [i64; 3] {
    match corners {
        Some((lo, hi)) => [
            -(lo.x + (hi.x - lo.x) / 2) as i64,
            -(lo.y + (hi.y - lo.y) / 2) as i64,
            -(lo.z + (hi.z - lo.z) / 2) as i64,
        ],
        None => [0, 0, 0],
    }
}

/// A voxel storage placed in the world, centred on its local origin, with
/// the sprite sheet its face sprites index into.
pub struct VoxelMap<V, S> {
    data: S,
    sprite_sheet: usize,
    transform: [i64; 3],
    _marker: PhantomData<V>,
}

impl<V: Voxel, S: VoxelStorage<V>> VoxelMap<V, S> {
    pub closed spec fn storage(&self) -> S {
        self.data
    }

    /// Key of the sprite sheet the map's face sprites index into.
    pub closed spec fn atlas(&self) -> usize {
        self.sprite_sheet
    }

    /// Translation applied to the map before its own transform.
    pub closed spec fn placement(&self) -> [i64; 3] {
        self.transform
    }

    /// Whether `p` holds a voxel that hides the faces touching it.
    pub open spec fn occupied_at(&self, p: Point3) -> bool {
        match self.storage().cell(p) {
            Some(v) => v.occupied_spec(p),
            None => false,
        }
    }

    /// Whether the neighbour across face `f` of `c` is occupied; a
    /// neighbour outside the storage never is.
    pub open spec fn neighbor_occupied(&self, c: Point3, f: int) -> bool {
        match neighbor_coord(c, f) {
            Some(p) => self.occupied_at(p),
            None => false,
        }
    }

    /// Wraps `data`; the placement centres the storage's box on the origin.
    pub fn new(data: S, sprite_sheet: usize) -> (r: Self)
        requires
            data.wf(),
        ensures
            r.storage() == data,
            r.atlas() == sprite_sheet,
            r.placement() == placement_for(data.spec_bounds()),
    {
        let transform = match data.bounds() {
            Some(b) => {
                let c = b.center();
                [-(c.x as i64), -(c.y as i64), -(c.z as i64)]
            },
            None => [0, 0, 0],
        };
        VoxelMap { data, sprite_sheet, transform, _marker: PhantomData }
    }

    pub fn sprite_sheet(&self) -> (r: usize)
        ensures
            r == self.atlas(),
    {
        self.sprite_sheet
    }

    pub fn transform(&self) -> (r: [i64; 3])
        ensures
            r == self.placement(),
    {
        self.transform
    }

    fn neighbor_at(&self, c: &Point3, f: usize) -> (r: bool)
        requires
            self.storage().wf(),
            f < 6,
        ensures
            r == self.neighbor_occupied(*c, f as int),
    {
        let (dx, dy, dz): (i64, i64, i64) = if f == 0 {
            (0, 0, 1)
        } else if f == 1 {
            (0, 0, -1)
        } else if f == 2 {
            (0, 1, 0)
        } else if f == 3 {
            (0, -1, 0)
        } else if f == 4 {
            (-1, 0, 0)
        } else {
            (1, 0, 0)
        };
        let x = c.x as i64 + dx;
        let y = c.y as i64 + dy;
        let z = c.z as i64 + dz;
        let lo = i32::MIN as i64;
        let hi = i32::MAX as i64;
        if x < lo || x > hi || y < lo || y > hi || z < lo || z > hi {
            return false;
        }
        let p = Point3 { x: x as i32, y: y as i32, z: z as i32 };
        match self.data.get(&p) {
            Some(v) => v.occupied(&p),
            None => false,
        }
    }

    /// For each face of `coords`, in the order `+z, -z, +y, -y, -x, +x`,
    /// whether an occupied voxel lies across it.
    pub fn get_neighbors(&self, coords: Point3) -> (r: [bool; 6])
        requires
            self.storage().wf(),
        ensures
            forall|f: int| 0 <= f < 6 ==> r[f] == self.neighbor_occupied(coords, f),
    {
        let r = [
            self.neighbor_at(&coords, 0),
            self.neighbor_at(&coords, 1),
            self.neighbor_at(&coords, 2),
            self.neighbor_at(&coords, 3),
            self.neighbor_at(&coords, 4),
            self.neighbor_at(&coords, 5),
        ];
        assert forall|f: int| 0 <= f < 6 implies r[f] == self.neighbor_occupied(coords, f) by {
            if f == 0 {
            } else if f == 1 {
            } else if f == 2 {
            } else if f == 3 {
            } else if f == 4 {
            } else {
            }
        }
        r
    }
}

impl<V: Voxel, S: VoxelStorage<V>> VoxelStorage<V> for VoxelMap<V, S> {
    open spec fn wf(&self) -> bool {
        self.storage().wf()
    }

    open spec fn spec_origin(&self) -> Point3 {
        self.storage().spec_origin()
    }

    open spec fn spec_dimensions(&self) -> Dimensions {
        self.storage().spec_dimensions()
    }

    open spec fn cell(&self, c: Point3) -> Option<V> {
        self.storage().cell(c)
    }

    open spec fn spec_bounds(&self) -> Option<(Point3, Point3)> {
        self.storage().spec_bounds()
    }

    /// The placement and the sprite sheet never change with the contents.
    open spec fn same_frame(&self, other: Self) -> bool {
        &&& self.storage().same_frame(other.storage())
        &&& self.placement() == other.placement()
        &&& self.atlas() == other.atlas()
    }

    fn origin(&self) -> (r: Point3) {
        self.data.origin()
    }

    fn dimensions(&self) -> (r: Dimensions) {
        self.data.dimensions()
    }

    fn bounds(&self) -> (r: Option<Bounds>) {
        self.data.bounds()
    }

    fn get(&self, coord: &Point3) -> (r: Option<&V>) {
        self.data.get(coord)
    }

    fn get_mut(&mut self, coord: &Point3) -> (r: Option<&mut V>) {
        self.data.get_mut(coord)
    }
}

} // verus!
