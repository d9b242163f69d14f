use vstd::prelude::*;

use crate::bounds::Bounds;
use crate::encoder::{in_dims, CoordinateEncoder};
use crate::point::{Dimensions, Point3};

verus! {

/// Whether `c` names a cell of a grid of dimensions `d` that starts at the
/// origin.
pub open spec fn in_grid(d: Dimensions, c: Point3) -> bool {
    c.x >= 0 && c.y >= 0 && c.z >= 0 && in_dims(d, c.x as u32, c.y as u32, c.z as u32)
}

/// Access to the voxels of a map by integer coordinate.
pub trait VoxelStorage<V>: Sized {
    spec fn wf(&self) -> bool;

    spec fn spec_origin(&self) -> Point3;

    spec fn spec_dimensions(&self) -> Dimensions;

    /// The voxel stored at `c`, if the storage has a cell there.
    spec fn cell(&self, c: Point3) -> Option<V>;

    /// Lower and upper corner of the box the storage covers, if it is
    /// bounded.
    spec fn spec_bounds(&self) -> Option<(Point3, Point3)>;

    /// Whether `self` has the shape of `other`: everything but the voxel
    /// contents agrees.
    spec fn same_frame(&self, other: Self) -> bool;

    fn origin(&self) -> (r: Point3)
        ensures
            r == self.spec_origin(),
    ;

    fn dimensions(&self) -> (r: Dimensions)
        ensures
            r == self.spec_dimensions(),
    ;

    fn bounds(&self) -> (r: Option<Bounds>)
        requires
            self.wf(),
        ensures
            match r {
                Some(b) => self.spec_bounds() == Some((b.lo(), b.hi())) && b.lo()
                    == self.spec_origin() && b.hi().x == self.spec_origin().x
                    + self.spec_dimensions().x && b.hi().y == self.spec_origin().y
                    + self.spec_dimensions().y && b.hi().z == self.spec_origin().z
                    + self.spec_dimensions().z,
                None => self.spec_bounds().is_none(),
            },
    ;

    fn get(&self, coord: &Point3) -> (r: Option<&V>)
        requires
            self.wf(),
        ensures
            match r {
                Some(v) => self.cell(*coord) == Some(*v),
                None => self.cell(*coord).is_none(),
            },
    ;

    /// The only way to change a voxel: a mutable borrow of its cell.
    fn get_mut(&mut self, coord: &Point3) -> (r: Option<&mut V>)
        requires
            old(self).wf(),
        ensures
            final(self).wf(),
            final(self).same_frame(*old(self)),
            final(self).spec_origin() == old(self).spec_origin(),
            final(self).spec_dimensions() == old(self).spec_dimensions(),
            final(self).spec_bounds() == old(self).spec_bounds(),
            match r {
                Some(v) => old(self).cell(*coord) == Some(*v) && forall|p: Point3|
                    #[trigger] final(self).cell(p) == if p == *coord {
                        Some(*final(v))
                    } else {
                        old(self).cell(p)
                    },
                None => old(self).cell(*coord).is_none() && forall|p: Point3|
                    #[trigger] final(self).cell(p) == old(self).cell(p),
            },
    ;
}

/// Dense storage: one array cell per coordinate of a grid that starts at the
/// origin, laid out by the encoder `E`.
#[derive(Clone, Debug)]
pub struct VecStorage<V, E> {
    dimensions: Dimensions,
    voxels: Vec<V>,
    encoder: E,
}

impl<V, E: CoordinateEncoder> VecStorage<V, E> {
    /// The array position of an in-grid coordinate.
    pub closed spec fn slot(&self, c: Point3) -> int {
        self.encoder.index_of(c.x as u32, c.y as u32, c.z as u32)
    }

    /// A grid of `dimensions`, every cell holding `V::default()`.
    pub fn from_dimensions(dimensions: Dimensions) -> (r: Self) where V: Default
        requires
            E::accepts(dimensions),
        ensures
            r.wf(),
            r.spec_dimensions() == dimensions,
            forall|c: Point3| #[trigger] r.cell(c).is_some() == in_grid(dimensions, c),
            forall|c: Point3|
                in_grid(dimensions, c) ==> call_ensures(V::default, (), #[trigger] r.cell(c).unwrap()),
    {
        let encoder = E::from_dimensions(dimensions);
        let num_voxels = E::allocation_size(dimensions);
        let mut voxels: Vec<V> = Vec::with_capacity(num_voxels);
        while voxels.len() < num_voxels
            invariant
                voxels@.len() <= num_voxels,
                forall|i: int| 0 <= i < voxels@.len() ==> call_ensures(V::default, (), #[trigger] voxels@[i]),
            decreases num_voxels - voxels@.len(),
        {
            let v = V::default();
            voxels.push(v);
        }
        let r = VecStorage { dimensions, voxels, encoder };
        assert forall|c: Point3| #[trigger] r.cell(c).is_some() == in_grid(dimensions, c) by {
            if in_grid(dimensions, c) {
                encoder.lemma_index_in_allocation(c.x as u32, c.y as u32, c.z as u32);
            }
        }
        assert forall|c: Point3| in_grid(dimensions, c) implies call_ensures(
            V::default,
            (),
            #[trigger] r.cell(c).unwrap(),
        ) by {
            encoder.lemma_index_in_allocation(c.x as u32, c.y as u32, c.z as u32);
        }
        r
    }

    /// The cells of a dense storage are exactly the coordinates of its
    /// grid, which starts at the origin; its box is `[origin, dimensions)`.
    pub proof fn lemma_cells(&self)
        requires
            self.wf(),
        ensures
            forall|c: Point3| #[trigger] self.cell(c).is_some() == in_grid(self.spec_dimensions(), c),
            self.spec_origin() == Point3::origin_spec(),
            self.spec_dimensions().x <= i32::MAX && self.spec_dimensions().y <= i32::MAX
                && self.spec_dimensions().z <= i32::MAX,
            self.spec_bounds() == Some(
                (
                    Point3::origin_spec(),
                    Point3 {
                        x: self.spec_dimensions().x as i32,
                        y: self.spec_dimensions().y as i32,
                        z: self.spec_dimensions().z as i32,
                    },
                ),
            ),
    {
        E::lemma_accepts_signed(self.dimensions);
    }

    /// The array position of `coord`, or `None` outside the grid.
    fn slot_of(&self, coord: &Point3) -> (r: Option<usize>)
        requires
            self.wf(),
        ensures
            match r {
                Some(i) => in_grid(self.dimensions, *coord) && i == self.slot(*coord) && i
                    < self.voxels@.len(),
                None => !in_grid(self.dimensions, *coord),
            },
    {
        if coord.x < 0 || coord.y < 0 || coord.z < 0 {
            return None;
        }
        match self.encoder.encode(coord.x as u32, coord.y as u32, coord.z as u32) {
            Some(index) => {
                proof {
                    E::lemma_accepts_signed(self.dimensions);
                    self.encoder.lemma_index_in_allocation(
                        coord.x as u32,
                        coord.y as u32,
                        coord.z as u32,
                    );
                }
                Some(index as usize)
            },
            None => None,
        }
    }
}

impl<V, E: CoordinateEncoder> VoxelStorage<V> for VecStorage<V, E> {
    closed spec fn wf(&self) -> bool {
        &&& E::accepts(self.dimensions)
        &&& self.encoder.dims() == self.dimensions
        &&& self.voxels@.len() == E::allocation(self.dimensions)
    }

    open spec fn spec_origin(&self) -> Point3 {
        Point3 { x: 0, y: 0, z: 0 }
    }

    closed spec fn spec_dimensions(&self) -> Dimensions {
        self.dimensions
    }

    open spec fn same_frame(&self, other: Self) -> bool {
        self.spec_dimensions() == other.spec_dimensions()
    }

    closed spec fn cell(&self, c: Point3) -> Option<V> {
        if in_grid(self.dimensions, c) {
            Some(self.voxels@[self.slot(c)])
        } else {
            None
        }
    }

    closed spec fn spec_bounds(&self) -> Option<(Point3, Point3)> {
        Some(
            (
                Point3 { x: 0, y: 0, z: 0 },
                Point3 {
                    x: self.dimensions.x as i32,
                    y: self.dimensions.y as i32,
                    z: self.dimensions.z as i32,
                },
            ),
        )
    }

    fn origin(&self) -> (r: Point3) {
        Point3::origin()
    }

    fn dimensions(&self) -> (r: Dimensions) {
        self.dimensions
    }

    fn bounds(&self) -> (r: Option<Bounds>) {
        proof {
            E::lemma_accepts_signed(self.dimensions);
        }
        let d = self.dimensions;
        Some(Bounds::new(Point3::origin(), Point3::new(d.x as i32, d.y as i32, d.z as i32)))
    }

    fn get(&self, coord: &Point3) -> (r: Option<&V>) {
        match self.slot_of(coord) {
            Some(i) => Some(&self.voxels[i]),
            None => None,
        }
    }

    fn get_mut(&mut self, coord: &Point3) -> (r: Option<&mut V>) {
        match self.slot_of(coord) {
            Some(i) => {
                proof {
                    assert forall|p: Point3, q: Point3|
                        in_grid(self.dimensions, p) && in_grid(self.dimensions, q) && self.slot(p)
                            == self.slot(q) implies p == q by {
                        self.encoder.lemma_index_injective(
                            p.x as u32,
                            p.y as u32,
                            p.z as u32,
                            q.x as u32,
                            q.y as u32,
                            q.z as u32,
                        );
                    }
                    assert forall|p: Point3| in_grid(self.dimensions, p) implies 0 <= #[trigger] self.slot(
                        p,
                    ) < self.voxels@.len() by {
                        self.encoder.lemma_index_in_allocation(p.x as u32, p.y as u32, p.z as u32);
                    }
                }
                Some(&mut self.voxels[i])
            },
            None => None,
        }
    }
}

} // verus!
