use vstd::prelude::*;

verus! {

/// An integer coordinate of the voxel grid.
#[derive(Clone, Copy, Debug, PartialEq, Eq, Structural)]
pub struct Point3 {
    pub x: i32,
    pub y: i32,
    pub z: i32,
}

/// Unsigned extents of a grid along each axis.
#[derive(Clone, Copy, Debug, PartialEq, Eq, Structural)]
pub struct Dimensions {
    pub x: u32,
    pub y: u32,
    pub z: u32,
}

impl Point3 {
    pub open spec fn origin_spec() -> Point3 {
        Point3 { x: 0, y: 0, z: 0 }
    }

    pub fn new(x: i32, y: i32, z: i32) -> (r: Point3)
        ensures
            r == (Point3 { x, y, z }),
    {
        Point3 { x, y, z }
    }

    pub fn origin() -> (r: Point3)
        ensures
            r == (Point3 { x: 0, y: 0, z: 0 }),
    {
        Point3 { x: 0, y: 0, z: 0 }
    }
}

impl Dimensions {
    pub fn new(x: u32, y: u32, z: u32) -> (r: Dimensions)
        ensures
            r == (Dimensions { x, y, z }),
    {
        Dimensions { x, y, z }
    }
}

} // verus!
