//! Integer vectors in three dimensions, as used for grid coordinates.
use vstd::prelude::*;

verus! {

/// A vector of three unsigned coordinates: a cell position in an octree level.
#[derive(Clone, Copy, Debug, PartialEq, Eq, Structural, Hash)]
pub struct UVec3 {
    pub x: u32,
    pub y: u32,
    pub z: u32,
}

/// A vector of three signed coordinates: a grid position that may lie outside the grid.
#[derive(Clone, Copy, Debug, PartialEq, Eq, Structural, Hash)]
pub struct IVec3 {
    pub x: i32,
    pub y: i32,
    pub z: i32,
}

impl UVec3 {
    pub fn new(x: u32, y: u32, z: u32) -> (v: UVec3)
        ensures
            v.x == x,
            v.y == y,
            v.z == z,
    {
        UVec3 { x, y, z }
    }
}

impl IVec3 {
    pub fn new(x: i32, y: i32, z: i32) -> (v: IVec3)
        ensures
            v.x == x,
            v.y == y,
            v.z == z,
    {
        IVec3 { x, y, z }
    }
}

} // verus!
