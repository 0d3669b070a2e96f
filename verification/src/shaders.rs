//! The records that the octree buffers hold, and the marker types of the
//! settings stage.
use vstd::prelude::*;

verus! {

/// One voxel: a colour and a material.
#[derive(Clone, Copy, Debug, Default, PartialEq, Eq, Structural)]
pub struct Voxel {
    pub col: u32,
    pub mat: u32,
}

/// One octree cell: a bit mask of its occupied children (zero when empty).
#[derive(Clone, Copy, Debug, Default, PartialEq, Eq, Structural)]
pub struct OCTree {
    pub mask: u32,
}

/// Marker for the stage that uploads the octree settings.
#[derive(Clone, Copy, Debug, Default, PartialEq, Eq, Structural)]
pub struct OCTreeSettingsPlugin;

/// Signal that the octree settings buffer has been written.
#[derive(Clone, Copy, Debug, Default, PartialEq, Eq, Structural)]
pub struct OCTreeBufferReady;

} // verus!
