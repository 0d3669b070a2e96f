//! Integer core of a sparse voxel octree renderer: grid coordinates,
//! per-level cell indices, the flat layout of all levels in one buffer,
//! buffer sizing, and asset-path helpers.
#![allow(unused_imports)]

use vstd::prelude::*;

pub mod vec3;
pub mod layout;
pub mod basics;
pub mod compute;
pub mod shaders;
pub mod octree;
pub mod js_reader;
