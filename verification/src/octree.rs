//! Grid positions at one octree level and the lookup of their cells in the
//! level-by-level buffer.
use vstd::prelude::*;
use vstd::arithmetic::power2::{pow2, lemma_pow2_strictly_increases, lemma2_to64};
use vstd::bits::{lemma_u32_shl_is_mul, lemma_u32_pow2_no_overflow};
use crate::vec3::{IVec3, UVec3};
use crate::shaders::OCTree;
use crate::basics::{get_unique_index, unique_index_spec, in_grid, layout_index, lemma_unique_index_bound};
use crate::layout::{pow8, cells_in_levels};

verus! {

/// Whether the signed position `gp` lies inside level `i`, whose side is
/// `2^i` cells (level 31 has no position whose side fits an `i32`).
pub open spec fn valid_octree_pos_spec(gp: IVec3, i: nat) -> bool {
    &&& i < 31
    &&& 0 <= gp.x < pow2(i)
    &&& 0 <= gp.y < pow2(i)
    &&& 0 <= gp.z < pow2(i)
}

/// Whether `gp` is a cell of level `i`: every coordinate is at least zero and
/// below the side `1 << i` computed as an `i32`.
pub fn valid_octree_pos(gp: IVec3, i: u32) -> (r: bool)
    requires
        i < 32,
    ensures
        r == valid_octree_pos_spec(gp, i as nat),
        i < 31 ==> (r <==> (0 <= gp.x < pow2(i as nat) && 0 <= gp.y < pow2(i as nat) && 0 <= gp.z
            < pow2(i as nat))),
        i == 31 ==> !r,
{
    let d: i32 = 1i32 << i;
    proof {
        if i < 31 {
            assert((1i32 << i) as int == (1u32 << i) as int) by (bit_vector)
                requires
                    i < 31,
            ;
            lemma_u32_pow2_no_overflow(i as nat);
            lemma_u32_shl_is_mul(1, i);
        } else {
            assert((1i32 << i) == i32::MIN) by (bit_vector)
                requires
                    i == 31,
            ;
        }
    }
    gp.x > -1 && gp.y > -1 && gp.z > -1 && gp.x < d && gp.y < d && gp.z < d
}

/// `gp` with each negative coordinate raised to zero, as unsigned coordinates.
pub open spec fn clamp_to_grid(gp: IVec3) -> UVec3 {
    UVec3 {
        x: if gp.x < 0 { 0 } else { gp.x as u32 },
        y: if gp.y < 0 { 0 } else { gp.y as u32 },
        z: if gp.z < 0 { 0 } else { gp.z as u32 },
    }
}

/// The buffer index of cell `gp` of level `i`, where that level starts at `below`.
pub open spec fn cell_index_spec(gp: IVec3, i: nat, below: nat) -> int {
    below + unique_index_spec(clamp_to_grid(gp), i)
}

/// Whether the grid position `gp` is a cell of level `i` whose octree record,
/// found at `below` plus its index within the level, has a non-empty mask.
/// This is the test that a ray march makes before it stops at a cell.
pub fn octree_cell_occupied(gp: IVec3, i: u32, below: u32, octrees: &Vec<OCTree>) -> (r: bool)
    requires
        i < 32,
        valid_octree_pos_spec(gp, i as nat) ==> cell_index_spec(gp, i as nat, below as nat)
            <= u32::MAX,
        valid_octree_pos_spec(gp, i as nat) ==> cell_index_spec(gp, i as nat, below as nat)
            < octrees.len(),
    ensures
        r ==> valid_octree_pos_spec(gp, i as nat),
        valid_octree_pos_spec(gp, i as nat) ==> (r <==> octrees@[below + gp.x + gp.y * pow2(
            i as nat,
        ) + gp.z * pow2(i as nat) * pow2(i as nat)].mask > 0),
        r == (valid_octree_pos_spec(gp, i as nat) && octrees@[cell_index_spec(
            gp,
            i as nat,
            below as nat,
        )].mask > 0),
{
    if valid_octree_pos(gp, i) {
        let gpu = UVec3 { x: gp.x as u32, y: gp.y as u32, z: gp.z as u32 };
        assert(gpu == clamp_to_grid(gp));
        let index = below + get_unique_index(&gpu, i);
        let octree = octrees[index as usize];
        octree.mask > 0
    } else {
        false
    }
}

/// A position is a cell of level `i` exactly when each of its coordinates is
/// at least zero and below the side `2^i` of the level; so a position one cell
/// past either face of the level, or with any negative coordinate, is not one.
pub proof fn lemma_valid_pos_is_inside_level(gp: IVec3, i: nat)
    ensures
        valid_octree_pos_spec(gp, i) <==> (i < 31 && 0 <= gp.x < pow2(i) && 0 <= gp.y < pow2(i)
            && 0 <= gp.z < pow2(i)),
        gp.x < 0 || gp.y < 0 || gp.z < 0 ==> !valid_octree_pos_spec(gp, i),
        gp.x >= pow2(i) || gp.y >= pow2(i) || gp.z >= pow2(i) ==> !valid_octree_pos_spec(gp, i),
{
}

/// A valid position of level `i`, read as unsigned coordinates, is a cell of
/// that level: the clamp leaves its coordinates unchanged, and its index within
/// the level lies below `8^i`.
pub proof fn lemma_valid_pos_is_grid_cell(gp: IVec3, i: nat)
    requires
        valid_octree_pos_spec(gp, i),
    ensures
        clamp_to_grid(gp).x == gp.x,
        clamp_to_grid(gp).y == gp.y,
        clamp_to_grid(gp).z == gp.z,
        in_grid(clamp_to_grid(gp), i),
        0 <= unique_index_spec(clamp_to_grid(gp), i) < pow8(i),
{
    lemma_unique_index_bound(clamp_to_grid(gp), i);
}

/// The slot that the occupancy test reads for a valid cell `gp` of level `i`
/// is the level's start `below` plus `x + y * 2^i + z * 4^i`: the index under
/// which `get_unique_index` files that cell. It lies within the `8^i` slots of
/// the level, and when the level starts after the finer levels of an octree of
/// depth `depth`, it is the cell's slot in the whole buffer.
pub proof fn lemma_occupancy_reads_cell_slot(gp: IVec3, i: nat, below: nat, depth: nat)
    requires
        valid_octree_pos_spec(gp, i),
    ensures
        cell_index_spec(gp, i, below) == below + gp.x + gp.y * pow2(i) + gp.z * pow2(i) * pow2(i),
        below <= cell_index_spec(gp, i, below) < below + pow8(i),
        below == cells_in_levels(i + 1, depth + 1) ==> cell_index_spec(gp, i, below)
            == layout_index(clamp_to_grid(gp), i, depth),
{
    lemma_valid_pos_is_grid_cell(gp, i);
}

} // verus!
