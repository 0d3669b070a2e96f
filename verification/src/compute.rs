//! Sizes of the buffers and dispatches that build an octree of a given depth.
use vstd::prelude::*;
use vstd::arithmetic::power2::{pow2, lemma_pow2_strictly_increases, lemma2_to64};
use vstd::bits::{lemma_u32_shl_is_mul, lemma_u32_pow2_no_overflow};
use crate::layout::{
    pow8, cells_in_levels, saturate_u32, pow8_u64, lemma_cells_in_levels_closed_form,
    lemma_pow8_monotone, lemma_pow8_values, lemma_cells_in_levels_split,
};

verus! {

/// The number of octree cells in all levels `0..=depth`
/// (`1 + 8 + ... + 8^depth`), clamped to `u32::MAX`.
pub fn calculate_full_depth(depth: u32) -> (r: u32)
    requires
        depth < u32::MAX,
    ensures
        r == saturate_u32(cells_in_levels(0, depth as nat + 1) as int),
        depth <= 10 ==> 7 * r + 1 == pow8(depth as nat + 1),
        depth > 10 ==> r == u32::MAX,
{
    let levels = depth + 1;
    proof {
        lemma_pow8_values();
        lemma_cells_in_levels_closed_form(0, levels as nat);
    }
    if levels > 11 {
        proof {
            lemma_pow8_monotone(12, levels as nat);
        }
        u32::MAX
    } else {
        let all = pow8_u64(levels);
        proof {
            lemma_pow8_monotone(levels as nat, 11);
            let c = cells_in_levels(0, levels as nat) as int;
            assert((7 * c) / 7 == c) by (nonlinear_arith);
        }
        ((all - 1) / 7) as u32
    }
}

/// The number of voxels of an octree of depth `depth`: `8^(depth + 1)`,
/// clamped to `u32::MAX`.
pub fn calculate_max_voxel(depth: u32) -> (r: u32)
    ensures
        r == saturate_u32(pow8(depth as nat + 1) as int),
{
    proof {
        lemma_pow8_values();
    }
    if depth >= 10 {
        proof {
            lemma_pow8_monotone(11, depth as nat + 1);
        }
        u32::MAX
    } else {
        proof {
            lemma_pow8_monotone(depth as nat + 1, 10);
        }
        pow8_u64(depth + 1) as u32
    }
}

/// The side length, in cells, of level `depth`: `2^depth`, clamped to `u32::MAX`.
pub fn calculate_current_size(depth: u32) -> (r: u32)
    ensures
        r == saturate_u32(pow2(depth as nat) as int),
{
    proof {
        lemma2_to64();
    }
    if depth == 0 {
        return 1;
    }
    if depth >= 32 {
        proof {
            if depth > 32 {
                lemma_pow2_strictly_increases(32, depth as nat);
            }
        }
        u32::MAX
    } else {
        proof {
            lemma_u32_pow2_no_overflow(depth as nat);
            lemma_u32_shl_is_mul(1, depth);
        }
        1u32 << depth
    }
}

/// The cells of an octree of depth `i` (what `calculate_full_depth` counts)
/// are those of the levels finer than `cd` (what `count_octrees_below(cd, i)`
/// counts) together with those of the levels `0..=cd`; for `cd == 0` that is
/// the finer levels plus the root.
pub proof fn lemma_full_depth_splits_at_level(cd: nat, i: nat)
    requires
        cd <= i,
    ensures
        cells_in_levels(0, i + 1) == cells_in_levels(cd + 1, i + 1) + cells_in_levels(0, cd + 1),
        cells_in_levels(0, 1) == 1,
{
    lemma_cells_in_levels_split(0, cd + 1, i + 1);
    reveal_with_fuel(cells_in_levels, 2);
}

} // verus!
