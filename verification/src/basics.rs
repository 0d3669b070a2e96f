//! Cell arithmetic inside one octree level and across levels.
use vstd::prelude::*;
use vstd::arithmetic::power2::{pow2, lemma_pow2_unfold, lemma_pow2_pos, lemma_pow2_strictly_increases, lemma2_to64};
use vstd::arithmetic::div_mod::{lemma_fundamental_div_mod_converse, lemma_fundamental_div_mod};
use vstd::bits::{lemma_u32_shl_is_mul, lemma_u32_pow2_no_overflow};
use crate::vec3::UVec3;
use crate::layout::{
    pow8, cells_in_levels, pow8_u64, lemma_cells_in_levels_closed_form, lemma_pow8_monotone,
    lemma_pow8_values, lemma_pow8_is_cube, lemma_cells_in_levels_split,
};

verus! {

/// The position of a child cell: twice the parent position plus the child's
/// offset, coordinate by coordinate.
pub open spec fn child_pos_spec(parent: UVec3, rel: UVec3) -> UVec3 {
    UVec3 {
        x: (2 * parent.x + rel.x) as u32,
        y: (2 * parent.y + rel.y) as u32,
        z: (2 * parent.z + rel.z) as u32,
    }
}

/// Position of the child of `parent_pos` at offset `child_rel_pos` in the next finer level.
pub fn get_child_pos(parent_pos: &UVec3, child_rel_pos: &UVec3) -> (r: UVec3)
    requires
        2 * parent_pos.x + child_rel_pos.x <= u32::MAX,
        2 * parent_pos.y + child_rel_pos.y <= u32::MAX,
        2 * parent_pos.z + child_rel_pos.z <= u32::MAX,
    ensures
        r == child_pos_spec(*parent_pos, *child_rel_pos),
        r.x == 2 * parent_pos.x + child_rel_pos.x,
        r.y == 2 * parent_pos.y + child_rel_pos.y,
        r.z == 2 * parent_pos.z + child_rel_pos.z,
{
    UVec3 {
        x: parent_pos.x * 2 + child_rel_pos.x,
        y: parent_pos.y * 2 + child_rel_pos.y,
        z: parent_pos.z * 2 + child_rel_pos.z,
    }
}

/// The index of cell `pos` within a level of side `2^i`: `x + y * 2^i + z * 4^i`.
pub open spec fn unique_index_spec(pos: UVec3, i: nat) -> int {
    pos.x + pos.y * pow2(i) + pos.z * pow2(i) * pow2(i)
}

/// The index of cell `pos` within level `i`, whose side is `2^i` cells.
pub fn get_unique_index(pos: &UVec3, i: u32) -> (r: u32)
    requires
        i < 32,
        unique_index_spec(*pos, i as nat) <= u32::MAX,
    ensures
        r == unique_index_spec(*pos, i as nat),
        r == pos.x + pos.y * pow2(i as nat) + pos.z * pow2(i as nat) * pow2(i as nat),
{
    proof {
        lemma_u32_pow2_no_overflow(i as nat);
        lemma_u32_shl_is_mul(1, i);
    }
    let d: u32 = 1 << i;
    proof {
        let x = pos.x as int;
        let y = pos.y as int;
        let z = pos.z as int;
        let dd = d as int;
        assert(y * dd >= 0 && z * dd * dd >= 0 && z * dd <= z * dd * dd) by (nonlinear_arith)
            requires
                y >= 0,
                z >= 0,
                dd >= 1,
        ;
    }
    pos.x + pos.y * d + pos.z * d * d
}

/// The number of cells in the levels strictly finer than `cd`, down to and
/// including level `i`: `8^(cd+1) + ... + 8^i`, and zero when `cd >= i`.
/// It is the offset in a level-by-level buffer (finest level first) at which
/// level `cd` starts, for an octree of depth `i`.
pub fn count_octrees_below(cd: u32, i: u32) -> (r: u32)
    requires
        cd < 10,
        i < 10,
    ensures
        r == cells_in_levels(cd as nat + 1, i as nat + 1),
        cd <= i ==> 7 * r + pow8(cd as nat + 1) == pow8(i as nat + 1),
        cd >= i ==> r == 0,
{
    let upper = pow8_u64(i + 1);
    let lower = pow8_u64(cd + 1);
    proof {
        lemma_pow8_values();
        lemma_pow8_monotone(i as nat + 1, 10);
    }
    if lower < upper {
        proof {
            if cd + 1 > i + 1 {
                lemma_pow8_monotone(i as nat + 1, cd as nat + 1);
            }
            lemma_cells_in_levels_closed_form(cd as nat + 1, i as nat + 1);
            let c = cells_in_levels(cd as nat + 1, i as nat + 1) as int;
            assert((7 * c) / 7 == c) by (nonlinear_arith);
        }
        ((upper - lower) / 7) as u32
    } else {
        proof {
            if cd + 1 < i + 1 {
                lemma_cells_in_levels_closed_form(cd as nat + 1, i as nat + 1);
            }
        }
        0
    }
}

/// `l` when `cond` holds, `r` otherwise.
pub fn select<T>(l: T, r: T, cond: bool) -> (res: T)
    ensures
        res == (if cond { l } else { r }),
{
    if cond {
        l
    } else {
        r
    }
}

/// Whether every coordinate of `p` is below `2^d`: `p` is a cell of level `d`.
pub open spec fn in_grid(p: UVec3, d: nat) -> bool {
    &&& p.x < pow2(d)
    &&& p.y < pow2(d)
    &&& p.z < pow2(d)
}

/// Whether `rel` is the offset of one of the eight children of a cell.
pub open spec fn is_child_offset(rel: UVec3) -> bool {
    &&& rel.x <= 1
    &&& rel.y <= 1
    &&& rel.z <= 1
}

/// A child of a cell of level `d` is a cell of level `d + 1`, and its
/// coordinates are computed without wrapping.
pub proof fn lemma_child_in_next_level(parent: UVec3, rel: UVec3, d: nat)
    requires
        d < 32,
        in_grid(parent, d),
        is_child_offset(rel),
    ensures
        2 * parent.x + rel.x < pow2(d + 1),
        2 * parent.y + rel.y < pow2(d + 1),
        2 * parent.z + rel.z < pow2(d + 1),
        2 * parent.x + rel.x <= u32::MAX,
        2 * parent.y + rel.y <= u32::MAX,
        2 * parent.z + rel.z <= u32::MAX,
        in_grid(child_pos_spec(parent, rel), d + 1),
{
    lemma_pow2_unfold(d + 1);
    lemma2_to64();
    if d + 1 < 32 {
        lemma_pow2_strictly_increases(d + 1, 32);
    }
}

/// Distinct (parent, offset) pairs of level `d` give distinct children.
pub proof fn lemma_child_pos_injective(p1: UVec3, r1: UVec3, p2: UVec3, r2: UVec3, d: nat)
    requires
        d < 32,
        in_grid(p1, d),
        in_grid(p2, d),
        is_child_offset(r1),
        is_child_offset(r2),
        child_pos_spec(p1, r1) == child_pos_spec(p2, r2),
    ensures
        p1 == p2,
        r1 == r2,
{
    lemma_child_in_next_level(p1, r1, d);
    lemma_child_in_next_level(p2, r2, d);
}

/// Every cell of level `d + 1` is a child of a cell of level `d`: of the cell
/// at half its coordinates, at the offset of their remainders.
pub proof fn lemma_every_cell_has_parent(c: UVec3, d: nat)
    requires
        in_grid(c, d + 1),
    ensures
        ({
            let parent = UVec3 { x: c.x / 2, y: c.y / 2, z: c.z / 2 };
            let rel = UVec3 { x: c.x % 2, y: c.y % 2, z: c.z % 2 };
            &&& in_grid(parent, d)
            &&& is_child_offset(rel)
            &&& child_pos_spec(parent, rel) == c
        }),
{
    lemma_pow2_unfold(d + 1);
}

/// Distinct cells of level `d` have distinct indices.
pub proof fn lemma_unique_index_injective(p1: UVec3, p2: UVec3, d: nat)
    requires
        in_grid(p1, d),
        in_grid(p2, d),
        unique_index_spec(p1, d) == unique_index_spec(p2, d),
    ensures
        p1 == p2,
{
    lemma_digits_of_unique_index(p1, d);
    lemma_digits_of_unique_index(p2, d);
}

/// The coordinates of a cell of level `d` are the base-`2^d` digits of its index.
pub proof fn lemma_digits_of_unique_index(p: UVec3, d: nat)
    requires
        in_grid(p, d),
    ensures
        p.x == unique_index_spec(p, d) % (pow2(d) as int),
        p.y == (unique_index_spec(p, d) / (pow2(d) as int)) % (pow2(d) as int),
        p.z == (unique_index_spec(p, d) / (pow2(d) as int)) / (pow2(d) as int),
{
    lemma_pow2_pos(d);
    let dd = pow2(d) as int;
    let x = p.x as int;
    let y = p.y as int;
    let z = p.z as int;
    let q = y + z * dd;
    assert(x + y * dd + z * dd * dd == q * dd + x) by (nonlinear_arith)
        requires
            q == y + z * dd,
    ;
    lemma_fundamental_div_mod_converse(unique_index_spec(p, d), dd, q, x);
    lemma_fundamental_div_mod_converse(q, dd, z, y);
}

/// The indices of the cells of level `d` lie below `8^d`.
pub proof fn lemma_unique_index_bound(p: UVec3, d: nat)
    requires
        in_grid(p, d),
    ensures
        0 <= unique_index_spec(p, d) < pow8(d),
{
    lemma_pow8_is_cube(d);
    let dd = pow2(d) as int;
    let x = p.x as int;
    let y = p.y as int;
    let z = p.z as int;
    assert(0 <= x + y * dd + z * dd * dd < dd * dd * dd) by (nonlinear_arith)
        requires
            0 <= x < dd,
            0 <= y < dd,
            0 <= z < dd,
    ;
}

/// Every index below `8^d` is the index of a cell of level `d`.
pub proof fn lemma_unique_index_onto(n: int, d: nat)
    requires
        d <= 32,
        0 <= n < pow8(d),
    ensures
        exists|p: UVec3| in_grid(p, d) && unique_index_spec(p, d) == n,
{
    lemma_pow8_is_cube(d);
    lemma_pow2_pos(d);
    lemma2_to64();
    if d < 32 {
        lemma_pow2_strictly_increases(d, 32);
    }
    let dd = pow2(d) as int;
    lemma_fundamental_div_mod(n, dd);
    let x = n % dd;
    let q = n / dd;
    lemma_fundamental_div_mod(q, dd);
    let y = q % dd;
    let z = q / dd;
    assert(0 <= q && 0 <= z < dd) by (nonlinear_arith)
        requires
            0 <= n < dd * dd * dd,
            dd > 0,
            n == dd * q + x,
            0 <= x < dd,
            q == dd * z + y,
            0 <= y < dd,
    ;
    assert(0 <= x < dd && 0 <= y < dd);
    let p = UVec3 { x: x as u32, y: y as u32, z: z as u32 };
    assert(x + y * dd + z * dd * dd == n) by (nonlinear_arith)
        requires
            n == dd * q + x,
            q == dd * z + y,
    ;
    assert(in_grid(p, d) && unique_index_spec(p, d) == n);
}

/// Where the cell `p` of level `d` lands in the buffer of an octree of depth
/// `i` laid out finest level first: at the cell count of the finer levels
/// plus its index within its level.
pub open spec fn layout_index(p: UVec3, d: nat, i: nat) -> int {
    cells_in_levels(d + 1, i + 1) + unique_index_spec(p, d)
}

/// The cells of level `d` occupy the buffer slots from the cell count of the
/// finer levels up to that count plus `8^d`, all below the total cell count.
pub proof fn lemma_layout_index_bounds(p: UVec3, d: nat, i: nat)
    requires
        d <= i,
        in_grid(p, d),
    ensures
        cells_in_levels(d + 1, i + 1) <= layout_index(p, d, i) < cells_in_levels(d, i + 1),
        cells_in_levels(d, i + 1) <= cells_in_levels(0, i + 1),
{
    lemma_unique_index_bound(p, d);
    lemma_cells_in_levels_split(d, d + 1, i + 1);
    lemma_cells_in_levels_split(0, d, i + 1);
}

/// No two cells of an octree of depth `i`, at any levels, share a buffer slot,
/// and every slot lies below the total cell count `1 + 8 + ... + 8^i`.
pub proof fn lemma_layout_injective(p1: UVec3, d1: nat, p2: UVec3, d2: nat, i: nat)
    requires
        d1 <= i,
        d2 <= i,
        in_grid(p1, d1),
        in_grid(p2, d2),
        layout_index(p1, d1, i) == layout_index(p2, d2, i),
    ensures
        d1 == d2,
        p1 == p2,
        0 <= layout_index(p1, d1, i) < cells_in_levels(0, i + 1),
{
    lemma_layout_index_bounds(p1, d1, i);
    lemma_layout_index_bounds(p2, d2, i);
    if d1 < d2 {
        lemma_cells_in_levels_split(d1 + 1, d2, i + 1);
    } else if d2 < d1 {
        lemma_cells_in_levels_split(d2 + 1, d1, i + 1);
    }
    assert(d1 == d2);
    lemma_unique_index_injective(p1, p2, d1);
}

/// Every slot below the total cell count of an octree of depth `i` holds a
/// cell: slot `n` belongs to some level `d <= i` and some cell of it.
pub proof fn lemma_layout_onto(n: int, i: nat)
    requires
        i < 32,
        0 <= n < cells_in_levels(0, i + 1),
    ensures
        exists|d: nat, p: UVec3| d <= i && in_grid(p, d) && layout_index(p, d, i) == n,
{
    lemma_layout_onto_from_level(n, i, i);
}

/// Slot `n` lies at level `d` or a coarser one, when it is not below the
/// cells of the levels finer than `d`.
proof fn lemma_layout_onto_from_level(n: int, i: nat, d: nat)
    requires
        i < 32,
        d <= i,
        cells_in_levels(d + 1, i + 1) <= n < cells_in_levels(0, i + 1),
    ensures
        exists|e: nat, p: UVec3| e <= i && in_grid(p, e) && layout_index(p, e, i) == n,
    decreases d,
{
    lemma_cells_in_levels_split(d, d + 1, i + 1);
    reveal_with_fuel(cells_in_levels, 2);
    assert(cells_in_levels(d, d + 1) == pow8(d));
    if n < cells_in_levels(d, i + 1) {
        let m = n - cells_in_levels(d + 1, i + 1);
        lemma_unique_index_onto(m, d);
        let p = choose|p: UVec3| in_grid(p, d) && unique_index_spec(p, d) == m;
        assert(layout_index(p, d, i) == n);
    } else {
        if d == 0 {
            assert(false);
        } else {
            lemma_layout_onto_from_level(n, i, (d - 1) as nat);
        }
    }
}

} // verus!
