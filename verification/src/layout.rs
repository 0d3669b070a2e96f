//! The mathematical model of an octree laid out level by level:
//! level `k` holds `8^k` cells, and the cells of several levels are counted
//! by a geometric sum.
use vstd::prelude::*;
use vstd::arithmetic::power2::{pow2, lemma_pow2_unfold, lemma_pow2_pos, lemma2_to64};

verus! {

/// `8^n`: the number of cells in level `n` of an octree.
pub open spec fn pow8(n: nat) -> nat
    decreases n,
{
    if n == 0 {
        1
    } else {
        8 * pow8((n - 1) as nat)
    }
}

/// The number of cells in the levels `lo, lo + 1, ..., hi - 1` (zero when `hi <= lo`).
pub open spec fn cells_in_levels(lo: nat, hi: nat) -> nat
    decreases hi,
{
    if hi <= lo {
        0
    } else {
        cells_in_levels(lo, (hi - 1) as nat) + pow8((hi - 1) as nat)
    }
}

/// `n` clamped to the largest `u32`.
pub open spec fn saturate_u32(n: int) -> int {
    if n > u32::MAX {
        u32::MAX as int
    } else {
        n
    }
}

/// The geometric sum in closed form: `7 * (8^lo + ... + 8^(hi-1)) == 8^hi - 8^lo`.
pub proof fn lemma_cells_in_levels_closed_form(lo: nat, hi: nat)
    requires
        lo <= hi,
    ensures
        7 * cells_in_levels(lo, hi) + pow8(lo) == pow8(hi),
    decreases hi,
{
    if hi > lo {
        lemma_cells_in_levels_closed_form(lo, (hi - 1) as nat);
    }
}

/// `8^n` grows with `n`.
pub proof fn lemma_pow8_monotone(a: nat, b: nat)
    requires
        a <= b,
    ensures
        1 <= pow8(a) <= pow8(b),
    decreases b,
{
    if b > 0 {
        if b > a {
            lemma_pow8_monotone(a, (b - 1) as nat);
        } else {
            lemma_pow8_monotone((a - 1) as nat, (b - 1) as nat);
        }
    }
}

/// `8^n == (2^n)^3`: a level with side `2^n` holds `8^n` cells.
pub proof fn lemma_pow8_is_cube(n: nat)
    ensures
        pow8(n) == pow2(n) * pow2(n) * pow2(n),
    decreases n,
{
    if n == 0 {
        lemma2_to64();
    } else {
        lemma_pow2_unfold(n);
        lemma_pow8_is_cube((n - 1) as nat);
        let p = pow2((n - 1) as nat) as int;
        assert((2 * p) * (2 * p) * (2 * p) == 8 * (p * p * p)) by (nonlinear_arith);
    }
}

/// Small values of `8^n` used for bounds.
pub proof fn lemma_pow8_values()
    ensures
        pow8(0) == 1,
        pow8(1) == 8,
        pow8(2) == 64,
        pow8(3) == 512,
        pow8(4) == 4096,
        pow8(10) == 0x4000_0000,
        pow8(11) == 0x2_0000_0000,
        pow8(12) == 0x10_0000_0000,
{
    reveal_with_fuel(pow8, 13);
}

/// Splitting the levels `lo..hi` at `mid`.
pub proof fn lemma_cells_in_levels_split(lo: nat, mid: nat, hi: nat)
    requires
        lo <= mid <= hi,
    ensures
        cells_in_levels(lo, hi) == cells_in_levels(lo, mid) + cells_in_levels(mid, hi),
    decreases hi,
{
    if hi > mid {
        lemma_cells_in_levels_split(lo, mid, (hi - 1) as nat);
    }
}

} // verus!

verus! {

/// `8^n` computed by repeated multiplication.
pub(crate) fn pow8_u64(n: u32) -> (r: u64)
    requires
        n <= 11,
    ensures
        r == pow8(n as nat),
{
    let mut r: u64 = 1;
    let mut k: u32 = 0;
    while k < n
        invariant
            k <= n <= 11,
            r == pow8(k as nat),
        decreases n - k,
    {
        proof {
            lemma_pow8_monotone((k + 1) as nat, 11);
            lemma_pow8_values();
        }
        r = r * 8;
        k = k + 1;
    }
    r
}

} // verus!
