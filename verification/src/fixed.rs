//! Fixed-point scalar arithmetic: the scale constant, truncating division
//! helpers, and an integer square root. Every coordinate in the crate is a
//! 64-bit count of `UNIT`-ths of a model unit.

use vstd::arithmetic::div_mod::{
    lemma_div_is_ordered, lemma_div_multiples_vanish, lemma_div_pos_is_pos,
    lemma_fundamental_div_mod, lemma_fundamental_div_mod_converse_mod,
};
use vstd::arithmetic::mul::{
    lemma_mul_is_commutative, lemma_mul_is_distributive_sub_other_way, lemma_mul_unary_negation,
};
use vstd::prelude::*;

verus! {

/// Number of integer ticks per model unit; all lengths and coordinates in
/// this crate are fixed-point values counted in these ticks.
pub const UNIT: i64 = 1_000_000;

/// A radius of exactly one half model unit, the fallback for a
/// solid-color (degenerate) radius grid.
pub const HALF_UNIT: i64 = 500_000;

/// Upper bound (in ticks) on every dimension a caller may hand in:
/// radii, diameters, lengths and axis shifts.
pub const DIM_LIMIT: i64 = 2_147_483_648;

/// Upper bound (in ticks) on any single coordinate of a generated mesh
/// point: radii and shifts stay below `DIM_LIMIT` and the z range spans at
/// most three such dimensions (roller length plus two pin lengths).
pub const COORD_LIMIT: i64 = 8_589_934_592;

/// Largest admitted number of samples on one circle, and likewise the
/// largest admitted total number of grid rows or columns once stacking is
/// applied.
pub const MAX_POINTS: u32 = 1_048_576;

/// Quotient of `n / d` rounded toward zero, for a positive divisor.
/// (The spec-level `/` alone rounds toward negative infinity when `n` is
/// negative.)
pub open spec fn div_trunc(n: int, d: int) -> int {
    if n >= 0 {
        n / d
    } else {
        -((-n) / d)
    }
}

/// Truncating division of a wide fixed-point intermediate by a positive
/// divisor, landing back in 64 bits.
pub fn div_trunc_i128(n: i128, d: u64) -> (q: i64)
    requires
        d > 0,
        n > i128::MIN,
        -0x7fff_ffff_ffff_ffff <= div_trunc(n as int, d as int) <= 0x7fff_ffff_ffff_ffff,
    ensures
        q == div_trunc(n as int, d as int),
{
    if n >= 0 {
        let nn: u128 = n as u128;
        let q: u128 = nn / (d as u128);
        proof {
            lemma_div_pos_is_pos(n as int, d as int);
        }
        q as i64
    } else {
        let nn: u128 = (-n) as u128;
        let q: u128 = nn / (d as u128);
        proof {
            lemma_div_pos_is_pos(-(n as int), d as int);
        }
        -(q as i64)
    }
}

/// Truncating division by a positive divisor shrinks magnitudes:
/// if `|n| <= k * d` then `|div_trunc(n, d)| <= k`.
pub proof fn lemma_div_trunc_bound(n: int, d: int, k: int)
    requires
        d > 0,
        0 <= k,
        -(k * d) <= n <= k * d,
    ensures
        -k <= div_trunc(n, d) <= k,
{
    lemma_mul_is_commutative(k, d);
    lemma_div_multiples_vanish(k, d);
    if n >= 0 {
        lemma_div_is_ordered(n, k * d, d);
        lemma_div_pos_is_pos(n, d);
    } else {
        lemma_div_is_ordered(-n, k * d, d);
        lemma_div_pos_is_pos(-n, d);
    }
}

/// Euclidean remainder of `n` modulo a positive `d`, always in `0..d`
/// (spec-level `%` already is Euclidean; this computes it in executable
/// code from unsigned operations).
pub fn mod_euclid_i64(n: i64, d: i64) -> (r: i64)
    requires
        0 < d,
        n > i64::MIN,
    ensures
        r == (n as int) % (d as int),
        0 <= r < d,
{
    if n >= 0 {
        ((n as u64) % (d as u64)) as i64
    } else {
        let m: i64 = (((-n) as u64) % (d as u64)) as i64;
        proof {
            let ni = n as int;
            let di = d as int;
            let q = (-ni) / di;
            lemma_fundamental_div_mod(-ni, di);
            lemma_mul_unary_negation(di, q);
            lemma_mul_is_commutative(di, q);
            lemma_mul_is_commutative(-q, di);
            if m == 0 {
                assert(ni == (-q) * di + 0);
                lemma_fundamental_div_mod_converse_mod(ni, di, -q, 0);
            } else {
                lemma_mul_unary_negation(q, di);
                lemma_mul_is_distributive_sub_other_way(di, -q, 1);
                assert(ni == (-q - 1) * di + (di - m));
                lemma_fundamental_div_mod_converse_mod(ni, di, -q - 1, di - m);
            }
        }
        if m == 0 {
            0
        } else {
            d - m
        }
    }
}

/// A product is bounded by the product of the factors' bounds.
pub proof fn lemma_mul_abs_bound(a: int, b: int, bound_a: int, bound_b: int)
    by (nonlinear_arith)
    requires
        -bound_a <= a <= bound_a,
        -bound_b <= b <= bound_b,
    ensures
        -(bound_a * bound_b) <= a * b <= bound_a * bound_b,
{
}

/// `r` is the integer square root of `n`.
pub open spec fn is_isqrt(n: int, r: int) -> bool {
    0 <= r && r * r <= n && n < (r + 1) * (r + 1)
}

/// The integer square root, as a spec-level value.
pub open spec fn isqrt_spec(n: int) -> int {
    choose|r: int| is_isqrt(n, r)
}

/// Every nonnegative integer has an integer square root.
pub proof fn lemma_isqrt_exists(n: int)
    requires
        0 <= n,
    ensures
        is_isqrt(n, isqrt_spec(n)),
    decreases n,
{
    if n == 0 {
        assert(is_isqrt(0, 0));
    } else {
        lemma_isqrt_exists(n - 1);
        let r0 = isqrt_spec(n - 1);
        if (r0 + 1) * (r0 + 1) <= n {
            assert(is_isqrt(n, r0 + 1)) by (nonlinear_arith)
                requires
                    0 <= r0,
                    r0 * r0 <= n - 1,
                    n - 1 < (r0 + 1) * (r0 + 1),
                    (r0 + 1) * (r0 + 1) <= n,
            ;
        } else {
            assert(is_isqrt(n, r0));
        }
    }
}

/// The integer square root is unique.
pub proof fn lemma_isqrt_unique(n: int, a: int, b: int)
    by (nonlinear_arith)
    requires
        0 <= a,
        0 <= b,
        a * a <= n,
        n < (a + 1) * (a + 1),
        b * b <= n,
        n < (b + 1) * (b + 1),
    ensures
        a == b,
{
}

/// Integer square root of a 128-bit value, by bisection.
pub fn isqrt(n: u128) -> (r: u64)
    requires
        (n as int) < 0x4000_0000_0000_0000_0000_0000_0000_0000,
    ensures
        r as int == isqrt_spec(n as int),
        is_isqrt(n as int, r as int),
{
    let mut lo: u64 = 0;
    let mut hi: u64 = 0x8000_0000_0000_0000;
    while lo + 1 < hi
        invariant
            lo < hi <= 0x8000_0000_0000_0000,
            (lo as int) * (lo as int) <= n as int,
            (n as int) < (hi as int) * (hi as int),
        decreases hi - lo,
    {
        let mid: u64 = lo + (hi - lo) / 2;
        proof {
            assert((mid as int) * (mid as int) < 0x4000_0000_0000_0000_0000_0000_0000_0001int)
                by (nonlinear_arith)
                requires
                    mid <= 0x8000_0000_0000_0000u64,
            ;
        }
        let sq: u128 = (mid as u128) * (mid as u128);
        if sq <= n {
            lo = mid;
        } else {
            hi = mid;
        }
    }
    proof {
        lemma_isqrt_exists(n as int);
        lemma_isqrt_unique(n as int, lo as int, isqrt_spec(n as int));
    }
    lo
}

} // verus!
