//! Adaptive diagonal selection: each grid cell is split into two triangles
//! along the diagonal whose four-sample radius sequence is closer to a
//! straight line, measured by the least-squares sum of squared errors
//! against the best-fit line over the abscissas 0, 1, 2, 3.

use crate::fixed::lemma_mul_abs_bound;
use crate::parameters::Parameters;
use vstd::arithmetic::mul::{
    lemma_mul_inequality, lemma_mul_is_commutative, lemma_mul_strictly_positive,
};
use vstd::prelude::*;

verus! {

/// Twenty times the least-squares sum of squared errors of the sequence
/// `(0, y1), (1, y2), (2, y3), (3, y4)` against its best-fit line.
///
/// With `S = Σy` and `X = Σ x·y`, the residual is
/// `SSE = Σy² − S²/4 − (X − 1.5·S)²/5`; multiplying by 20 clears both
/// denominators (`(2X − 3S)² = 4(X − 1.5S)²`), so over integer inputs the
/// value here is exact and compares like the real-valued residual.
pub open spec fn sse20_spec(y1: int, y2: int, y3: int, y4: int) -> int {
    let sum_y = y1 + y2 + y3 + y4;
    let sum_sq = y1 * y1 + y2 * y2 + y3 * y3 + y4 * y4;
    let centered = 2 * (y2 + 2 * y3 + 3 * y4) - 3 * sum_y;
    20 * sum_sq - 5 * (sum_y * sum_y) - centered * centered
}

/// Twenty times the least-squares line-fit residual of four samples, exact
/// in integers (see `sse20_spec`); scaling all four inputs by a factor
/// scales the result by its square, so comparisons are scale-invariant.
pub fn lls_sse(y1: i64, y2: i64, y3: i64, y4: i64) -> (r: i128)
    requires
        -0x8000_0000 <= y1 <= 0x8000_0000,
        -0x8000_0000 <= y2 <= 0x8000_0000,
        -0x8000_0000 <= y3 <= 0x8000_0000,
        -0x8000_0000 <= y4 <= 0x8000_0000,
    ensures
        r == sse20_spec(y1 as int, y2 as int, y3 as int, y4 as int),
{
    proof {
        lemma_mul_abs_bound(y1 as int, y1 as int, 0x8000_0000, 0x8000_0000);
        lemma_mul_abs_bound(y2 as int, y2 as int, 0x8000_0000, 0x8000_0000);
        lemma_mul_abs_bound(y3 as int, y3 as int, 0x8000_0000, 0x8000_0000);
        lemma_mul_abs_bound(y4 as int, y4 as int, 0x8000_0000, 0x8000_0000);
    }
    let sum_y: i128 = y1 as i128 + y2 as i128 + y3 as i128 + y4 as i128;
    let sum_sq: i128 = (y1 as i128) * (y1 as i128) + (y2 as i128) * (y2 as i128) + (y3 as i128)
        * (y3 as i128) + (y4 as i128) * (y4 as i128);
    let centered: i128 = 2 * ((y2 as i128) + 2 * (y3 as i128) + 3 * (y4 as i128)) - 3 * sum_y;
    proof {
        lemma_mul_abs_bound(sum_y as int, sum_y as int, 0x2_0000_0000, 0x2_0000_0000);
        lemma_mul_abs_bound(centered as int, centered as int, 0x10_0000_0000, 0x10_0000_0000);
    }
    20 * sum_sq - 5 * (sum_y * sum_y) - centered * centered
}

/// An exactly linear sequence has no residual: the fit is perfect on every
/// arithmetic progression (constant sequences included).
pub proof fn lemma_sse_arithmetic_progression_zero(start: int, step: int)
    ensures
        sse20_spec(start, start + step, start + 2 * step, start + 3 * step) == 0,
{
    assert(sse20_spec(start, start + step, start + 2 * step, start + 3 * step) == 0)
        by (nonlinear_arith);
}

/// Past the best-fit continuation of the first three samples, the residual
/// grows strictly with the deviation of the fourth sample: the selector's
/// score is monotonically sensitive to how far the sequence bends away
/// from a line.
pub proof fn lemma_sse_deviation_monotonic(y1: int, y2: int, y3: int, low: int, high: int)
    requires
        low < high,
        3 * low >= y2 + 4 * y3 - 2 * y1,
    ensures
        sse20_spec(y1, y2, y3, low) < sse20_spec(y1, y2, y3, high),
{
    assert(sse20_spec(y1, y2, y3, high) - sse20_spec(y1, y2, y3, low) == (high - low) * (6 * (high
        + low) - (16 * y3 + 4 * y2 - 8 * y1))) by (nonlinear_arith);
    lemma_mul_strictly_positive(high - low, 6 * (high + low) - (16 * y3 + 4 * y2 - 8 * y1));
}

/// Residual of the four radii along the top-left-to-bottom-right diagonal
/// through cell `(i, j)`, sampled with toroidal addressing.
pub open spec fn diagonal_a_sse(params: &Parameters, i: int, j: int) -> int {
    sse20_spec(
        params.rho_looped_spec(i - 1, j - 1),
        params.rho_looped_spec(i, j),
        params.rho_looped_spec(i + 1, j + 1),
        params.rho_looped_spec(i + 2, j + 2),
    )
}

/// Residual of the four radii along the bottom-left-to-top-right diagonal
/// through cell `(i, j)`, sampled with toroidal addressing.
pub open spec fn diagonal_b_sse(params: &Parameters, i: int, j: int) -> int {
    sse20_spec(
        params.rho_looped_spec(i - 1, j + 2),
        params.rho_looped_spec(i, j + 1),
        params.rho_looped_spec(i + 1, j),
        params.rho_looped_spec(i + 2, j - 1),
    )
}

/// Choose the diagonal for cell `(i, j)` that better preserves the local
/// curvature: `true` selects the top-left-to-bottom-right diagonal, which
/// also wins ties. Returns the choice together with the cell's own four
/// corner radii (top-left, top-right, bottom-left, bottom-right).
pub fn split_quad_optimal(params: &Parameters, i: usize, j: usize) -> (r: (bool, i64, i64, i64, i64))
    requires
        params.wf(),
        i < params.image_width,
        j < params.image_height,
    ensures
        r.0 == (diagonal_a_sse(params, i as int, j as int) <= diagonal_b_sse(
            params,
            i as int,
            j as int,
        )),
        r.1 == params.rho_looped_spec(i as int, j as int),
        r.2 == params.rho_looped_spec(i as int + 1, j as int),
        r.3 == params.rho_looped_spec(i as int, j as int + 1),
        r.4 == params.rho_looped_spec(i as int + 1, j as int + 1),
        0 < r.1 && 0 < r.2 && 0 < r.3 && 0 < r.4,
        r.1 <= crate::fixed::DIM_LIMIT && r.2 <= crate::fixed::DIM_LIMIT && r.3
            <= crate::fixed::DIM_LIMIT && r.4 <= crate::fixed::DIM_LIMIT,
{
    proof {
        lemma_mul_inequality(1, params.stack_horizontal as int, params.image_width as int);
        lemma_mul_is_commutative(params.stack_horizontal as int, params.image_width as int);
        lemma_mul_inequality(1, params.stack_vertical as int, params.image_height as int);
        lemma_mul_is_commutative(params.stack_vertical as int, params.image_height as int);
    }
    let col: i32 = i as i32;
    let row: i32 = j as i32;
    let corner_tl = params.get_rho_looped(col - 1, row - 1);
    let corner_tr = params.get_rho_looped(col - 1, row + 2);
    let corner_bl = params.get_rho_looped(col + 2, row - 1);
    let corner_br = params.get_rho_looped(col + 2, row + 2);
    let quad_tl = params.get_rho_looped(col, row);
    let quad_tr = params.get_rho_looped(col + 1, row);
    let quad_bl = params.get_rho_looped(col, row + 1);
    let quad_br = params.get_rho_looped(col + 1, row + 1);
    let tlbr_split_score = lls_sse(corner_tl, quad_tl, quad_br, corner_br);
    let trbl_split_score = lls_sse(corner_tr, quad_bl, quad_tr, corner_bl);
    let tlbr_split = tlbr_split_score <= trbl_split_score;
    (tlbr_split, quad_tl, quad_tr, quad_bl, quad_br)
}

} // verus!
