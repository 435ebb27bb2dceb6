//! Circular parameterization: a fixed table of sine/cosine samples over
//! one full turn, closed at the seam by repeating the first entry, and the
//! mapping from a sample index and a radius to Cartesian coordinates.
//!
//! The table entries are fixed-point values; callers supply them (they are
//! the only place trigonometry enters the crate) and the constructor
//! closes the seam itself, so the closure of the parameterization is a
//! structural invariant rather than a numeric accident.

use crate::fixed::{div_trunc, div_trunc_i128, lemma_div_trunc_bound, lemma_mul_abs_bound,
    DIM_LIMIT, MAX_POINTS, UNIT};
use crate::vectors::Vector3;
use vstd::prelude::*;

verus! {

/// Maps point indices on a circle to plane coordinates. Entry `n` of the
/// table holds `(sin, cos)` of the `n`-th of `n_points` equally spaced
/// angles; entry `n_points` repeats entry `0` (closed seam), so every
/// index in `0..=n_points` is valid.
pub struct CircleConverter {
    pub sin_cos_table: Vec<(i64, i64)>,
    pub axis_shift: i64,
    pub n_points: usize,
}

impl CircleConverter {
    /// Structural invariant: table length, closed seam, entries within one
    /// unit, and a nonnegative bounded axis shift.
    pub open spec fn wf(&self) -> bool {
        &&& 1 <= self.n_points <= MAX_POINTS
        &&& self.sin_cos_table@.len() == self.n_points + 1
        &&& self.sin_cos_table@[self.n_points as int] == self.sin_cos_table@[0]
        &&& forall|k: int|
            0 <= k < self.sin_cos_table@.len() ==> -UNIT <= (
            #[trigger] self.sin_cos_table@[k]).0 <= UNIT && -UNIT <= self.sin_cos_table@[k].1
                <= UNIT
        &&& 0 <= self.axis_shift <= DIM_LIMIT
    }

    /// Build a sampler from one turn's worth of `(sin, cos)` samples; the
    /// constructor appends sample `0` again so the seam is closed by
    /// construction.
    pub fn new(samples: Vec<(i64, i64)>, axis_shift: i64) -> (c: CircleConverter)
        requires
            1 <= samples@.len() <= MAX_POINTS,
            forall|k: int|
                0 <= k < samples@.len() ==> -UNIT <= (#[trigger] samples@[k]).0 <= UNIT && -UNIT
                    <= samples@[k].1 <= UNIT,
            0 <= axis_shift <= DIM_LIMIT,
        ensures
            c.wf(),
            c.n_points == samples@.len(),
            c.axis_shift == axis_shift,
            forall|k: int| 0 <= k < samples@.len() ==> c.sin_cos_table@[k] == samples@[k],
            c.sin_cos_table@[c.n_points as int] == samples@[0],
    {
        let n_points = samples.len();
        let first = samples[0];
        let mut sin_cos_table = samples;
        sin_cos_table.push(first);
        CircleConverter { sin_cos_table, axis_shift, n_points }
    }

    /// The x coordinate of sample `n` at radius `rho`.
    pub open spec fn sample_x(&self, n: int, rho: int) -> int {
        div_trunc(rho * self.sin_cos_table@[n].1, UNIT as int) + self.axis_shift
    }

    /// The y coordinate of sample `n` at radius `rho`.
    pub open spec fn sample_y(&self, n: int, rho: int) -> int {
        div_trunc(rho * self.sin_cos_table@[n].0, UNIT as int) + self.axis_shift
    }

    /// Plane coordinates of sample `n` at radius `rho`:
    /// `(rho * cos + shift, rho * sin + shift)` in fixed point.
    pub fn get_xy(&self, n: usize, rho: i64) -> (p: (i64, i64))
        requires
            self.wf(),
            n <= self.n_points,
            0 < rho <= DIM_LIMIT,
        ensures
            p.0 == self.sample_x(n as int, rho as int),
            p.1 == self.sample_y(n as int, rho as int),
            self.axis_shift - rho <= p.0 <= self.axis_shift + rho,
            self.axis_shift - rho <= p.1 <= self.axis_shift + rho,
    {
        let (sin_phi, cos_phi) = self.sin_cos_table[n];
        proof {
            lemma_mul_abs_bound(rho as int, cos_phi as int, rho as int, UNIT as int);
            lemma_mul_abs_bound(rho as int, sin_phi as int, rho as int, UNIT as int);
            lemma_div_trunc_bound(rho * cos_phi, UNIT as int, rho as int);
            lemma_div_trunc_bound(rho * sin_phi, UNIT as int, rho as int);
        }
        let x: i64 = div_trunc_i128((rho as i128) * (cos_phi as i128), UNIT as u64)
            + self.axis_shift;
        let y: i64 = div_trunc_i128((rho as i128) * (sin_phi as i128), UNIT as u64)
            + self.axis_shift;
        (x, y)
    }

    /// The sample as a spatial point at height `z`.
    pub fn get_vector3(&self, n: usize, rho: i64, z: i64) -> (v: Vector3)
        requires
            self.wf(),
            n <= self.n_points,
            0 < rho <= DIM_LIMIT,
            -DIM_LIMIT <= z <= 3 * DIM_LIMIT,
        ensures
            v.x == self.sample_x(n as int, rho as int),
            v.y == self.sample_y(n as int, rho as int),
            v.z == z,
            self.axis_shift - rho <= v.x <= self.axis_shift + rho,
            self.axis_shift - rho <= v.y <= self.axis_shift + rho,
    {
        let (x, y) = self.get_xy(n, rho);
        Vector3 { x, y, z }
    }
}

/// The seam of the parameterization is closed: sampling at index
/// `n_points` gives exactly the coordinates of index `0`, whatever the
/// radius.
pub proof fn lemma_seam_closed(c: &CircleConverter, rho: int)
    requires
        c.wf(),
    ensures
        c.sample_x(c.n_points as int, rho) == c.sample_x(0, rho),
        c.sample_y(c.n_points as int, rho) == c.sample_y(0, rho),
{
}

} // verus!
