//! The validated input of a generation pass: the radius grid with its
//! dimensions and stacking counts, the roller dimensions, and the end-cap
//! selection, together with the exact face-count accounting.

use crate::fixed::{lemma_mul_abs_bound, mod_euclid_i64, DIM_LIMIT, MAX_POINTS};
use crate::RollerError;
use vstd::arithmetic::mul::{
    lemma_mul_inequality, lemma_mul_is_associative, lemma_mul_is_commutative,
};
use vstd::prelude::*;

verus! {

/// Which geometry closes the two ends of the roller.
#[derive(Clone, Copy, PartialEq, Eq, Structural, Debug)]
pub enum RollerEnd {
    /// Solid flat discs.
    Flat,
    /// A protruding axle pin on each end, sampled at its own resolution.
    Pin { pin_diameter: i64, pin_length: i64, circle_points: u32 },
    /// A coaxial cylindrical bore through the whole roller.
    Channel { channel_diameter: i64, circle_points: u32 },
}

impl RollerEnd {
    /// The end-specific dimensions are positive, bounded, and leave the
    /// bore or pin strictly inside the relief-adjusted body radius.
    pub open spec fn wf(&self, roller_diameter: int, relief_depth: int) -> bool {
        match *self {
            RollerEnd::Flat => true,
            RollerEnd::Pin { pin_diameter, pin_length, circle_points } => {
                &&& 2 <= pin_diameter
                &&& pin_diameter < roller_diameter - 2 * relief_depth
                &&& 0 < pin_length <= DIM_LIMIT
                &&& 1 <= circle_points <= MAX_POINTS
            },
            RollerEnd::Channel { channel_diameter, circle_points } => {
                &&& 2 <= channel_diameter
                &&& channel_diameter < roller_diameter - 2 * relief_depth
                &&& 1 <= circle_points <= MAX_POINTS
            },
        }
    }
}

/// Everything the mesh generator needs: the radius grid (row-major,
/// `image_width * image_height` fixed-point radii), stacking repeat
/// counts, roller dimensions, and the end selection.
#[derive(Debug)]
pub struct Parameters {
    pub output_filename: String,
    pub radii_vector: Vec<i64>,
    pub image_width: u32,
    pub image_height: u32,
    pub stack_horizontal: u32,
    pub stack_vertical: u32,
    pub roller_diameter: i64,
    pub roller_length: i64,
    pub relief_depth: i64,
    pub grid_step: i64,
    pub roller_end: RollerEnd,
}

impl Parameters {
    /// Validity of a parameter set: positive bounded dimensions, a grid of
    /// positive radii matching the declared width and height, stacked
    /// resolutions within the admitted range (at least two grid rows in
    /// total, so the vertical step is well defined), and a well-formed end
    /// selection.
    pub open spec fn wf(&self) -> bool {
        &&& 1 <= self.image_width
        &&& 1 <= self.image_height
        &&& 1 <= self.stack_horizontal
        &&& 1 <= self.stack_vertical
        &&& self.image_width * self.stack_horizontal <= MAX_POINTS
        &&& 2 <= self.image_height * self.stack_vertical
        &&& self.image_height * self.stack_vertical <= MAX_POINTS
        &&& self.radii_vector@.len() == self.image_width * self.image_height
        &&& forall|k: int|
            0 <= k < self.radii_vector@.len() ==> 0 < #[trigger] self.radii_vector@[k] <= DIM_LIMIT
        &&& 0 < self.roller_diameter <= DIM_LIMIT
        &&& 0 < self.roller_length <= DIM_LIMIT
        &&& 0 < self.relief_depth
        &&& 2 * self.relief_depth < self.roller_diameter
        &&& 0 < self.grid_step <= DIM_LIMIT
        &&& self.roller_end.wf(self.roller_diameter as int, self.relief_depth as int)
    }

    /// Runtime check of the validity invariant, for callers that assemble
    /// a parameter set from unchecked input.
    pub fn check_valid(&self) -> (b: bool)
        ensures
            b == self.wf(),
    {
        proof {
            lemma_mul_abs_bound(
                self.image_width as int,
                self.stack_horizontal as int,
                0xffff_ffff,
                0xffff_ffff,
            );
            lemma_mul_abs_bound(
                self.image_height as int,
                self.stack_vertical as int,
                0xffff_ffff,
                0xffff_ffff,
            );
            lemma_mul_abs_bound(
                self.image_width as int,
                self.image_height as int,
                0xffff_ffff,
                0xffff_ffff,
            );
        }
        let stacked_width: u64 = (self.image_width as u64) * (self.stack_horizontal as u64);
        let stacked_height: u64 = (self.image_height as u64) * (self.stack_vertical as u64);
        let dims_ok: bool = 1 <= self.image_width && 1 <= self.image_height && 1
            <= self.stack_horizontal && 1 <= self.stack_vertical && stacked_width <= MAX_POINTS
            as u64 && 2 <= stacked_height && stacked_height <= MAX_POINTS as u64;
        if !dims_ok {
            return false;
        }
        let grid_len_ok: bool = (self.radii_vector.len() as u64) == (self.image_width as u64)
            * (self.image_height as u64);
        if !grid_len_ok {
            return false;
        }
        let scalars_ok: bool = 0 < self.roller_diameter && self.roller_diameter <= DIM_LIMIT && 0
            < self.roller_length && self.roller_length <= DIM_LIMIT && 0 < self.relief_depth
            && self.relief_depth <= DIM_LIMIT && 2 * self.relief_depth < self.roller_diameter && 0
            < self.grid_step && self.grid_step <= DIM_LIMIT;
        if !scalars_ok {
            return false;
        }
        let end_ok: bool = match self.roller_end {
            RollerEnd::Flat => true,
            RollerEnd::Pin { pin_diameter, pin_length, circle_points } => 2 <= pin_diameter
                && pin_diameter < self.roller_diameter - 2 * self.relief_depth && 0 < pin_length
                && pin_length <= DIM_LIMIT && 1 <= circle_points && circle_points <= MAX_POINTS,
            RollerEnd::Channel { channel_diameter, circle_points } => 2 <= channel_diameter
                && channel_diameter < self.roller_diameter - 2 * self.relief_depth && 1
                <= circle_points && circle_points <= MAX_POINTS,
        };
        if !end_ok {
            return false;
        }
        let mut k: usize = 0;
        while k < self.radii_vector.len()
            invariant
                0 <= k <= self.radii_vector@.len(),
                forall|m: int| 0 <= m < k ==> 0 < #[trigger] self.radii_vector@[m] <= DIM_LIMIT,
            decreases self.radii_vector@.len() - k,
        {
            let rho = self.radii_vector[k];
            if !(0 < rho && rho <= DIM_LIMIT) {
                return false;
            }
            k = k + 1;
        }
        true
    }

    /// Number of samples around the body circle: grid width times the
    /// horizontal stacking count.
    pub fn circle_points(&self) -> (n: u32)
        requires
            self.wf(),
        ensures
            n == self.image_width * self.stack_horizontal,
            1 <= n <= MAX_POINTS,
    {
        proof {
            lemma_mul_inequality(1, self.image_width as int, self.stack_horizontal as int);
        }
        self.image_width * self.stack_horizontal
    }

    /// Faces the lateral body surface contributes: two per grid cell over
    /// the full stacked resolution, minus the duplicate seam row.
    pub open spec fn body_faces_spec(&self) -> int {
        2 * (self.image_width * self.stack_horizontal) * (self.image_height * self.stack_vertical
            - 1)
    }

    /// Faces the two end caps contribute.
    pub open spec fn end_faces_spec(&self) -> int {
        2 * (self.image_width * self.stack_horizontal) + match self.roller_end {
            RollerEnd::Flat => 0,
            RollerEnd::Pin { circle_points, .. } => 8 * circle_points,
            RollerEnd::Channel { circle_points, .. } => 4 * circle_points,
        }
    }

    /// Exact number of faces one generation pass emits.
    pub open spec fn faces_count_spec(&self) -> int {
        self.body_faces_spec() + self.end_faces_spec()
    }

    /// The expected face count, validated against the 32-bit counter of
    /// the STL format before any output is produced.
    pub fn faces_count(&self) -> (r: Result<u32, RollerError>)
        requires
            self.wf(),
        ensures
            match r {
                Ok(n) => n == self.faces_count_spec(),
                Err(e) => {
                    &&& e == RollerError::FaceCountOverflow
                    &&& self.faces_count_spec() > u32::MAX
                },
            },
    {
        let full_body_width_points: u32 = self.image_width * self.stack_horizontal;
        let full_body_height_points: u32 = self.image_height * self.stack_vertical - 1;
        let full_body_points: u32 = match full_body_width_points.checked_mul(
            full_body_height_points,
        ) {
            Some(p) => p,
            None => {
                proof {
                    self.lemma_face_count_parts();
                }
                return Err(RollerError::FaceCountOverflow);
            },
        };
        let full_body_faces: u32 = match 2u32.checked_mul(full_body_points) {
            Some(f) => f,
            None => {
                proof {
                    self.lemma_face_count_parts();
                }
                return Err(RollerError::FaceCountOverflow);
            },
        };
        let ends_faces_count: u32 = match self.roller_end {
            RollerEnd::Flat => 2 * full_body_width_points,
            RollerEnd::Pin { circle_points, .. } => 2 * full_body_width_points + 8 * circle_points,
            RollerEnd::Channel { circle_points, .. } => 2 * full_body_width_points + 4
                * circle_points,
        };
        proof {
            self.lemma_face_count_parts();
        }
        match full_body_faces.checked_add(ends_faces_count) {
            Some(n) => Ok(n),
            None => Err(RollerError::FaceCountOverflow),
        }
    }

    /// Regrouping of the face-count formula: the body term is the doubled
    /// product of the stacked resolutions, and the end term is nonnegative.
    proof fn lemma_face_count_parts(&self)
        requires
            self.wf(),
        ensures
            self.body_faces_spec() == 2 * ((self.image_width * self.stack_horizontal) * (
            self.image_height * self.stack_vertical - 1)),
            self.body_faces_spec() >= 0,
            self.end_faces_spec() >= 0,
    {
        let w = self.image_width * self.stack_horizontal;
        let h = self.image_height * self.stack_vertical - 1;
        lemma_mul_is_associative(2, w as int, h as int);
        lemma_mul_inequality(1, self.image_width as int, self.stack_horizontal as int);
        assert(w * h >= 0) by (nonlinear_arith)
            requires
                w >= 0,
                h >= 0,
        ;
    }

    /// The grid radius at column `i`, row `j`.
    pub fn get_rho(&self, i: usize, j: usize) -> (rho: i64)
        requires
            self.wf(),
            i < self.image_width,
            j < self.image_height,
        ensures
            rho == self.radii_vector@[j * self.image_width + i],
            0 < rho <= DIM_LIMIT,
    {
        proof {
            assert(j * (self.image_width as int) + i < (self.image_width as int) * (
            self.image_height as int)) by (nonlinear_arith)
                requires
                    (j as int) < (self.image_height as int),
                    (i as int) < (self.image_width as int),
                    0 <= j,
                    0 <= i,
                    1 <= self.image_width,
            ;
        }
        // The grid length is a usize, so the in-range index below fits one too.
        let _grid_len: usize = self.radii_vector.len();
        let index: usize = j * (self.image_width as usize) + i;
        self.radii_vector[index]
    }

    /// The grid radius as seen by the looped addressing of the spec: the
    /// column index wraps with period `image_width` and the row index with
    /// period `image_height`.
    pub open spec fn rho_looped_spec(&self, i: int, j: int) -> int {
        self.radii_vector@[(j % (self.image_height as int)) * self.image_width + (i % (
        self.image_width as int))] as int
    }

    /// Grid lookup with toroidal (Euclidean-remainder) addressing on both
    /// axes.
    pub fn get_rho_looped(&self, i_raw: i32, j_raw: i32) -> (rho: i64)
        requires
            self.wf(),
        ensures
            rho == self.rho_looped_spec(i_raw as int, j_raw as int),
            0 < rho <= DIM_LIMIT,
    {
        let i: i64 = mod_euclid_i64(i_raw as i64, self.image_width as i64);
        let j: i64 = mod_euclid_i64(j_raw as i64, self.image_height as i64);
        self.get_rho(i as usize, j as usize)
    }

    /// The first grid row: the radii that shape the boundary ring at the
    /// top end cap.
    pub fn get_image_topline(&self) -> (row: Vec<i64>)
        requires
            self.wf(),
        ensures
            row@ == self.radii_vector@.subrange(0, self.image_width as int),
    {
        let width: usize = self.image_width as usize;
        proof {
            lemma_mul_inequality(1, self.image_height as int, self.image_width as int);
            lemma_mul_is_commutative(self.image_height as int, self.image_width as int);
            assert(width <= self.radii_vector@.len());
        }
        let mut row: Vec<i64> = Vec::new();
        let mut k: usize = 0;
        proof {
            assert(row@ =~= self.radii_vector@.subrange(0, 0));
        }
        while k < width
            invariant
                0 <= k <= width,
                row@ == self.radii_vector@.subrange(0, k as int),
            decreases width - k,
        {
            row.push(self.radii_vector[k]);
            proof {
                assert(row@ =~= self.radii_vector@.subrange(0, k + 1));
            }
            k = k + 1;
        }
        row
    }

    /// The last grid row: the radii that shape the boundary ring at the
    /// bottom end cap.
    pub fn get_image_botline(&self) -> (row: Vec<i64>)
        requires
            self.wf(),
        ensures
            row@ == self.radii_vector@.subrange(
                self.radii_vector@.len() - self.image_width,
                self.radii_vector@.len() as int,
            ),
    {
        let width: usize = self.image_width as usize;
        proof {
            lemma_mul_inequality(1, self.image_height as int, self.image_width as int);
            lemma_mul_is_commutative(self.image_height as int, self.image_width as int);
        }
        let start: usize = self.radii_vector.len() - width;
        let mut row: Vec<i64> = Vec::new();
        let mut k: usize = 0;
        proof {
            assert(row@ =~= self.radii_vector@.subrange(start as int, start as int));
        }
        while k < width
            invariant
                0 <= k <= width,
                row@ == self.radii_vector@.subrange(start as int, start + k),
            decreases width - k,
        {
            row.push(self.radii_vector[start + k]);
            proof {
                assert(row@ =~= self.radii_vector@.subrange(start as int, start + k + 1));
            }
            k = k + 1;
        }
        row
    }
}

} // verus!
