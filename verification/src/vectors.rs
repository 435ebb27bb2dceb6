//! Three-dimensional vectors in fixed-point coordinates, with the exact
//! integer forms of the geometric tests the mesh generator relies on:
//! cross products, the right-hand orientation determinant, and in-plane
//! scalar products.

use crate::fixed::{
    div_trunc, div_trunc_i128, is_isqrt, isqrt, isqrt_spec, lemma_div_trunc_bound,
    lemma_isqrt_exists, lemma_mul_abs_bound, COORD_LIMIT, UNIT,
};
use vstd::prelude::*;

verus! {

/// Largest magnitude of a cross-product component produced from vectors
/// whose components stay within twice `COORD_LIMIT` (point differences).
pub const CROSS_LIMIT: i64 = 0x4_0000_0000_0000;

/// Largest component magnitude accepted by the orientation determinant.
pub const RIGHT_LIMIT: i64 = 0x100_0000_0000;

/// Largest component magnitude accepted by the in-plane scalar product.
pub const XY_LIMIT: i64 = 0x4000_0000;

/// A point or direction, each coordinate a fixed-point tick count.
#[derive(Clone, Copy, PartialEq, Eq, Structural, Debug)]
pub struct Vector3 {
    pub x: i64,
    pub y: i64,
    pub z: i64,
}

/// All three components lie within `limit`.
pub open spec fn vec_in_bounds(v: Vector3, limit: int) -> bool {
    &&& -limit <= v.x <= limit
    &&& -limit <= v.y <= limit
    &&& -limit <= v.z <= limit
}

/// x component of the cross product before fixed-point rescaling.
pub open spec fn cross_raw_x(a: Vector3, b: Vector3) -> int {
    a.y * b.z - a.z * b.y
}

/// y component of the cross product before fixed-point rescaling.
pub open spec fn cross_raw_y(a: Vector3, b: Vector3) -> int {
    a.z * b.x - a.x * b.z
}

/// z component of the cross product before fixed-point rescaling.
pub open spec fn cross_raw_z(a: Vector3, b: Vector3) -> int {
    a.x * b.y - a.y * b.x
}

/// Squared Euclidean length.
pub open spec fn norm_sq(v: Vector3) -> int {
    v.x * v.x + v.y * v.y + v.z * v.z
}

/// Determinant of a 3x3 integer matrix given as three rows: positive
/// exactly when the rows form a right-handed triple.
pub open spec fn det3i(
    ax: int,
    ay: int,
    az: int,
    bx: int,
    by: int,
    bz: int,
    cx: int,
    cy: int,
    cz: int,
) -> int {
    ax * by * cz + ay * bz * cx + az * bx * cy - az * by * cx - ay * bx * cz - ax * bz * cy
}

/// Determinant of the three vectors as rows.
pub open spec fn det3(a: Vector3, b: Vector3, c: Vector3) -> int {
    det3i(
        a.x as int,
        a.y as int,
        a.z as int,
        b.x as int,
        b.y as int,
        b.z as int,
        c.x as int,
        c.y as int,
        c.z as int,
    )
}

impl Vector3 {
    pub fn new(x: i64, y: i64, z: i64) -> (v: Vector3)
        ensures
            v == (Vector3 { x, y, z }),
    {
        Vector3 { x, y, z }
    }

    /// The displacement from `origin` to `end`.
    pub fn from_points(origin: &Vector3, end: &Vector3) -> (v: Vector3)
        requires
            vec_in_bounds(*origin, COORD_LIMIT as int),
            vec_in_bounds(*end, COORD_LIMIT as int),
        ensures
            v.x == end.x - origin.x,
            v.y == end.y - origin.y,
            v.z == end.z - origin.z,
            vec_in_bounds(v, 2 * COORD_LIMIT as int),
    {
        Vector3 { x: end.x - origin.x, y: end.y - origin.y, z: end.z - origin.z }
    }

    /// The cross product, rescaled back to fixed point (the raw integer
    /// product of two tick counts carries a factor `UNIT` too many).
    pub fn from_cross_product(vec_a: Vector3, vec_b: Vector3) -> (v: Vector3)
        requires
            vec_in_bounds(vec_a, 2 * COORD_LIMIT as int),
            vec_in_bounds(vec_b, 2 * COORD_LIMIT as int),
        ensures
            v.x == div_trunc(cross_raw_x(vec_a, vec_b), UNIT as int),
            v.y == div_trunc(cross_raw_y(vec_a, vec_b), UNIT as int),
            v.z == div_trunc(cross_raw_z(vec_a, vec_b), UNIT as int),
            vec_in_bounds(v, CROSS_LIMIT as int),
    {
        proof {
            lemma_mul_abs_bound(vec_a.y as int, vec_b.z as int, 0x4_0000_0000, 0x4_0000_0000);
            lemma_mul_abs_bound(vec_a.z as int, vec_b.y as int, 0x4_0000_0000, 0x4_0000_0000);
            lemma_mul_abs_bound(vec_a.z as int, vec_b.x as int, 0x4_0000_0000, 0x4_0000_0000);
            lemma_mul_abs_bound(vec_a.x as int, vec_b.z as int, 0x4_0000_0000, 0x4_0000_0000);
            lemma_mul_abs_bound(vec_a.x as int, vec_b.y as int, 0x4_0000_0000, 0x4_0000_0000);
            lemma_mul_abs_bound(vec_a.y as int, vec_b.x as int, 0x4_0000_0000, 0x4_0000_0000);
            assert(CROSS_LIMIT as int * UNIT as int == 0x4_0000_0000_0000int * 1_000_000int);
            lemma_div_trunc_bound(cross_raw_x(vec_a, vec_b), UNIT as int, CROSS_LIMIT as int);
            lemma_div_trunc_bound(cross_raw_y(vec_a, vec_b), UNIT as int, CROSS_LIMIT as int);
            lemma_div_trunc_bound(cross_raw_z(vec_a, vec_b), UNIT as int, CROSS_LIMIT as int);
        }
        let rx: i128 = (vec_a.y as i128) * (vec_b.z as i128) - (vec_a.z as i128) * (vec_b.y
            as i128);
        let ry: i128 = (vec_a.z as i128) * (vec_b.x as i128) - (vec_a.x as i128) * (vec_b.z
            as i128);
        let rz: i128 = (vec_a.x as i128) * (vec_b.y as i128) - (vec_a.y as i128) * (vec_b.x
            as i128);
        Vector3 {
            x: div_trunc_i128(rx, UNIT as u64),
            y: div_trunc_i128(ry, UNIT as u64),
            z: div_trunc_i128(rz, UNIT as u64),
        }
    }

    /// Rescale to (approximately) unit length: each component becomes
    /// `component * UNIT / |self|`, truncated toward zero.
    pub fn normalize(self) -> (v: Vector3)
        requires
            vec_in_bounds(self, CROSS_LIMIT as int),
            self != (Vector3 { x: 0i64, y: 0i64, z: 0i64 }),
        ensures
            v.x == div_trunc(self.x * UNIT, isqrt_spec(norm_sq(self))),
            v.y == div_trunc(self.y * UNIT, isqrt_spec(norm_sq(self))),
            v.z == div_trunc(self.z * UNIT, isqrt_spec(norm_sq(self))),
            vec_in_bounds(v, UNIT as int),
    {
        proof {
            lemma_mul_abs_bound(self.x as int, self.x as int, CROSS_LIMIT as int, CROSS_LIMIT as int);
            lemma_mul_abs_bound(self.y as int, self.y as int, CROSS_LIMIT as int, CROSS_LIMIT as int);
            lemma_mul_abs_bound(self.z as int, self.z as int, CROSS_LIMIT as int, CROSS_LIMIT as int);
            assert(self.x * self.x >= 0 && self.y * self.y >= 0 && self.z * self.z >= 0)
                by (nonlinear_arith);
            assert(norm_sq(self) >= 1) by (nonlinear_arith)
                requires
                    !(self.x == 0 && self.y == 0 && self.z == 0),
            ;
        }
        let sq: u128 = ((self.x as i128) * (self.x as i128) + (self.y as i128) * (self.y as i128)
            + (self.z as i128) * (self.z as i128)) as u128;
        let len: u64 = isqrt(sq);
        proof {
            let n = norm_sq(self);
            let l = isqrt_spec(n);
            lemma_isqrt_exists(n);
            assert(l >= self.x && l >= -self.x && l >= self.y && l >= -self.y && l >= self.z
                && l >= -self.z) by (nonlinear_arith)
                requires
                    is_isqrt(n, l),
                    n == self.x * self.x + self.y * self.y + self.z * self.z,
            ;
            assert(l >= 1);
            assert(-(UNIT * l) <= self.x * UNIT <= UNIT * l) by (nonlinear_arith)
                requires
                    -l <= self.x <= l,
                    l >= 1,
            ;
            assert(-(UNIT * l) <= self.y * UNIT <= UNIT * l) by (nonlinear_arith)
                requires
                    -l <= self.y <= l,
                    l >= 1,
            ;
            assert(-(UNIT * l) <= self.z * UNIT <= UNIT * l) by (nonlinear_arith)
                requires
                    -l <= self.z <= l,
                    l >= 1,
            ;
            lemma_div_trunc_bound(self.x * UNIT, l, UNIT as int);
            lemma_div_trunc_bound(self.y * UNIT, l, UNIT as int);
            lemma_div_trunc_bound(self.z * UNIT, l, UNIT as int);
        }
        Vector3 {
            x: div_trunc_i128((self.x as i128) * (UNIT as i128), len),
            y: div_trunc_i128((self.y as i128) * (UNIT as i128), len),
            z: div_trunc_i128((self.z as i128) * (UNIT as i128), len),
        }
    }

    /// Rotate the in-plane part a quarter turn clockwise (seen looking
    /// down the z axis toward the origin), keeping z.
    pub fn xy_perp_clockwise(self) -> (v: Vector3)
        requires
            self.y > i64::MIN,
        ensures
            v.x == -self.y,
            v.y == self.x,
            v.z == self.z,
    {
        Vector3 { x: -self.y, y: self.x, z: self.z }
    }
}

/// Whether the three vectors form a right-handed triple (determinant of
/// the rows strictly positive).
pub fn check_right_hand(vec_a: &Vector3, vec_b: &Vector3, vec_c: &Vector3) -> (r: bool)
    requires
        vec_in_bounds(*vec_a, RIGHT_LIMIT as int),
        vec_in_bounds(*vec_b, RIGHT_LIMIT as int),
        vec_in_bounds(*vec_c, RIGHT_LIMIT as int),
    ensures
        r == (det3(*vec_a, *vec_b, *vec_c) > 0),
{
    proof {
        lemma_mul_abs_bound(vec_a.x as int, vec_b.y as int, 0x100_0000_0000, 0x100_0000_0000);
        lemma_mul_abs_bound(
            vec_a.x * vec_b.y,
            vec_c.z as int,
            0x1_0000_0000_0000_0000_0000,
            0x100_0000_0000,
        );
        lemma_mul_abs_bound(vec_a.y as int, vec_b.z as int, 0x100_0000_0000, 0x100_0000_0000);
        lemma_mul_abs_bound(
            vec_a.y * vec_b.z,
            vec_c.x as int,
            0x1_0000_0000_0000_0000_0000,
            0x100_0000_0000,
        );
        lemma_mul_abs_bound(vec_a.z as int, vec_b.x as int, 0x100_0000_0000, 0x100_0000_0000);
        lemma_mul_abs_bound(
            vec_a.z * vec_b.x,
            vec_c.y as int,
            0x1_0000_0000_0000_0000_0000,
            0x100_0000_0000,
        );
        lemma_mul_abs_bound(vec_a.z as int, vec_b.y as int, 0x100_0000_0000, 0x100_0000_0000);
        lemma_mul_abs_bound(
            vec_a.z * vec_b.y,
            vec_c.x as int,
            0x1_0000_0000_0000_0000_0000,
            0x100_0000_0000,
        );
        lemma_mul_abs_bound(vec_a.y as int, vec_b.x as int, 0x100_0000_0000, 0x100_0000_0000);
        lemma_mul_abs_bound(
            vec_a.y * vec_b.x,
            vec_c.z as int,
            0x1_0000_0000_0000_0000_0000,
            0x100_0000_0000,
        );
        lemma_mul_abs_bound(vec_a.x as int, vec_b.z as int, 0x100_0000_0000, 0x100_0000_0000);
        lemma_mul_abs_bound(
            vec_a.x * vec_b.z,
            vec_c.y as int,
            0x1_0000_0000_0000_0000_0000,
            0x100_0000_0000,
        );
    }
    let det: i128 = (vec_a.x as i128) * (vec_b.y as i128) * (vec_c.z as i128) + (vec_a.y as i128)
        * (vec_b.z as i128) * (vec_c.x as i128) + (vec_a.z as i128) * (vec_b.x as i128) * (vec_c.y
        as i128) - (vec_a.z as i128) * (vec_b.y as i128) * (vec_c.x as i128) - (vec_a.y as i128)
        * (vec_b.x as i128) * (vec_c.z as i128) - (vec_a.x as i128) * (vec_b.z as i128) * (vec_c.y
        as i128);
    det > 0
}

/// The scalar product of the in-plane parts.
pub fn xy_scalar_product(vec_a: &Vector3, vec_b: &Vector3) -> (r: i64)
    requires
        -XY_LIMIT <= vec_a.x <= XY_LIMIT,
        -XY_LIMIT <= vec_a.y <= XY_LIMIT,
        -XY_LIMIT <= vec_b.x <= XY_LIMIT,
        -XY_LIMIT <= vec_b.y <= XY_LIMIT,
    ensures
        r == vec_a.x * vec_b.x + vec_a.y * vec_b.y,
{
    proof {
        lemma_mul_abs_bound(vec_a.x as int, vec_b.x as int, XY_LIMIT as int, XY_LIMIT as int);
        lemma_mul_abs_bound(vec_a.y as int, vec_b.y as int, XY_LIMIT as int, XY_LIMIT as int);
    }
    vec_a.x * vec_b.x + vec_a.y * vec_b.y
}

/// The cross product of collinear vectors vanishes: if `b` is a scalar
/// multiple of `a`, every raw cross component is zero.
pub proof fn lemma_cross_collinear_zero(a: Vector3, b: Vector3, k: int)
    by (nonlinear_arith)
    requires
        b.x == k * a.x,
        b.y == k * a.y,
        b.z == k * a.z,
    ensures
        cross_raw_x(a, b) == 0,
        cross_raw_y(a, b) == 0,
        cross_raw_z(a, b) == 0,
{
}

} // verus!
