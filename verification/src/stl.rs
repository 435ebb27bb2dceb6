//! The mesh sink: collects the faces of one generation pass, rejecting
//! degenerate triangles and inverted normals, and holding the pass to the
//! exact face count it was opened for. Serialization of the collected
//! faces into STL bytes is the business of `encode`.

use crate::fixed::{div_trunc, isqrt_spec, COORD_LIMIT, UNIT};
use crate::parameters::Parameters;
use crate::vectors::{
    check_right_hand, cross_raw_x, cross_raw_y, cross_raw_z, det3, det3i, norm_sq, vec_in_bounds,
    Vector3, CROSS_LIMIT, RIGHT_LIMIT,
};
use crate::RollerError;
use vstd::prelude::*;

verus! {

/// One oriented face: three vertices and the outward normal.
#[derive(Clone, Copy, PartialEq, Eq, Structural, Debug)]
pub struct Triangle {
    pub normal: Vector3,
    pub vertex_a: Vector3,
    pub vertex_b: Vector3,
    pub vertex_c: Vector3,
}

/// The right-hand test applied to a face: the determinant of the rows
/// `c - b`, `a - b`, `normal`, positive exactly when the winding of the
/// vertices is consistent with the normal.
pub open spec fn orientation_det(normal: Vector3, a: Vector3, b: Vector3, c: Vector3) -> int {
    det3i(
        c.x - b.x,
        c.y - b.y,
        c.z - b.z,
        a.x - b.x,
        a.y - b.y,
        a.z - b.z,
        normal.x as int,
        normal.y as int,
        normal.z as int,
    )
}

/// The invariant every emitted face satisfies: pairwise distinct vertices,
/// a nonzero normal, and a winding consistent with that normal.
pub open spec fn triangle_valid(t: Triangle) -> bool {
    &&& t.vertex_a != t.vertex_b
    &&& t.vertex_b != t.vertex_c
    &&& t.vertex_c != t.vertex_a
    &&& t.normal != (Vector3 { x: 0i64, y: 0i64, z: 0i64 })
    &&& orientation_det(t.normal, t.vertex_a, t.vertex_b, t.vertex_c) > 0
}

/// What `write_face` rejects, in the order it checks: degeneracy first,
/// then orientation, then the remaining-face budget. `None` means the face
/// is accepted.
pub open spec fn face_error(
    normal: Vector3,
    a: Vector3,
    b: Vector3,
    c: Vector3,
    faces_left: u32,
) -> Option<RollerError> {
    if a == b || b == c || c == a || normal == (Vector3 { x: 0i64, y: 0i64, z: 0i64 }) {
        Some(RollerError::DegenerateFace)
    } else if orientation_det(normal, a, b, c) <= 0 {
        Some(RollerError::InvertedNormal)
    } else if faces_left == 0 {
        Some(RollerError::FaceCountExceeded)
    } else {
        None
    }
}

/// x component of the raw cross product of the edges `b - a` and `c - a`.
pub open spec fn edge_cross_x(a: Vector3, b: Vector3, c: Vector3) -> int {
    (b.y - a.y) * (c.z - a.z) - (b.z - a.z) * (c.y - a.y)
}

/// y component of the raw cross product of the edges `b - a` and `c - a`.
pub open spec fn edge_cross_y(a: Vector3, b: Vector3, c: Vector3) -> int {
    (b.z - a.z) * (c.x - a.x) - (b.x - a.x) * (c.z - a.z)
}

/// z component of the raw cross product of the edges `b - a` and `c - a`.
pub open spec fn edge_cross_z(a: Vector3, b: Vector3, c: Vector3) -> int {
    (b.x - a.x) * (c.y - a.y) - (b.y - a.y) * (c.x - a.x)
}

/// The fixed-point cross product of the two edges leaving `a`.
pub open spec fn face_cross(a: Vector3, b: Vector3, c: Vector3) -> Vector3 {
    Vector3 {
        x: div_trunc(edge_cross_x(a, b, c), UNIT as int) as i64,
        y: div_trunc(edge_cross_y(a, b, c), UNIT as int) as i64,
        z: div_trunc(edge_cross_z(a, b, c), UNIT as int) as i64,
    }
}

/// The normal `write_face_auto_normal` derives: the edges' cross product
/// rescaled to (approximately) unit length.
pub open spec fn unit_normal_spec(a: Vector3, b: Vector3, c: Vector3) -> Vector3 {
    let cr = face_cross(a, b, c);
    let len = isqrt_spec(norm_sq(cr));
    Vector3 {
        x: div_trunc(cr.x * UNIT, len) as i64,
        y: div_trunc(cr.y * UNIT, len) as i64,
        z: div_trunc(cr.z * UNIT, len) as i64,
    }
}

/// The face's normal is the one derived from its own winding: the unit
/// rescaling of the cross product of the edges leaving its first vertex.
pub open spec fn auto_normal_face(t: Triangle) -> bool {
    t.normal == unit_normal_spec(t.vertex_a, t.vertex_b, t.vertex_c)
}

/// The face `write_face_auto_normal` builds from three vertices: the
/// winding-derived unit normal in front of the vertices themselves.
pub open spec fn derived_face(a: Vector3, b: Vector3, c: Vector3) -> Triangle {
    Triangle { normal: unit_normal_spec(a, b, c), vertex_a: a, vertex_b: b, vertex_c: c }
}

/// The auto-normal writer accepts these vertices: their edge cross
/// product is nonzero (a normal can be derived at all) and the derived
/// face passes validation.
pub open spec fn derived_face_ok(a: Vector3, b: Vector3, c: Vector3) -> bool {
    face_cross(a, b, c) != (Vector3 { x: 0i64, y: 0i64, z: 0i64 }) && triangle_valid(
        derived_face(a, b, c),
    )
}

/// The sink accepts a face exactly when the face is valid and the budget
/// is not spent: `face_error` and the triangle invariant test the same
/// conditions.
pub proof fn lemma_face_error_none(
    normal: Vector3,
    a: Vector3,
    b: Vector3,
    c: Vector3,
    faces_left: u32,
)
    ensures
        (face_error(normal, a, b, c, faces_left) is None) == (triangle_valid(
            Triangle { normal, vertex_a: a, vertex_b: b, vertex_c: c },
        ) && faces_left > 0),
{
}

/// Sink for the faces of one generation pass. It is opened for an exact
/// face count, validates every face it is handed, and is closed by
/// `finish`, which fails unless exactly the promised number arrived.
pub struct STLFileWriter {
    pub faces: Vec<Triangle>,
    pub faces_left: u32,
}

impl STLFileWriter {
    /// Every collected face is valid, and the collected and outstanding
    /// counts together stay within the 32-bit face counter.
    pub open spec fn wf(&self) -> bool {
        &&& self.faces@.len() + self.faces_left <= u32::MAX
        &&& forall|k: int| 0 <= k < self.faces@.len() ==> triangle_valid(#[trigger] self.faces@[k])
    }

    /// Open a sink for the exact face count of `params`, after validating
    /// that the count fits the format's 32-bit counter.
    pub fn new(params: &Parameters) -> (r: Result<STLFileWriter, RollerError>)
        requires
            params.wf(),
        ensures
            match r {
                Ok(w) => {
                    &&& w.wf()
                    &&& w.faces@.len() == 0
                    &&& w.faces_left == params.faces_count_spec()
                },
                Err(e) => {
                    &&& e == RollerError::FaceCountOverflow
                    &&& params.faces_count_spec() > u32::MAX
                },
            },
    {
        let faces_count = match params.faces_count() {
            Ok(n) => n,
            Err(e) => {
                return Err(e);
            },
        };
        Ok(STLFileWriter { faces: Vec::new(), faces_left: faces_count })
    }

    /// Validate and collect one face. Rejects, in this order and leaving
    /// the sink unchanged: a degenerate face (repeated vertex or zero
    /// normal), an inverted normal (winding inconsistent with the supplied
    /// normal), and a face beyond the count the sink was opened for.
    pub fn write_face(
        &mut self,
        vec_n: &Vector3,
        vec_a: &Vector3,
        vec_b: &Vector3,
        vec_c: &Vector3,
    ) -> (r: Result<(), RollerError>)
        requires
            old(self).wf(),
            vec_in_bounds(*vec_a, COORD_LIMIT as int),
            vec_in_bounds(*vec_b, COORD_LIMIT as int),
            vec_in_bounds(*vec_c, COORD_LIMIT as int),
            vec_in_bounds(*vec_n, RIGHT_LIMIT as int),
        ensures
            final(self).wf(),
            match face_error(*vec_n, *vec_a, *vec_b, *vec_c, old(self).faces_left) {
                Some(e) => {
                    &&& r == Err::<(), RollerError>(e)
                    &&& final(self).faces@ == old(self).faces@
                    &&& final(self).faces_left == old(self).faces_left
                },
                None => {
                    &&& r == Ok::<(), RollerError>(())
                    &&& final(self).faces@ == old(self).faces@.push(
                        Triangle {
                            normal: *vec_n,
                            vertex_a: *vec_a,
                            vertex_b: *vec_b,
                            vertex_c: *vec_c,
                        },
                    )
                    &&& final(self).faces_left == old(self).faces_left - 1
                },
            },
    {
        let zero = Vector3 { x: 0i64, y: 0i64, z: 0i64 };
        if vec_a == vec_b || vec_b == vec_c || vec_c == vec_a || vec_n == &zero {
            return Err(RollerError::DegenerateFace);
        }
        let edge_bc = Vector3::from_points(vec_b, vec_c);
        let edge_ba = Vector3::from_points(vec_b, vec_a);
        if !check_right_hand(&edge_bc, &edge_ba, vec_n) {
            return Err(RollerError::InvertedNormal);
        }
        if self.faces_left == 0 {
            return Err(RollerError::FaceCountExceeded);
        }
        self.faces_left = self.faces_left - 1;
        self.faces.push(
            Triangle { normal: *vec_n, vertex_a: *vec_a, vertex_b: *vec_b, vertex_c: *vec_c },
        );
        Ok(())
    }

    /// Compute the outward unit normal of `(a, b, c)` from the winding and
    /// collect the face; a zero cross product (collinear vertices) is
    /// rejected as degenerate before normalization.
    pub fn write_face_auto_normal(
        &mut self,
        vec_a: &Vector3,
        vec_b: &Vector3,
        vec_c: &Vector3,
    ) -> (r: Result<(), RollerError>)
        requires
            old(self).wf(),
            vec_in_bounds(*vec_a, COORD_LIMIT as int),
            vec_in_bounds(*vec_b, COORD_LIMIT as int),
            vec_in_bounds(*vec_c, COORD_LIMIT as int),
        ensures
            final(self).wf(),
            face_cross(*vec_a, *vec_b, *vec_c) == (Vector3 { x: 0i64, y: 0i64, z: 0i64 })
                ==> r == Err::<(), RollerError>(RollerError::DegenerateFace) && final(self).faces@
                == old(self).faces@ && final(self).faces_left == old(self).faces_left,
            face_cross(*vec_a, *vec_b, *vec_c) != (Vector3 { x: 0i64, y: 0i64, z: 0i64 })
                ==> match face_error(
                unit_normal_spec(*vec_a, *vec_b, *vec_c),
                *vec_a,
                *vec_b,
                *vec_c,
                old(self).faces_left,
            ) {
                Some(e) => {
                    &&& r == Err::<(), RollerError>(e)
                    &&& final(self).faces@ == old(self).faces@
                    &&& final(self).faces_left == old(self).faces_left
                },
                None => {
                    &&& r == Ok::<(), RollerError>(())
                    &&& final(self).faces@ == old(self).faces@.push(
                        Triangle {
                            normal: unit_normal_spec(*vec_a, *vec_b, *vec_c),
                            vertex_a: *vec_a,
                            vertex_b: *vec_b,
                            vertex_c: *vec_c,
                        },
                    )
                    &&& final(self).faces_left == old(self).faces_left - 1
                },
            },
    {
        let edge_ab = Vector3::from_points(vec_a, vec_b);
        let edge_ac = Vector3::from_points(vec_a, vec_c);
        let cross = Vector3::from_cross_product(edge_ab, edge_ac);
        let zero = Vector3 { x: 0i64, y: 0i64, z: 0i64 };
        if cross == zero {
            return Err(RollerError::DegenerateFace);
        }
        let vec_n = cross.normalize();
        self.write_face(&vec_n, vec_a, vec_b, vec_c)
    }

    /// Close the sink: succeeds with the collected faces exactly when the
    /// promised face count was reached.
    pub fn finish(self) -> (r: Result<Vec<Triangle>, RollerError>)
        requires
            self.wf(),
        ensures
            match r {
                Ok(faces) => {
                    &&& self.faces_left == 0
                    &&& faces@ == self.faces@
                    &&& forall|k: int|
                        0 <= k < faces@.len() ==> triangle_valid(#[trigger] faces@[k])
                },
                Err(e) => {
                    &&& e == RollerError::FaceCountShort
                    &&& self.faces_left > 0
                },
            },
    {
        if self.faces_left != 0 {
            return Err(RollerError::FaceCountShort);
        }
        Ok(self.faces)
    }
}

} // verus!
