//! The generation pass: tessellate the lateral body surface, then close
//! both ends with the selected end-cap geometry, emitting every face into
//! the sink. Each mesher's contract accounts exactly for the number of
//! faces it emits, so the pass as a whole provably matches the expected
//! face count the sink was opened for.

use crate::circles::CircleConverter;
use crate::eartrim::{
    clip_faces, clip_faces_valid, clip_succeeds, fill_polygon_by_ear_trimming,
    lemma_clip_faces_count,
};
use crate::fixed::{lemma_mul_abs_bound, COORD_LIMIT, DIM_LIMIT, UNIT};
use crate::parameters::{Parameters, RollerEnd};
use crate::split::{diagonal_a_sse, diagonal_b_sse, split_quad_optimal};
use crate::stl::{
    derived_face, derived_face_ok, lemma_face_error_none, triangle_valid, STLFileWriter, Triangle,
};
use crate::vectors::{vec_in_bounds, Vector3};
use crate::RollerError;
use vstd::arithmetic::div_mod::{
    lemma_div_is_ordered, lemma_div_multiples_vanish, lemma_div_pos_is_pos,
    lemma_multiply_divide_lt,
};
use vstd::arithmetic::mul::{
    lemma_mul_basics, lemma_mul_inequality, lemma_mul_is_commutative, lemma_mul_nonnegative,
};
use vstd::pervasive::unreached;
use vstd::prelude::*;

verus! {

/// Total stacked rows of the body grid.
pub open spec fn body_rows(params: &Parameters) -> int {
    params.image_height * params.stack_vertical
}

/// The top of the lateral surface: the lid plane, lifted by one pin
/// length when pins extend the roller.
pub open spec fn body_z_top(params: &Parameters) -> int {
    match params.roller_end {
        RollerEnd::Flat => params.roller_length as int,
        RollerEnd::Channel { .. } => params.roller_length as int,
        RollerEnd::Pin { pin_length, .. } => params.roller_length + pin_length,
    }
}

/// Height of stacked row `k`: the rows descend from the surface top in
/// proportional steps, so the last row (`body_rows - 1`) lands exactly
/// one roller length below the top, on the lid plane.
pub open spec fn body_z(params: &Parameters, k: int) -> int {
    body_z_top(params) - (k * params.roller_length) / (body_rows(params) - 1)
}

/// Which diagonal splits cell `(i, j)`: true selects the
/// top-left-to-bottom-right diagonal, which also wins ties.
pub open spec fn body_split_choice(params: &Parameters, i: int, j: int) -> bool {
    diagonal_a_sse(params, i, j) <= diagonal_b_sse(params, i, j)
}

/// Face `k` (0 or 1) of the two triangles cell `(i, j)` contributes at
/// horizontal repeat `p` and vertical repeat `q`: its corners sit on ring
/// samples `i + p*W` and the next one, at the cell's own corner radii and
/// the two adjacent row heights, split along the selector's diagonal and
/// wound for the winding-derived outward normal.
pub open spec fn body_cell_face(
    params: &Parameters,
    circle: &CircleConverter,
    i: int,
    j: int,
    p: int,
    q: int,
    k: int,
) -> Triangle {
    let ring = i + p * (params.image_width as int);
    let level = j + (params.image_height as int) * q;
    let tl = ring_point(circle, ring, params.rho_looped_spec(i, j), body_z(params, level));
    let tr = ring_point(circle, ring + 1, params.rho_looped_spec(i + 1, j), body_z(params, level));
    let bl = ring_point(
        circle,
        ring,
        params.rho_looped_spec(i, j + 1),
        body_z(params, level + 1),
    );
    let br = ring_point(
        circle,
        ring + 1,
        params.rho_looped_spec(i + 1, j + 1),
        body_z(params, level + 1),
    );
    if body_split_choice(params, i, j) {
        if k == 0 {
            derived_face(tl, br, tr)
        } else {
            derived_face(bl, br, tl)
        }
    } else {
        if k == 0 {
            derived_face(bl, tr, tl)
        } else {
            derived_face(bl, br, tr)
        }
    }
}

/// Where face `k` of cell tuple `(i, j, p, q)` sits within the body
/// block, following the emission order: column-major over cells, then
/// horizontal repeats, then vertical repeats, two faces each, with the
/// seam-duplicate row of the last cell row skipped.
pub open spec fn body_face_position(
    params: &Parameters,
    i: int,
    j: int,
    p: int,
    q: int,
    k: int,
) -> int {
    let hs = params.stack_horizontal as int;
    let vs = params.stack_vertical as int;
    let h = params.image_height as int;
    2 * hs * (h * vs - 1) * i + 2 * hs * (vs * j) + 2 * (vs - (if j == h - 1 {
        1int
    } else {
        0int
    })) * p + 2 * q + k
}

/// Cell tuple `(ci, cj, cp, cq)` comes before `(i, j, p, q)` in emission
/// order.
pub open spec fn cell_before(
    ci: int,
    cj: int,
    cp: int,
    cq: int,
    i: int,
    j: int,
    p: int,
    q: int,
) -> bool {
    ||| ci < i
    ||| (ci == i && cj < j)
    ||| (ci == i && cj == j && cp < p)
    ||| (ci == i && cj == j && cp == p && cq < q)
}

/// Every cell tuple before `(i, j, p, q)` — seam duplicates excluded —
/// has both its faces at their positions in `faces`.
pub open spec fn body_emitted_below(
    params: &Parameters,
    circle: &CircleConverter,
    faces: Seq<Triangle>,
    base: int,
    i: int,
    j: int,
    p: int,
    q: int,
) -> bool {
    forall|ci: int, cj: int, cp: int, cq: int, k: int|
        #![trigger body_face_position(params, ci, cj, cp, cq, k)]
        #![trigger body_cell_face(params, circle, ci, cj, cp, cq, k)]
        0 <= ci && 0 <= cj < params.image_height && 0 <= cp < params.stack_horizontal && 0 <= cq
            < params.stack_vertical && 0 <= k < 2 && !(cj == params.image_height - 1 && cq
            == params.stack_vertical - 1) && cell_before(ci, cj, cp, cq, i, j, p, q) ==> base
            + body_face_position(params, ci, cj, cp, cq, k) < faces.len() && faces[base
            + body_face_position(params, ci, cj, cp, cq, k)] == body_cell_face(
            params,
            circle,
            ci,
            cj,
            cp,
            cq,
            k,
        )
}

/// The whole body block: every cell's two faces, for every repeat, at
/// their positions.
pub open spec fn body_cells_emitted(
    params: &Parameters,
    circle: &CircleConverter,
    faces: Seq<Triangle>,
    base: int,
) -> bool {
    body_emitted_below(params, circle, faces, base, params.image_width as int, 0, 0, 0)
}

/// Every face of the body block can be emitted: its edge cross product is
/// nonzero and the derived face passes validation.
pub open spec fn body_cells_emittable(params: &Parameters, circle: &CircleConverter) -> bool {
    forall|ci: int, cj: int, cp: int, cq: int, k: int|
        0 <= ci < params.image_width && 0 <= cj < params.image_height && 0 <= cp
            < params.stack_horizontal && 0 <= cq < params.stack_vertical && 0 <= k < 2 && !(cj
            == params.image_height - 1 && cq == params.stack_vertical - 1) ==> {
            let face = #[trigger] body_cell_face(params, circle, ci, cj, cp, cq, k);
            derived_face_ok(face.vertex_a, face.vertex_b, face.vertex_c)
        }
}

/// An emitted cell tuple's faces sit at least two positions short of the
/// end of the body block.
proof fn lemma_body_position_budget(
    hs: int,
    vs: int,
    h: int,
    w: int,
    i: int,
    j: int,
    p: int,
    q: int,
)
    by (nonlinear_arith)
    requires
        1 <= hs,
        1 <= vs,
        1 <= h,
        1 <= w,
        h * vs >= 2,
        0 <= i < w,
        0 <= j < h,
        0 <= p < hs,
        0 <= q < vs,
        !(j == h - 1 && q == vs - 1),
    ensures
        2 * hs * (h * vs - 1) * i + 2 * hs * (vs * j) + 2 * (vs - (if j == h - 1 {
            1int
        } else {
            0int
        })) * p + 2 * q + 2 <= 2 * hs * (h * vs - 1) * w,
{
}

/// Tessellate the lateral surface: for every grid cell, over every
/// horizontal and vertical stack repeat, two triangles along the cell's
/// optimal diagonal — skipping only the duplicate seam row, for a total of
/// `body_faces_spec` faces on success, and exactly the faces of
/// `body_cells_emitted`: each cell pair split along the selector's
/// diagonal, its corners on the sampler's ring at the `body_z` row
/// heights. Success is owed whenever every such face can be emitted and
/// the budget covers the block; on failure the already-collected faces
/// remain in the sink untouched.
#[verifier::rlimit(100)]
pub fn make_cylinder_patterned(
    stl_writer: &mut STLFileWriter,
    params: &Parameters,
    circle: &CircleConverter,
) -> (r: Result<(), RollerError>)
    requires
        old(stl_writer).wf(),
        params.wf(),
        circle.wf(),
        circle.n_points == params.image_width * params.stack_horizontal,
    ensures
        final(stl_writer).wf(),
        r is Ok ==> final(stl_writer).faces@.len() == old(stl_writer).faces@.len()
            + params.body_faces_spec() && final(stl_writer).faces_left == old(
            stl_writer,
        ).faces_left - params.body_faces_spec(),
        r is Ok ==> forall|idx: int|
            old(stl_writer).faces@.len() <= idx < final(stl_writer).faces@.len()
                ==> crate::stl::auto_normal_face(#[trigger] final(stl_writer).faces@[idx]),
        r is Ok ==> body_cells_emitted(
            params,
            circle,
            final(stl_writer).faces@,
            old(stl_writer).faces@.len() as int,
        ),
        old(stl_writer).faces_left >= params.body_faces_spec() && body_cells_emittable(
            params,
            circle,
        ) ==> r is Ok,
        final(stl_writer).faces@.len() >= old(stl_writer).faces@.len(),
        forall|idx: int|
            0 <= idx < old(stl_writer).faces@.len() ==> #[trigger] final(stl_writer).faces@[idx]
                == old(stl_writer).faces@[idx],
{
    let width: usize = params.image_width as usize;
    let height: usize = params.image_height as usize;
    let hstack: usize = params.stack_horizontal as usize;
    let vstack: usize = params.stack_vertical as usize;
    let z_max: i64 = match params.roller_end {
        RollerEnd::Flat => params.roller_length,
        RollerEnd::Channel { .. } => params.roller_length,
        RollerEnd::Pin { pin_length, .. } => params.roller_length + pin_length,
    };
    let rows: u64 = (params.image_height as u64) * (params.stack_vertical as u64);
    let ghost base_len = old(stl_writer).faces@.len() as int;
    let ghost base_left = old(stl_writer).faces_left as int;
    let ghost col_quota = 2 * (hstack as int) * (rows as int - 1);
    proof {
        lemma_mul_basics(col_quota);
        lemma_mul_basics(2 * (hstack as int));
        lemma_mul_basics(vstack as int);
        assert(col_quota * (width as int) == 2 * ((width as int) * (hstack as int)) * ((height
            as int) * (vstack as int) - 1)) by (nonlinear_arith)
            requires
                col_quota == 2 * (hstack as int) * ((height as int) * (vstack as int) - 1),
        ;
    }
    let mut i: usize = 0;
    while i < width
        invariant
            stl_writer.wf(),
            0 <= i <= width,
            stl_writer.faces@.len() == base_len + col_quota * i,
            stl_writer.faces_left == base_left - col_quota * i,
            forall|idx: int|
                base_len <= idx < stl_writer.faces@.len() ==> crate::stl::auto_normal_face(
                    #[trigger] stl_writer.faces@[idx],
                ),
            forall|idx: int|
                0 <= idx < base_len ==> #[trigger] stl_writer.faces@[idx] == old(
                    stl_writer,
                ).faces@[idx],
            body_emitted_below(
                params,
                circle,
                stl_writer.faces@,
                base_len,
                i as int,
                0,
                0,
                0,
            ),
        decreases width - i,
    {
        let ghost col_base = stl_writer.faces@.len() as int;
        let mut j: usize = 0;
        while j < height
            invariant
                stl_writer.wf(),
                0 <= j <= height,
                stl_writer.faces@.len() == col_base + 2 * (hstack as int) * ((vstack as int) * j)
                    - (if j == height {
                    2 * (hstack as int)
                } else {
                    0int
                }),
                stl_writer.faces_left == base_left - (stl_writer.faces@.len() - base_len),
                forall|idx: int|
                    base_len <= idx < stl_writer.faces@.len() ==> crate::stl::auto_normal_face(
                        #[trigger] stl_writer.faces@[idx],
                    ),
                forall|idx: int|
                    0 <= idx < base_len ==> #[trigger] stl_writer.faces@[idx] == old(
                        stl_writer,
                    ).faces@[idx],
                body_emitted_below(
                    params,
                    circle,
                    stl_writer.faces@,
                    base_len,
                    i as int,
                    j as int,
                    0,
                    0,
                ),
            decreases height - j,
        {
            let (tlbr_split, rho_tl, rho_tr, rho_bl, rho_br) = split_quad_optimal(params, i, j);
            let ghost cell_base = stl_writer.faces@.len() as int;
            let ghost cell_quota = 2 * ((vstack as int) - (if j == height - 1 {
                1int
            } else {
                0int
            }));
            proof {
                lemma_mul_basics(cell_quota);
            }
            let mut p: usize = 0;
            while p < hstack
                invariant
                    stl_writer.wf(),
                    0 <= p <= hstack,
                    stl_writer.faces@.len() == cell_base + cell_quota * p,
                    stl_writer.faces_left == base_left - (stl_writer.faces@.len() - base_len),
                    forall|idx: int|
                        base_len <= idx < stl_writer.faces@.len() ==> crate::stl::auto_normal_face(
                            #[trigger] stl_writer.faces@[idx],
                        ),
                    forall|idx: int|
                        0 <= idx < base_len ==> #[trigger] stl_writer.faces@[idx] == old(
                            stl_writer,
                        ).faces@[idx],
                    body_emitted_below(
                        params,
                        circle,
                        stl_writer.faces@,
                        base_len,
                        i as int,
                        j as int,
                        p as int,
                        0,
                    ),
                decreases hstack - p,
            {
                proof {
                    lemma_mul_inequality(p as int + 1, hstack as int, width as int);
                    lemma_mul_is_commutative(hstack as int, width as int);
                    lemma_mul_is_commutative(p as int, width as int);
                    assert((p as int + 1) * (width as int) == (p as int) * (width as int) + (width
                        as int)) by (nonlinear_arith);
                }
                let ring_index: usize = i + p * width;
                let (x_tl, y_tl) = circle.get_xy(ring_index, rho_tl);
                let (x_tr, y_tr) = circle.get_xy(ring_index + 1, rho_tr);
                let (x_bl, y_bl) = circle.get_xy(ring_index, rho_bl);
                let (x_br, y_br) = circle.get_xy(ring_index + 1, rho_br);
                let ghost stack_base = stl_writer.faces@.len() as int;
                let mut q: usize = 0;
                while q < vstack
                    invariant
                        stl_writer.wf(),
                        0 <= q <= vstack,
                        stl_writer.faces@.len() == stack_base + 2 * q - (if j == height - 1 && q
                            == vstack {
                            2int
                        } else {
                            0int
                        }),
                        stl_writer.faces_left == base_left - (stl_writer.faces@.len() - base_len),
                        forall|idx: int|
                            base_len <= idx < stl_writer.faces@.len()
                                ==> crate::stl::auto_normal_face(
                                #[trigger] stl_writer.faces@[idx],
                            ),
                        forall|idx: int|
                            0 <= idx < base_len ==> #[trigger] stl_writer.faces@[idx] == old(
                                stl_writer,
                            ).faces@[idx],
                        body_emitted_below(
                            params,
                            circle,
                            stl_writer.faces@,
                            base_len,
                            i as int,
                            j as int,
                            p as int,
                            q as int,
                        ),
                    decreases vstack - q,
                {
                    if !(j == height - 1 && q == vstack - 1) {
                        proof {
                            lemma_mul_inequality(q as int, vstack as int, height as int);
                            lemma_mul_is_commutative(q as int, height as int);
                            lemma_mul_is_commutative(vstack as int, height as int);
                            assert((j as int) + (height as int) * (q as int) <= (rows as int) - 2)
                                by (nonlinear_arith)
                                requires
                                    rows == (height as int) * (vstack as int),
                                    0 <= j < height,
                                    0 <= q < vstack,
                                    !(j == height - 1 && q == vstack - 1),
                            ;
                            let steps_int = (j as int) + (height as int) * (q as int);
                            lemma_mul_abs_bound(
                                steps_int,
                                params.roller_length as int,
                                0x10_0000,
                                0x8000_0000,
                            );
                            lemma_mul_abs_bound(
                                steps_int + 1,
                                params.roller_length as int,
                                0x10_0000,
                                0x8000_0000,
                            );
                            lemma_mul_nonnegative(steps_int, params.roller_length as int);
                            lemma_mul_nonnegative(steps_int + 1, params.roller_length as int);
                            lemma_mul_inequality(
                                steps_int,
                                rows as int - 1,
                                params.roller_length as int,
                            );
                            lemma_mul_inequality(
                                steps_int + 1,
                                rows as int - 1,
                                params.roller_length as int,
                            );
                            lemma_div_is_ordered(
                                steps_int * params.roller_length,
                                (rows as int - 1) * params.roller_length,
                                rows as int - 1,
                            );
                            lemma_div_is_ordered(
                                (steps_int + 1) * params.roller_length,
                                (rows as int - 1) * params.roller_length,
                                rows as int - 1,
                            );
                            lemma_div_multiples_vanish(
                                params.roller_length as int,
                                rows as int - 1,
                            );
                            lemma_div_pos_is_pos(
                                steps_int * params.roller_length,
                                rows as int - 1,
                            );
                            lemma_div_pos_is_pos(
                                (steps_int + 1) * params.roller_length,
                                rows as int - 1,
                            );
                        }
                        let steps: u64 = j as u64 + (height as u64) * (q as u64);
                        let drop_top: i64 = ((steps * (params.roller_length as u64)) / (rows - 1))
                            as i64;
                        let drop_bottom: i64 = (((steps + 1) * (params.roller_length as u64)) / (
                        rows - 1)) as i64;
                        let z_t: i64 = z_max - drop_top;
                        let z_b: i64 = z_max - drop_bottom;
                        let point_tl = Vector3 { x: x_tl, y: y_tl, z: z_t };
                        let point_bl = Vector3 { x: x_bl, y: y_bl, z: z_b };
                        let point_tr = Vector3 { x: x_tr, y: y_tr, z: z_t };
                        let point_br = Vector3 { x: x_br, y: y_br, z: z_b };
                        proof {
                            let ii = i as int;
                            let jj = j as int;
                            let pp = p as int;
                            let qq = q as int;
                            let level = jj + (params.image_height as int) * qq;
                            assert(point_tl == ring_point(
                                circle,
                                ring_index as int,
                                params.rho_looped_spec(ii, jj),
                                body_z(params, level),
                            ));
                            assert(point_tr == ring_point(
                                circle,
                                ring_index as int + 1,
                                params.rho_looped_spec(ii + 1, jj),
                                body_z(params, level),
                            ));
                            assert(point_bl == ring_point(
                                circle,
                                ring_index as int,
                                params.rho_looped_spec(ii, jj + 1),
                                body_z(params, level + 1),
                            ));
                            assert(point_br == ring_point(
                                circle,
                                ring_index as int + 1,
                                params.rho_looped_spec(ii + 1, jj + 1),
                                body_z(params, level + 1),
                            ));
                            assert(tlbr_split == body_split_choice(params, ii, jj));
                            assert(stl_writer.faces@.len() == base_len + body_face_position(
                                params,
                                ii,
                                jj,
                                pp,
                                qq,
                                0,
                            ));
                            lemma_body_position_budget(
                                params.stack_horizontal as int,
                                params.stack_vertical as int,
                                params.image_height as int,
                                params.image_width as int,
                                ii,
                                jj,
                                pp,
                                qq,
                            );
                        }
                        let ghost quad_before = stl_writer.faces@;
                        let first = if tlbr_split {
                            stl_writer.write_face_auto_normal(&point_tl, &point_br, &point_tr)
                        } else {
                            stl_writer.write_face_auto_normal(&point_bl, &point_tr, &point_tl)
                        };
                        match first {
                            Ok(()) => {},
                            Err(e) => {
                                proof {
                                    let face = body_cell_face(
                                        params,
                                        circle,
                                        i as int,
                                        j as int,
                                        p as int,
                                        q as int,
                                        0,
                                    );
                                    lemma_face_error_none(
                                        crate::stl::unit_normal_spec(
                                            face.vertex_a,
                                            face.vertex_b,
                                            face.vertex_c,
                                        ),
                                        face.vertex_a,
                                        face.vertex_b,
                                        face.vertex_c,
                                        stl_writer.faces_left,
                                    );
                                    assert(old(stl_writer).faces_left >= params.body_faces_spec()
                                        ==> !derived_face_ok(
                                        face.vertex_a,
                                        face.vertex_b,
                                        face.vertex_c,
                                    ));
                                }
                                return Err(e);
                            },
                        }
                        let second = if tlbr_split {
                            stl_writer.write_face_auto_normal(&point_bl, &point_br, &point_tl)
                        } else {
                            stl_writer.write_face_auto_normal(&point_bl, &point_br, &point_tr)
                        };
                        match second {
                            Ok(()) => {},
                            Err(e) => {
                                proof {
                                    let face = body_cell_face(
                                        params,
                                        circle,
                                        i as int,
                                        j as int,
                                        p as int,
                                        q as int,
                                        1,
                                    );
                                    lemma_face_error_none(
                                        crate::stl::unit_normal_spec(
                                            face.vertex_a,
                                            face.vertex_b,
                                            face.vertex_c,
                                        ),
                                        face.vertex_a,
                                        face.vertex_b,
                                        face.vertex_c,
                                        stl_writer.faces_left,
                                    );
                                    assert(old(stl_writer).faces_left >= params.body_faces_spec()
                                        ==> !derived_face_ok(
                                        face.vertex_a,
                                        face.vertex_b,
                                        face.vertex_c,
                                    ));
                                    assert forall|idx: int| 0 <= idx < base_len implies #[trigger] stl_writer.faces@[idx]
                                        == old(stl_writer).faces@[idx] by {
                                        assert(stl_writer.faces@[idx] == quad_before[idx]);
                                    }
                                }
                                return Err(e);
                            },
                        }
                        proof {
                            let ii = i as int;
                            let jj = j as int;
                            let pp = p as int;
                            let qq = q as int;
                            assert forall|idx: int|
                                base_len <= idx < stl_writer.faces@.len() implies crate::stl::auto_normal_face(
                                #[trigger] stl_writer.faces@[idx],
                            ) by {
                                if idx < quad_before.len() {
                                    assert(stl_writer.faces@[idx] == quad_before[idx]);
                                }
                            }
                            assert forall|idx: int| 0 <= idx < base_len implies #[trigger] stl_writer.faces@[idx]
                                == old(stl_writer).faces@[idx] by {
                                assert(stl_writer.faces@[idx] == quad_before[idx]);
                            }
                            assert(stl_writer.faces@[base_len + body_face_position(
                                params,
                                ii,
                                jj,
                                pp,
                                qq,
                                0,
                            )] == body_cell_face(params, circle, ii, jj, pp, qq, 0));
                            assert(stl_writer.faces@[base_len + body_face_position(
                                params,
                                ii,
                                jj,
                                pp,
                                qq,
                                1,
                            )] == body_cell_face(params, circle, ii, jj, pp, qq, 1));
                            assert forall|ci: int, cj: int, cp: int, cq: int, k: int|
        #![trigger body_face_position(params, ci, cj, cp, cq, k)]
        #![trigger body_cell_face(params, circle, ci, cj, cp, cq, k)]
                                0 <= ci && 0 <= cj < params.image_height && 0 <= cp
                                    < params.stack_horizontal && 0 <= cq < params.stack_vertical
                                    && 0 <= k < 2 && !(cj == params.image_height - 1 && cq
                                    == params.stack_vertical - 1) && cell_before(
                                    ci,
                                    cj,
                                    cp,
                                    cq,
                                    ii,
                                    jj,
                                    pp,
                                    qq + 1,
                                ) implies base_len + body_face_position(params, ci, cj, cp, cq, k)
                                < stl_writer.faces@.len() && stl_writer.faces@[base_len
                                + body_face_position(params, ci, cj, cp, cq, k)]
                                == body_cell_face(params, circle, ci, cj, cp, cq, k) by {
                                if cell_before(ci, cj, cp, cq, ii, jj, pp, qq) {
                                    assert(quad_before[base_len + body_face_position(
                                        params,
                                        ci,
                                        cj,
                                        cp,
                                        cq,
                                        k,
                                    )] == body_cell_face(params, circle, ci, cj, cp, cq, k));
                                    assert(base_len + body_face_position(params, ci, cj, cp, cq, k)
                                        < quad_before.len());
                                    assert(stl_writer.faces@[base_len + body_face_position(
                                        params,
                                        ci,
                                        cj,
                                        cp,
                                        cq,
                                        k,
                                    )] == quad_before[base_len + body_face_position(
                                        params,
                                        ci,
                                        cj,
                                        cp,
                                        cq,
                                        k,
                                    )]);
                                } else {
                                    assert(ci == ii && cj == jj && cp == pp && cq == qq);
                                }
                            }
                            assert(body_emitted_below(
                                params,
                                circle,
                                stl_writer.faces@,
                                base_len,
                                ii,
                                jj,
                                pp,
                                qq + 1,
                            ));
                        }
                    } else {
                        proof {
                            let ii = i as int;
                            let jj = j as int;
                            let pp = p as int;
                            let qq = q as int;
                            assert forall|ci: int, cj: int, cp: int, cq: int, k: int|
        #![trigger body_face_position(params, ci, cj, cp, cq, k)]
        #![trigger body_cell_face(params, circle, ci, cj, cp, cq, k)]
                                0 <= ci && 0 <= cj < params.image_height && 0 <= cp
                                    < params.stack_horizontal && 0 <= cq < params.stack_vertical
                                    && 0 <= k < 2 && !(cj == params.image_height - 1 && cq
                                    == params.stack_vertical - 1) && cell_before(
                                    ci,
                                    cj,
                                    cp,
                                    cq,
                                    ii,
                                    jj,
                                    pp,
                                    qq + 1,
                                ) implies base_len + body_face_position(params, ci, cj, cp, cq, k)
                                < stl_writer.faces@.len() && stl_writer.faces@[base_len
                                + body_face_position(params, ci, cj, cp, cq, k)]
                                == body_cell_face(params, circle, ci, cj, cp, cq, k) by {
                                assert(cell_before(ci, cj, cp, cq, ii, jj, pp, qq));
                                assert(stl_writer.faces@[base_len + body_face_position(
                                    params,
                                    ci,
                                    cj,
                                    cp,
                                    cq,
                                    k,
                                )] == body_cell_face(params, circle, ci, cj, cp, cq, k));
                                assert(base_len + body_face_position(params, ci, cj, cp, cq, k)
                                    < stl_writer.faces@.len());
                            }
                            assert(body_emitted_below(
                                params,
                                circle,
                                stl_writer.faces@,
                                base_len,
                                ii,
                                jj,
                                pp,
                                qq + 1,
                            ));
                        }
                    }
                    q = q + 1;
                }
                proof {
                    assert(cell_quota * (p as int + 1) == cell_quota * (p as int) + cell_quota)
                        by (nonlinear_arith);
                    let ii = i as int;
                    let jj = j as int;
                    let pp = p as int;
                    assert forall|ci: int, cj: int, cp: int, cq: int, k: int|
        #![trigger body_face_position(params, ci, cj, cp, cq, k)]
        #![trigger body_cell_face(params, circle, ci, cj, cp, cq, k)]
                        0 <= ci && 0 <= cj < params.image_height && 0 <= cp
                            < params.stack_horizontal && 0 <= cq < params.stack_vertical && 0 <= k
                            < 2 && !(cj == params.image_height - 1 && cq == params.stack_vertical
                            - 1) && cell_before(ci, cj, cp, cq, ii, jj, pp + 1, 0) implies base_len
                        + body_face_position(params, ci, cj, cp, cq, k) < stl_writer.faces@.len()
                        && stl_writer.faces@[base_len + body_face_position(params, ci, cj, cp, cq, k)]
                        == body_cell_face(params, circle, ci, cj, cp, cq, k) by {
                        assert(cell_before(ci, cj, cp, cq, ii, jj, pp, vstack as int));
                        assert(stl_writer.faces@[base_len + body_face_position(
                            params,
                            ci,
                            cj,
                            cp,
                            cq,
                            k,
                        )] == body_cell_face(params, circle, ci, cj, cp, cq, k));
                        assert(base_len + body_face_position(params, ci, cj, cp, cq, k)
                            < stl_writer.faces@.len());
                    }
                    assert(body_emitted_below(
                        params,
                        circle,
                        stl_writer.faces@,
                        base_len,
                        ii,
                        jj,
                        pp + 1,
                        0,
                    ));
                }
                p = p + 1;
            }
            proof {
                assert(2 * (hstack as int) * ((vstack as int) * ((j as int) + 1)) == 2 * (hstack
                    as int) * ((vstack as int) * (j as int)) + 2 * (hstack as int) * (vstack
                    as int)) by (nonlinear_arith);
                assert(cell_quota * (hstack as int) == 2 * (hstack as int) * (vstack as int) - (
                if j == height - 1 {
                    2 * (hstack as int)
                } else {
                    0int
                })) by (nonlinear_arith)
                    requires
                        cell_quota == 2 * ((vstack as int) - (if j == height - 1 {
                            1int
                        } else {
                            0int
                        })),
                ;
                let ii = i as int;
                let jj = j as int;
                assert forall|ci: int, cj: int, cp: int, cq: int, k: int|
        #![trigger body_face_position(params, ci, cj, cp, cq, k)]
        #![trigger body_cell_face(params, circle, ci, cj, cp, cq, k)]
                    0 <= ci && 0 <= cj < params.image_height && 0 <= cp < params.stack_horizontal
                        && 0 <= cq < params.stack_vertical && 0 <= k < 2 && !(cj
                        == params.image_height - 1 && cq == params.stack_vertical - 1)
                        && cell_before(ci, cj, cp, cq, ii, jj + 1, 0, 0) implies base_len
                    + body_face_position(params, ci, cj, cp, cq, k) < stl_writer.faces@.len()
                    && stl_writer.faces@[base_len + body_face_position(params, ci, cj, cp, cq, k)]
                    == body_cell_face(params, circle, ci, cj, cp, cq, k) by {
                    assert(cell_before(ci, cj, cp, cq, ii, jj, hstack as int, 0));
                    assert(stl_writer.faces@[base_len + body_face_position(params, ci, cj, cp, cq, k)]
                        == body_cell_face(params, circle, ci, cj, cp, cq, k));
                    assert(base_len + body_face_position(params, ci, cj, cp, cq, k)
                        < stl_writer.faces@.len());
                }
                assert(body_emitted_below(
                    params,
                    circle,
                    stl_writer.faces@,
                    base_len,
                    ii,
                    jj + 1,
                    0,
                    0,
                ));
            }
            j = j + 1;
        }
        proof {
            assert(col_quota * (i as int + 1) == col_quota * (i as int) + 2 * (hstack as int) * ((
            vstack as int) * (height as int)) - 2 * (hstack as int)) by (nonlinear_arith)
                requires
                    col_quota == 2 * (hstack as int) * ((height as int) * (vstack as int) - 1),
            ;
            assert((vstack as int) * (height as int) == (height as int) * (vstack as int))
                by (nonlinear_arith);
            let ii = i as int;
            assert forall|ci: int, cj: int, cp: int, cq: int, k: int|
        #![trigger body_face_position(params, ci, cj, cp, cq, k)]
        #![trigger body_cell_face(params, circle, ci, cj, cp, cq, k)]
                0 <= ci && 0 <= cj < params.image_height && 0 <= cp < params.stack_horizontal && 0
                    <= cq < params.stack_vertical && 0 <= k < 2 && !(cj == params.image_height - 1
                    && cq == params.stack_vertical - 1) && cell_before(
                    ci,
                    cj,
                    cp,
                    cq,
                    ii + 1,
                    0,
                    0,
                    0,
                ) implies base_len + body_face_position(params, ci, cj, cp, cq, k)
                < stl_writer.faces@.len() && stl_writer.faces@[base_len + body_face_position(
                params,
                ci,
                cj,
                cp,
                cq,
                k,
            )] == body_cell_face(params, circle, ci, cj, cp, cq, k) by {
                assert(cell_before(ci, cj, cp, cq, ii, height as int, 0, 0));
                assert(stl_writer.faces@[base_len + body_face_position(params, ci, cj, cp, cq, k)]
                    == body_cell_face(params, circle, ci, cj, cp, cq, k));
                assert(base_len + body_face_position(params, ci, cj, cp, cq, k)
                    < stl_writer.faces@.len());
            }
            assert(body_emitted_below(
                params,
                circle,
                stl_writer.faces@,
                base_len,
                ii + 1,
                0,
                0,
                0,
            ));
        }
        i = i + 1;
    }
    Ok(())
}

/// The radius the top boundary ring uses at outer-ring index `m`: the
/// grid's first row, repeated around the full perimeter.
pub open spec fn top_ring_radius(params: &Parameters, m: int) -> int {
    params.radii_vector@[m % (params.image_width as int)] as int
}

/// The radius the bottom boundary ring uses at outer-ring index `m`: the
/// grid's last row, repeated around the full perimeter.
pub open spec fn bot_ring_radius(params: &Parameters, m: int) -> int {
    params.radii_vector@[params.radii_vector@.len() - params.image_width + (m % (
    params.image_width as int))] as int
}

/// The mesh point of ring sample `m` at radius `rho` and height `z`.
pub open spec fn ring_point(circle: &CircleConverter, m: int, rho: int, z: int) -> Vector3 {
    Vector3 { x: circle.sample_x(m, rho) as i64, y: circle.sample_y(m, rho) as i64, z: z as i64 }
}

/// The point on the roller axis at height `z`.
pub open spec fn axis_point(circle: &CircleConverter, z: int) -> Vector3 {
    Vector3 { x: circle.axis_shift, y: circle.axis_shift, z: z as i64 }
}

/// The `i`-th fan triangle (1-based) of the solid top lid: from the lid's
/// center to boundary-ring samples `i - 1` and `i`, facing up.
pub open spec fn solid_lid_top_face(params: &Parameters, circle: &CircleConverter, i: int)
    -> Triangle {
    Triangle {
        normal: Vector3 { x: 0i64, y: 0i64, z: UNIT },
        vertex_a: axis_point(circle, params.roller_length as int),
        vertex_b: ring_point(
            circle,
            i - 1,
            top_ring_radius(params, i - 1),
            params.roller_length as int,
        ),
        vertex_c: ring_point(circle, i, top_ring_radius(params, i), params.roller_length as int),
    }
}

/// The `i`-th fan triangle (1-based) of the solid bottom lid: from the
/// lid's center to boundary-ring samples `i` and `i - 1`, facing down.
pub open spec fn solid_lid_bot_face(params: &Parameters, circle: &CircleConverter, i: int)
    -> Triangle {
    Triangle {
        normal: Vector3 { x: 0i64, y: 0i64, z: (-UNIT) as i64 },
        vertex_a: axis_point(circle, 0),
        vertex_b: ring_point(circle, i, bot_ring_radius(params, i), 0),
        vertex_c: ring_point(circle, i - 1, bot_ring_radius(params, i - 1), 0),
    }
}

/// The faces at `base` onward are exactly the first `count` pairs of
/// solid-lid fan triangles, alternating top and bottom, one pair per ring
/// sample.
pub open spec fn solid_lids_emitted(
    params: &Parameters,
    circle: &CircleConverter,
    faces: Seq<Triangle>,
    base: int,
    count: int,
) -> bool {
    forall|m: int|
        #![trigger solid_lid_top_face(params, circle, m)]
        #![trigger solid_lid_bot_face(params, circle, m)]
        1 <= m <= count ==> faces[base + 2 * (m - 1)] == solid_lid_top_face(params, circle, m)
            && faces[base + 2 * (m - 1) + 1] == solid_lid_bot_face(params, circle, m)
}

/// Every fan triangle the solid lids emit passes the sink's validation.
pub open spec fn solid_lids_faces_valid(params: &Parameters, circle: &CircleConverter) -> bool {
    forall|m: int|
        #![trigger solid_lid_top_face(params, circle, m)]
        #![trigger solid_lid_bot_face(params, circle, m)]
        1 <= m <= circle.n_points ==> triangle_valid(solid_lid_top_face(params, circle, m))
            && triangle_valid(solid_lid_bot_face(params, circle, m))
}

/// Close both ends with solid discs: fan triangles from the end's center
/// point to the boundary ring, whose radii repeat the grid's top and
/// bottom rows around the full perimeter — two faces per ring sample. On
/// success the emitted faces are exactly the fans `solid_lid_top_face` and
/// `solid_lid_bot_face`, alternating top and bottom, one pair per ring
/// sample — and success is owed whenever those fans are all valid and the
/// sink's budget covers them; on failure the already-collected faces
/// remain in the sink untouched.
pub fn make_lids_solid(
    stl_writer: &mut STLFileWriter,
    params: &Parameters,
    circle: &CircleConverter,
) -> (r: Result<(), RollerError>)
    requires
        old(stl_writer).wf(),
        params.wf(),
        circle.wf(),
        circle.n_points == params.image_width * params.stack_horizontal,
    ensures
        final(stl_writer).wf(),
        r is Ok ==> final(stl_writer).faces@.len() == old(stl_writer).faces@.len() + 2
            * circle.n_points && final(stl_writer).faces_left == old(stl_writer).faces_left - 2
            * circle.n_points,
        r is Ok ==> solid_lids_emitted(
            params,
            circle,
            final(stl_writer).faces@,
            old(stl_writer).faces@.len() as int,
            circle.n_points as int,
        ),
        old(stl_writer).faces_left >= 2 * circle.n_points && solid_lids_faces_valid(params, circle)
            ==> r is Ok,
        final(stl_writer).faces@.len() >= old(stl_writer).faces@.len(),
        forall|idx: int|
            0 <= idx < old(stl_writer).faces@.len() ==> #[trigger] final(stl_writer).faces@[idx]
                == old(stl_writer).faces@[idx],
{
    let z_max: i64 = params.roller_length;
    let top_radii = params.get_image_topline();
    let bot_radii = params.get_image_botline();
    let up = Vector3 { x: 0, y: 0, z: UNIT };
    let down = Vector3 { x: 0, y: 0, z: -UNIT };
    let top_center = Vector3 { x: circle.axis_shift, y: circle.axis_shift, z: z_max };
    let bot_center = Vector3 { x: circle.axis_shift, y: circle.axis_shift, z: 0 };
    let ghost base_len = old(stl_writer).faces@.len() as int;
    let ghost base_left = old(stl_writer).faces_left as int;
    proof {
        lemma_mul_inequality(1, params.image_height as int, params.image_width as int);
        lemma_mul_is_commutative(params.image_height as int, params.image_width as int);
        assert(top_radii@.len() == params.image_width as int);
        assert(bot_radii@.len() == params.image_width as int);
        assert(top_radii@[0] == params.radii_vector@[0]);
        assert(bot_radii@[0] == params.radii_vector@[params.radii_vector@.len()
            - params.image_width]);
    }
    let mut top_point_new = circle.get_vector3(0, top_radii[0], z_max);
    let mut bot_point_new = circle.get_vector3(0, bot_radii[0], 0);
    proof {
        assert(top_ring_radius(params, 0) == params.radii_vector@[0]);
        assert(bot_ring_radius(params, 0) == params.radii_vector@[params.radii_vector@.len()
            - params.image_width]);
        assert(top_point_new == ring_point(
            circle,
            0,
            top_ring_radius(params, 0),
            params.roller_length as int,
        ));
        assert(bot_point_new == ring_point(circle, 0, bot_ring_radius(params, 0), 0));
    }
    let n: usize = circle.n_points;
    let mut i: usize = 1;
    while i <= n
        invariant
            stl_writer.wf(),
            1 <= i <= n + 1,
            stl_writer.faces@.len() == base_len + 2 * (i - 1),
            stl_writer.faces_left == base_left - 2 * (i - 1),
            vec_in_bounds(top_point_new, COORD_LIMIT as int),
            vec_in_bounds(bot_point_new, COORD_LIMIT as int),
            top_point_new == ring_point(
                circle,
                i - 1,
                top_ring_radius(params, i - 1),
                params.roller_length as int,
            ),
            bot_point_new == ring_point(circle, i - 1, bot_ring_radius(params, i - 1), 0),
            solid_lids_emitted(params, circle, stl_writer.faces@, base_len, i - 1),
            forall|idx: int|
                0 <= idx < base_len ==> #[trigger] stl_writer.faces@[idx] == old(
                    stl_writer,
                ).faces@[idx],
        decreases n + 1 - i,
    {
        let top_point_old = top_point_new;
        let bot_point_old = bot_point_new;
        let top_index: usize = i % top_radii.len();
        let bot_index: usize = i % bot_radii.len();
        proof {
            assert(top_radii@[top_index as int] == params.radii_vector@[top_index as int]);
            assert(bot_radii@[bot_index as int] == params.radii_vector@[
            params.radii_vector@.len() - params.image_width + bot_index]);
        }
        top_point_new = circle.get_vector3(i, top_radii[top_index], z_max);
        bot_point_new = circle.get_vector3(i, bot_radii[bot_index], 0);
        let ghost before = stl_writer.faces@;
        match stl_writer.write_face(&up, &top_center, &top_point_old, &top_point_new) {
            Ok(()) => {},
            Err(e) => {
                proof {
                    lemma_face_error_none(
                        up,
                        top_center,
                        top_point_old,
                        top_point_new,
                        stl_writer.faces_left,
                    );
                    assert((Triangle {
                        normal: up,
                        vertex_a: top_center,
                        vertex_b: top_point_old,
                        vertex_c: top_point_new,
                    }) == solid_lid_top_face(params, circle, i as int));
                    assert(old(stl_writer).faces_left >= 2 * circle.n_points
                        ==> !triangle_valid(solid_lid_top_face(params, circle, i as int)));
                }
                return Err(e);
            },
        }
        match stl_writer.write_face(&down, &bot_center, &bot_point_new, &bot_point_old) {
            Ok(()) => {},
            Err(e) => {
                proof {
                    lemma_face_error_none(
                        down,
                        bot_center,
                        bot_point_new,
                        bot_point_old,
                        stl_writer.faces_left,
                    );
                    assert((Triangle {
                        normal: down,
                        vertex_a: bot_center,
                        vertex_b: bot_point_new,
                        vertex_c: bot_point_old,
                    }) == solid_lid_bot_face(params, circle, i as int));
                    assert(old(stl_writer).faces_left >= 2 * circle.n_points
                        ==> !triangle_valid(solid_lid_bot_face(params, circle, i as int)));
                    assert forall|idx: int| 0 <= idx < base_len implies #[trigger] stl_writer.faces@[idx]
                        == old(stl_writer).faces@[idx] by {
                        assert(stl_writer.faces@[idx] == before[idx]);
                    }
                }
                return Err(e);
            },
        }
        proof {
            let after = stl_writer.faces@;
            assert(before.len() == base_len + 2 * (i - 1));
            assert forall|idx: int| 0 <= idx < base_len implies #[trigger] after[idx] == old(
                stl_writer,
            ).faces@[idx] by {
                assert(after[idx] == before[idx]);
            }
            assert forall|m: int|
                #![trigger solid_lid_top_face(params, circle, m)]
                #![trigger solid_lid_bot_face(params, circle, m)]
                1 <= m <= i as int implies after[base_len + 2 * (m - 1)] == solid_lid_top_face(
                params,
                circle,
                m,
            ) && after[base_len + 2 * (m - 1) + 1] == solid_lid_bot_face(params, circle, m) by {
                if m < i {
                    assert(before[base_len + 2 * (m - 1) + 1] == solid_lid_bot_face(
                        params,
                        circle,
                        m,
                    ));
                    assert(before[base_len + 2 * (m - 1)] == solid_lid_top_face(params, circle, m));
                    assert(after[base_len + 2 * (m - 1)] == before[base_len + 2 * (m - 1)]);
                    assert(after[base_len + 2 * (m - 1) + 1] == before[base_len + 2 * (m - 1)
                        + 1]);
                } else {
                    assert(m == i);
                    assert(after[base_len + 2 * (i - 1)] == solid_lid_top_face(
                        params,
                        circle,
                        i as int,
                    ));
                    assert(after[base_len + 2 * (i - 1) + 1] == solid_lid_bot_face(
                        params,
                        circle,
                        i as int,
                    ));
                }
            }
            assert(solid_lids_emitted(params, circle, after, base_len, i as int));
        }
        i = i + 1;
    }
    Ok(())
}

/// The wall normal of ring segment `m`: the in-plane direction of the
/// segment from sample `m - 1` to sample `m`, rotated a quarter turn
/// clockwise.
pub open spec fn segment_wall_normal(circle: &CircleConverter, m: int, radius: int) -> Vector3 {
    let prev = ring_point(circle, m - 1, radius, 0);
    let next = ring_point(circle, m, radius, 0);
    Vector3 { x: (prev.y - next.y) as i64, y: (next.x - prev.x) as i64, z: 0i64 }
}

/// The first wall triangle of bore segment `m` (1-based): the upper half
/// of the segment's quad.
pub open spec fn channel_wall_face_a(params: &Parameters, circle: &CircleConverter, radius: int, m: int)
    -> Triangle {
    Triangle {
        normal: segment_wall_normal(circle, m, radius),
        vertex_a: ring_point(circle, m - 1, radius, params.roller_length as int),
        vertex_b: ring_point(circle, m, radius, params.roller_length as int),
        vertex_c: ring_point(circle, m - 1, radius, 0),
    }
}

/// The second wall triangle of bore segment `m` (1-based): the lower half
/// of the segment's quad.
pub open spec fn channel_wall_face_b(params: &Parameters, circle: &CircleConverter, radius: int, m: int)
    -> Triangle {
    Triangle {
        normal: segment_wall_normal(circle, m, radius),
        vertex_a: ring_point(circle, m - 1, radius, 0),
        vertex_b: ring_point(circle, m, radius, params.roller_length as int),
        vertex_c: ring_point(circle, m, radius, 0),
    }
}

/// The faces at `base` onward are exactly the first `count` bore-wall
/// quads, two triangles per segment.
pub open spec fn channel_walls_emitted(
    params: &Parameters,
    circle: &CircleConverter,
    radius: int,
    faces: Seq<Triangle>,
    base: int,
    count: int,
) -> bool {
    forall|m: int|
        #![trigger channel_wall_face_a(params, circle, radius, m)]
        #![trigger channel_wall_face_b(params, circle, radius, m)]
        1 <= m <= count ==> faces[base + 2 * (m - 1)] == channel_wall_face_a(
            params,
            circle,
            radius,
            m,
        ) && faces[base + 2 * (m - 1) + 1] == channel_wall_face_b(params, circle, radius, m)
}

/// Every wall triangle the bore would emit passes the sink's validation.
pub open spec fn channel_wall_faces_valid(
    params: &Parameters,
    circle: &CircleConverter,
    radius: int,
) -> bool {
    forall|m: int|
        #![trigger channel_wall_face_a(params, circle, radius, m)]
        #![trigger channel_wall_face_b(params, circle, radius, m)]
        1 <= m <= circle.n_points ==> triangle_valid(channel_wall_face_a(params, circle, radius, m))
            && triangle_valid(channel_wall_face_b(params, circle, radius, m))
}

/// Emit the side walls of the coaxial bore: one quad (two triangles) per
/// bore-ring segment, between the top and bottom bore rings, with the
/// normal pointing into the bore (the clockwise-rotated in-plane segment
/// direction). On success the emitted faces are exactly the wall quads of
/// `channel_walls_emitted`, at the bore's own radius (half its diameter);
/// success is owed whenever those quads are all valid and the budget
/// covers them, and on failure the already-collected faces remain in the
/// sink untouched.
pub fn make_channel(
    stl_writer: &mut STLFileWriter,
    params: &Parameters,
    circle: &CircleConverter,
    channel_diameter: i64,
) -> (r: Result<(), RollerError>)
    requires
        old(stl_writer).wf(),
        params.wf(),
        circle.wf(),
        2 <= channel_diameter <= DIM_LIMIT,
    ensures
        final(stl_writer).wf(),
        r is Ok ==> final(stl_writer).faces@.len() == old(stl_writer).faces@.len() + 2
            * circle.n_points && final(stl_writer).faces_left == old(stl_writer).faces_left - 2
            * circle.n_points,
        r is Ok ==> channel_walls_emitted(
            params,
            circle,
            channel_diameter as int / 2,
            final(stl_writer).faces@,
            old(stl_writer).faces@.len() as int,
            circle.n_points as int,
        ),
        old(stl_writer).faces_left >= 2 * circle.n_points && channel_wall_faces_valid(
            params,
            circle,
            channel_diameter as int / 2,
        ) ==> r is Ok,
        final(stl_writer).faces@.len() >= old(stl_writer).faces@.len(),
        forall|idx: int|
            0 <= idx < old(stl_writer).faces@.len() ==> #[trigger] final(stl_writer).faces@[idx]
                == old(stl_writer).faces@[idx],
{
    let z_max: i64 = params.roller_length;
    let channel_radius: i64 = ((channel_diameter as u64) / 2) as i64;
    let ghost base_len = old(stl_writer).faces@.len() as int;
    let ghost base_left = old(stl_writer).faces_left as int;
    let mut top_point_new = circle.get_vector3(0, channel_radius, z_max);
    let mut bot_point_new = circle.get_vector3(0, channel_radius, 0);
    let n: usize = circle.n_points;
    let mut i: usize = 1;
    while i <= n
        invariant
            stl_writer.wf(),
            1 <= i <= n + 1,
            stl_writer.faces@.len() == base_len + 2 * (i - 1),
            stl_writer.faces_left == base_left - 2 * (i - 1),
            vec_in_bounds(top_point_new, COORD_LIMIT as int),
            vec_in_bounds(bot_point_new, COORD_LIMIT as int),
            top_point_new == ring_point(
                circle,
                i - 1,
                channel_radius as int,
                params.roller_length as int,
            ),
            bot_point_new == ring_point(circle, i - 1, channel_radius as int, 0),
            channel_walls_emitted(
                params,
                circle,
                channel_radius as int,
                stl_writer.faces@,
                base_len,
                i - 1,
            ),
            forall|idx: int|
                0 <= idx < base_len ==> #[trigger] stl_writer.faces@[idx] == old(
                    stl_writer,
                ).faces@[idx],
        decreases n + 1 - i,
    {
        let top_point_old = top_point_new;
        let bot_point_old = bot_point_new;
        top_point_new = circle.get_vector3(i, channel_radius, z_max);
        bot_point_new = circle.get_vector3(i, channel_radius, 0);
        let normal = Vector3::from_points(&top_point_old, &top_point_new).xy_perp_clockwise();
        let ghost before = stl_writer.faces@;
        proof {
            assert(normal == segment_wall_normal(circle, i as int, channel_radius as int));
        }
        match stl_writer.write_face(&normal, &top_point_old, &top_point_new, &bot_point_old) {
            Ok(()) => {},
            Err(e) => {
                proof {
                    lemma_face_error_none(
                        normal,
                        top_point_old,
                        top_point_new,
                        bot_point_old,
                        stl_writer.faces_left,
                    );
                    assert((Triangle {
                        normal,
                        vertex_a: top_point_old,
                        vertex_b: top_point_new,
                        vertex_c: bot_point_old,
                    }) == channel_wall_face_a(params, circle, channel_radius as int, i as int));
                    assert(old(stl_writer).faces_left >= 2 * circle.n_points ==> !triangle_valid(
                        channel_wall_face_a(params, circle, channel_radius as int, i as int),
                    ));
                }
                return Err(e);
            },
        }
        match stl_writer.write_face(&normal, &bot_point_old, &top_point_new, &bot_point_new) {
            Ok(()) => {},
            Err(e) => {
                proof {
                    lemma_face_error_none(
                        normal,
                        bot_point_old,
                        top_point_new,
                        bot_point_new,
                        stl_writer.faces_left,
                    );
                    assert((Triangle {
                        normal,
                        vertex_a: bot_point_old,
                        vertex_b: top_point_new,
                        vertex_c: bot_point_new,
                    }) == channel_wall_face_b(params, circle, channel_radius as int, i as int));
                    assert(old(stl_writer).faces_left >= 2 * circle.n_points ==> !triangle_valid(
                        channel_wall_face_b(params, circle, channel_radius as int, i as int),
                    ));
                    assert forall|idx: int| 0 <= idx < base_len implies #[trigger] stl_writer.faces@[idx]
                        == old(stl_writer).faces@[idx] by {
                        assert(stl_writer.faces@[idx] == before[idx]);
                    }
                }
                return Err(e);
            },
        }
        proof {
            let after = stl_writer.faces@;
            let radius = channel_radius as int;
            assert(before.len() == base_len + 2 * (i - 1));
            assert forall|idx: int| 0 <= idx < base_len implies #[trigger] after[idx] == old(
                stl_writer,
            ).faces@[idx] by {
                assert(after[idx] == before[idx]);
            }
            assert(normal == segment_wall_normal(circle, i as int, radius));
            assert forall|m: int|
                #![trigger channel_wall_face_a(params, circle, radius, m)]
                #![trigger channel_wall_face_b(params, circle, radius, m)]
                1 <= m <= i as int implies after[base_len + 2 * (m - 1)] == channel_wall_face_a(
                params,
                circle,
                radius,
                m,
            ) && after[base_len + 2 * (m - 1) + 1] == channel_wall_face_b(
                params,
                circle,
                radius,
                m,
            ) by {
                if m < i {
                    assert(before[base_len + 2 * (m - 1)] == channel_wall_face_a(
                        params,
                        circle,
                        radius,
                        m,
                    ));
                    assert(before[base_len + 2 * (m - 1) + 1] == channel_wall_face_b(
                        params,
                        circle,
                        radius,
                        m,
                    ));
                    assert(after[base_len + 2 * (m - 1)] == before[base_len + 2 * (m - 1)]);
                    assert(after[base_len + 2 * (m - 1) + 1] == before[base_len + 2 * (m - 1)
                        + 1]);
                } else {
                    assert(m == i);
                    assert(after[base_len + 2 * (i - 1)] == channel_wall_face_a(
                        params,
                        circle,
                        radius,
                        i as int,
                    ));
                    assert(after[base_len + 2 * (i - 1) + 1] == channel_wall_face_b(
                        params,
                        circle,
                        radius,
                        i as int,
                    ));
                }
            }
            assert(channel_walls_emitted(params, circle, radius, after, base_len, i as int));
        }
        i = i + 1;
    }
    Ok(())
}

/// The wall normal of ring segment `m` facing away from the bore side:
/// the in-plane direction of the segment from sample `m` back to sample
/// `m - 1`, rotated a quarter turn clockwise.
pub open spec fn segment_wall_normal_outward(circle: &CircleConverter, m: int, radius: int)
    -> Vector3 {
    let prev = ring_point(circle, m - 1, radius, 0);
    let next = ring_point(circle, m, radius, 0);
    Vector3 { x: (next.y - prev.y) as i64, y: (prev.x - next.x) as i64, z: 0i64 }
}

/// The `k`-th of the six faces pin segment `m` (1-based) contributes: the
/// top tip-cap fan triangle, the two top wall triangles down to the base
/// plane, the bottom tip-cap fan triangle, and the two bottom wall
/// triangles.
pub open spec fn pin_segment_face(
    params: &Parameters,
    circle: &CircleConverter,
    radius: int,
    pin_length: int,
    m: int,
    k: int,
) -> Triangle {
    let tip_top = params.roller_length + 2 * pin_length;
    let base_top = params.roller_length + pin_length;
    let outward = segment_wall_normal_outward(circle, m, radius);
    if k == 0 {
        Triangle {
            normal: Vector3 { x: 0i64, y: 0i64, z: UNIT },
            vertex_a: ring_point(circle, m - 1, radius, tip_top),
            vertex_b: ring_point(circle, m, radius, tip_top),
            vertex_c: axis_point(circle, tip_top),
        }
    } else if k == 1 {
        Triangle {
            normal: outward,
            vertex_a: ring_point(circle, m - 1, radius, base_top),
            vertex_b: ring_point(circle, m, radius, tip_top),
            vertex_c: ring_point(circle, m - 1, radius, tip_top),
        }
    } else if k == 2 {
        Triangle {
            normal: outward,
            vertex_a: ring_point(circle, m, radius, tip_top),
            vertex_b: ring_point(circle, m - 1, radius, base_top),
            vertex_c: ring_point(circle, m, radius, base_top),
        }
    } else if k == 3 {
        Triangle {
            normal: Vector3 { x: 0i64, y: 0i64, z: (-UNIT) as i64 },
            vertex_a: axis_point(circle, 0),
            vertex_b: ring_point(circle, m, radius, 0),
            vertex_c: ring_point(circle, m - 1, radius, 0),
        }
    } else if k == 4 {
        Triangle {
            normal: outward,
            vertex_a: ring_point(circle, m - 1, radius, 0),
            vertex_b: ring_point(circle, m, radius, 0),
            vertex_c: ring_point(circle, m - 1, radius, pin_length),
        }
    } else {
        Triangle {
            normal: outward,
            vertex_a: ring_point(circle, m, radius, pin_length),
            vertex_b: ring_point(circle, m - 1, radius, pin_length),
            vertex_c: ring_point(circle, m, radius, 0),
        }
    }
}

/// The faces at `base` onward are exactly the first `count` pin segments'
/// six faces each, in emission order.
pub open spec fn pins_emitted(
    params: &Parameters,
    circle: &CircleConverter,
    radius: int,
    pin_length: int,
    faces: Seq<Triangle>,
    base: int,
    count: int,
) -> bool {
    forall|m: int, k: int|
        1 <= m <= count && 0 <= k < 6 ==> faces[base + 6 * (m - 1) + k]
            == #[trigger] pin_segment_face(params, circle, radius, pin_length, m, k)
}

/// Every face the pins would emit passes the sink's validation.
pub open spec fn pin_faces_valid(
    params: &Parameters,
    circle: &CircleConverter,
    radius: int,
    pin_length: int,
) -> bool {
    forall|m: int, k: int|
        1 <= m <= circle.n_points && 0 <= k < 6 ==> triangle_valid(
            #[trigger] pin_segment_face(params, circle, radius, pin_length, m, k),
        )
}

/// Emit the axle pins: per end, a tip-cap fan to the pin's center and the
/// side wall down to the base plane — six faces per pin-ring segment over
/// both ends together, exactly the faces of `pins_emitted` at the pin's
/// own radius (half its diameter). Success is owed whenever those faces
/// are all valid and the budget covers them; on failure the
/// already-collected faces remain in the sink untouched.
pub fn make_pins(
    stl_writer: &mut STLFileWriter,
    params: &Parameters,
    circle: &CircleConverter,
    pin_diameter: i64,
    pin_length: i64,
) -> (r: Result<(), RollerError>)
    requires
        old(stl_writer).wf(),
        params.wf(),
        circle.wf(),
        2 <= pin_diameter <= DIM_LIMIT,
        0 < pin_length <= DIM_LIMIT,
    ensures
        final(stl_writer).wf(),
        r is Ok ==> final(stl_writer).faces@.len() == old(stl_writer).faces@.len() + 6
            * circle.n_points && final(stl_writer).faces_left == old(stl_writer).faces_left - 6
            * circle.n_points,
        r is Ok ==> pins_emitted(
            params,
            circle,
            pin_diameter as int / 2,
            pin_length as int,
            final(stl_writer).faces@,
            old(stl_writer).faces@.len() as int,
            circle.n_points as int,
        ),
        old(stl_writer).faces_left >= 6 * circle.n_points && pin_faces_valid(
            params,
            circle,
            pin_diameter as int / 2,
            pin_length as int,
        ) ==> r is Ok,
        final(stl_writer).faces@.len() >= old(stl_writer).faces@.len(),
        forall|idx: int|
            0 <= idx < old(stl_writer).faces@.len() ==> #[trigger] final(stl_writer).faces@[idx]
                == old(stl_writer).faces@[idx],
{
    let z_max: i64 = params.roller_length + 2 * pin_length;
    let up = Vector3 { x: 0, y: 0, z: UNIT };
    let down = Vector3 { x: 0, y: 0, z: -UNIT };
    let top_center = Vector3 { x: circle.axis_shift, y: circle.axis_shift, z: z_max };
    let bot_center = Vector3 { x: circle.axis_shift, y: circle.axis_shift, z: 0 };
    let pin_radius: i64 = ((pin_diameter as u64) / 2) as i64;
    let ghost base_len = old(stl_writer).faces@.len() as int;
    let ghost base_left = old(stl_writer).faces_left as int;
    let (mut x_new, mut y_new) = circle.get_xy(0, pin_radius);
    let n: usize = circle.n_points;
    let mut i: usize = 1;
    while i <= n
        invariant
            stl_writer.wf(),
            1 <= i <= n + 1,
            stl_writer.faces@.len() == base_len + 6 * (i - 1),
            stl_writer.faces_left == base_left - 6 * (i - 1),
            -COORD_LIMIT <= x_new <= COORD_LIMIT,
            -COORD_LIMIT <= y_new <= COORD_LIMIT,
            x_new as int == circle.sample_x(i - 1, pin_radius as int),
            y_new as int == circle.sample_y(i - 1, pin_radius as int),
            pins_emitted(
                params,
                circle,
                pin_radius as int,
                pin_length as int,
                stl_writer.faces@,
                base_len,
                i - 1,
            ),
            forall|idx: int|
                0 <= idx < base_len ==> #[trigger] stl_writer.faces@[idx] == old(
                    stl_writer,
                ).faces@[idx],
        decreases n + 1 - i,
    {
        let x_old = x_new;
        let y_old = y_new;
        let sample = circle.get_xy(i, pin_radius);
        x_new = sample.0;
        y_new = sample.1;
        let ghost before = stl_writer.faces@;
        let top_point_1 = Vector3 { x: x_old, y: y_old, z: z_max };
        let top_point_2 = Vector3 { x: x_new, y: y_new, z: z_max };
        match stl_writer.write_face(&up, &top_point_1, &top_point_2, &top_center) {
            Ok(()) => {},
            Err(e) => {
                proof {
                    lemma_face_error_none(up, top_point_1, top_point_2, top_center, stl_writer.faces_left);
                    assert((Triangle {
                        normal: up,
                        vertex_a: top_point_1,
                        vertex_b: top_point_2,
                        vertex_c: top_center,
                    }) == pin_segment_face(
                        params,
                        circle,
                        pin_radius as int,
                        pin_length as int,
                        i as int,
                        0,
                    ));
                    assert(old(stl_writer).faces_left >= 6 * circle.n_points ==> !triangle_valid(
                        pin_segment_face(
                            params,
                            circle,
                            pin_radius as int,
                            pin_length as int,
                            i as int,
                            0,
                        ),
                    ));
                }
                return Err(e);
            },
        }
        let ghost snap1 = stl_writer.faces@;
        let top_point_3 = Vector3 { x: x_old, y: y_old, z: z_max - pin_length };
        let top_point_4 = Vector3 { x: x_new, y: y_new, z: z_max - pin_length };
        let top_normal = Vector3::from_points(&top_point_2, &top_point_1).xy_perp_clockwise();
        proof {
            assert(top_normal == segment_wall_normal_outward(circle, i as int, pin_radius as int));
        }
        match stl_writer.write_face(&top_normal, &top_point_3, &top_point_2, &top_point_1) {
            Ok(()) => {},
            Err(e) => {
                proof {
                    lemma_face_error_none(top_normal, top_point_3, top_point_2, top_point_1, stl_writer.faces_left);
                    assert((Triangle {
                        normal: top_normal,
                        vertex_a: top_point_3,
                        vertex_b: top_point_2,
                        vertex_c: top_point_1,
                    }) == pin_segment_face(
                        params,
                        circle,
                        pin_radius as int,
                        pin_length as int,
                        i as int,
                        1,
                    ));
                    assert(old(stl_writer).faces_left >= 6 * circle.n_points ==> !triangle_valid(
                        pin_segment_face(
                            params,
                            circle,
                            pin_radius as int,
                            pin_length as int,
                            i as int,
                            1,
                        ),
                    ));
                    assert forall|idx: int| 0 <= idx < base_len implies #[trigger] stl_writer.faces@[idx]
                        == old(stl_writer).faces@[idx] by {
                        assert(stl_writer.faces@[idx] == snap1[idx]);
                        assert(snap1[idx] == before[idx]);
                    }
                }
                return Err(e);
            },
        }
        let ghost snap2 = stl_writer.faces@;
        match stl_writer.write_face(&top_normal, &top_point_2, &top_point_3, &top_point_4) {
            Ok(()) => {},
            Err(e) => {
                proof {
                    lemma_face_error_none(top_normal, top_point_2, top_point_3, top_point_4, stl_writer.faces_left);
                    assert((Triangle {
                        normal: top_normal,
                        vertex_a: top_point_2,
                        vertex_b: top_point_3,
                        vertex_c: top_point_4,
                    }) == pin_segment_face(
                        params,
                        circle,
                        pin_radius as int,
                        pin_length as int,
                        i as int,
                        2,
                    ));
                    assert(old(stl_writer).faces_left >= 6 * circle.n_points ==> !triangle_valid(
                        pin_segment_face(
                            params,
                            circle,
                            pin_radius as int,
                            pin_length as int,
                            i as int,
                            2,
                        ),
                    ));
                    assert forall|idx: int| 0 <= idx < base_len implies #[trigger] stl_writer.faces@[idx]
                        == old(stl_writer).faces@[idx] by {
                        assert(stl_writer.faces@[idx] == snap2[idx]);
                        assert(snap2[idx] == snap1[idx]);
                        assert(snap1[idx] == before[idx]);
                    }
                }
                return Err(e);
            },
        }
        let ghost snap3 = stl_writer.faces@;
        let bot_point_1 = Vector3 { x: x_old, y: y_old, z: 0 };
        let bot_point_2 = Vector3 { x: x_new, y: y_new, z: 0 };
        match stl_writer.write_face(&down, &bot_center, &bot_point_2, &bot_point_1) {
            Ok(()) => {},
            Err(e) => {
                proof {
                    lemma_face_error_none(down, bot_center, bot_point_2, bot_point_1, stl_writer.faces_left);
                    assert((Triangle {
                        normal: down,
                        vertex_a: bot_center,
                        vertex_b: bot_point_2,
                        vertex_c: bot_point_1,
                    }) == pin_segment_face(
                        params,
                        circle,
                        pin_radius as int,
                        pin_length as int,
                        i as int,
                        3,
                    ));
                    assert(old(stl_writer).faces_left >= 6 * circle.n_points ==> !triangle_valid(
                        pin_segment_face(
                            params,
                            circle,
                            pin_radius as int,
                            pin_length as int,
                            i as int,
                            3,
                        ),
                    ));
                    assert forall|idx: int| 0 <= idx < base_len implies #[trigger] stl_writer.faces@[idx]
                        == old(stl_writer).faces@[idx] by {
                        assert(stl_writer.faces@[idx] == snap3[idx]);
                        assert(snap3[idx] == snap2[idx]);
                        assert(snap2[idx] == snap1[idx]);
                        assert(snap1[idx] == before[idx]);
                    }
                }
                return Err(e);
            },
        }
        let ghost snap4 = stl_writer.faces@;
        let bot_point_3 = Vector3 { x: x_old, y: y_old, z: pin_length };
        let bot_point_4 = Vector3 { x: x_new, y: y_new, z: pin_length };
        let bot_normal = Vector3::from_points(&bot_point_2, &bot_point_1).xy_perp_clockwise();
        proof {
            assert(bot_normal == segment_wall_normal_outward(circle, i as int, pin_radius as int));
        }
        match stl_writer.write_face(&bot_normal, &bot_point_1, &bot_point_2, &bot_point_3) {
            Ok(()) => {},
            Err(e) => {
                proof {
                    lemma_face_error_none(bot_normal, bot_point_1, bot_point_2, bot_point_3, stl_writer.faces_left);
                    assert((Triangle {
                        normal: bot_normal,
                        vertex_a: bot_point_1,
                        vertex_b: bot_point_2,
                        vertex_c: bot_point_3,
                    }) == pin_segment_face(
                        params,
                        circle,
                        pin_radius as int,
                        pin_length as int,
                        i as int,
                        4,
                    ));
                    assert(old(stl_writer).faces_left >= 6 * circle.n_points ==> !triangle_valid(
                        pin_segment_face(
                            params,
                            circle,
                            pin_radius as int,
                            pin_length as int,
                            i as int,
                            4,
                        ),
                    ));
                    assert forall|idx: int| 0 <= idx < base_len implies #[trigger] stl_writer.faces@[idx]
                        == old(stl_writer).faces@[idx] by {
                        assert(stl_writer.faces@[idx] == snap4[idx]);
                        assert(snap4[idx] == snap3[idx]);
                        assert(snap3[idx] == snap2[idx]);
                        assert(snap2[idx] == snap1[idx]);
                        assert(snap1[idx] == before[idx]);
                    }
                }
                return Err(e);
            },
        }
        let ghost snap5 = stl_writer.faces@;
        match stl_writer.write_face(&bot_normal, &bot_point_4, &bot_point_3, &bot_point_2) {
            Ok(()) => {},
            Err(e) => {
                proof {
                    lemma_face_error_none(bot_normal, bot_point_4, bot_point_3, bot_point_2, stl_writer.faces_left);
                    assert((Triangle {
                        normal: bot_normal,
                        vertex_a: bot_point_4,
                        vertex_b: bot_point_3,
                        vertex_c: bot_point_2,
                    }) == pin_segment_face(
                        params,
                        circle,
                        pin_radius as int,
                        pin_length as int,
                        i as int,
                        5,
                    ));
                    assert(old(stl_writer).faces_left >= 6 * circle.n_points ==> !triangle_valid(
                        pin_segment_face(
                            params,
                            circle,
                            pin_radius as int,
                            pin_length as int,
                            i as int,
                            5,
                        ),
                    ));
                    assert forall|idx: int| 0 <= idx < base_len implies #[trigger] stl_writer.faces@[idx]
                        == old(stl_writer).faces@[idx] by {
                        assert(stl_writer.faces@[idx] == snap5[idx]);
                        assert(snap5[idx] == snap4[idx]);
                        assert(snap4[idx] == snap3[idx]);
                        assert(snap3[idx] == snap2[idx]);
                        assert(snap2[idx] == snap1[idx]);
                        assert(snap1[idx] == before[idx]);
                    }
                }
                return Err(e);
            },
        }
        proof {
            let after = stl_writer.faces@;
            let radius = pin_radius as int;
            let pl = pin_length as int;
            assert(before.len() == base_len + 6 * (i - 1));
            assert forall|idx: int| 0 <= idx < base_len implies #[trigger] after[idx] == old(
                stl_writer,
            ).faces@[idx] by {
                assert(after[idx] == before[idx]);
            }
            assert(top_point_1 == ring_point(circle, i - 1, radius, z_max as int));
            assert(top_point_2 == ring_point(circle, i as int, radius, z_max as int));
            assert(top_normal == segment_wall_normal_outward(circle, i as int, radius));
            assert(bot_normal == segment_wall_normal_outward(circle, i as int, radius));
            assert(after[base_len + 6 * (i - 1)] == pin_segment_face(
                params,
                circle,
                radius,
                pl,
                i as int,
                0,
            ));
            assert(after[base_len + 6 * (i - 1) + 1] == pin_segment_face(
                params,
                circle,
                radius,
                pl,
                i as int,
                1,
            ));
            assert(after[base_len + 6 * (i - 1) + 2] == pin_segment_face(
                params,
                circle,
                radius,
                pl,
                i as int,
                2,
            ));
            assert(after[base_len + 6 * (i - 1) + 3] == pin_segment_face(
                params,
                circle,
                radius,
                pl,
                i as int,
                3,
            ));
            assert(after[base_len + 6 * (i - 1) + 4] == pin_segment_face(
                params,
                circle,
                radius,
                pl,
                i as int,
                4,
            ));
            assert(after[base_len + 6 * (i - 1) + 5] == pin_segment_face(
                params,
                circle,
                radius,
                pl,
                i as int,
                5,
            ));
            assert forall|m: int, k: int| 1 <= m <= i as int && 0 <= k < 6 implies after[base_len
                + 6 * (m - 1) + k] == #[trigger] pin_segment_face(
                params,
                circle,
                radius,
                pl,
                m,
                k,
            ) by {
                if m < i {
                    assert(before[base_len + 6 * (m - 1) + k] == pin_segment_face(
                        params,
                        circle,
                        radius,
                        pl,
                        m,
                        k,
                    ));
                    assert(after[base_len + 6 * (m - 1) + k] == before[base_len + 6 * (m - 1)
                        + k]);
                } else {
                    assert(m == i);
                }
            }
            assert(pins_emitted(params, circle, radius, pl, after, base_len, i as int));
        }
        i = i + 1;
    }
    Ok(())
}

/// The outer-ring index where inner segment `i` of the annulus ends: the
/// rounded proportional position `round(i * outer / inner)`, except that
/// the final segment is forced to close exactly at `outer` so rounding
/// drift cannot leave a gap at the seam.
pub open spec fn ring_boundary(i: int, outer: int, inner: int) -> int {
    if i <= 0 {
        0
    } else if i >= inner {
        outer
    } else {
        (2 * (i * outer) + inner) / (2 * inner)
    }
}

/// Consecutive segment boundaries never move backward, and never pass the
/// outer ring's point count.
pub proof fn lemma_ring_boundary_monotonic(i: int, outer: int, inner: int)
    requires
        1 <= i <= inner,
        1 <= outer,
        1 <= inner,
    ensures
        ring_boundary(i - 1, outer, inner) <= ring_boundary(i, outer, inner),
        ring_boundary(i, outer, inner) <= outer,
{
    if i < inner {
        lemma_mul_inequality(i - 1, i, outer);
        lemma_mul_inequality(i, inner - 1, outer);
        lemma_div_pos_is_pos(2 * (i * outer) + inner, 2 * inner);
        lemma_div_is_ordered(
            2 * ((i - 1) * outer) + inner,
            2 * (i * outer) + inner,
            2 * inner,
        );
        assert(2 * ((inner - 1) * outer) + inner < (2 * inner) * (outer + 1)) by (nonlinear_arith)
            requires
                1 <= outer,
                1 <= inner,
        ;
        lemma_multiply_divide_lt(2 * (i * outer) + inner, 2 * inner, outer + 1);
    } else {
        if i - 1 > 0 {
            lemma_mul_inequality(i - 1, inner - 1, outer);
            lemma_div_pos_is_pos(2 * ((i - 1) * outer) + inner, 2 * inner);
            assert(2 * ((inner - 1) * outer) + inner < (2 * inner) * (outer + 1))
                by (nonlinear_arith)
                requires
                    1 <= outer,
                    1 <= inner,
            ;
            lemma_multiply_divide_lt(2 * ((i - 1) * outer) + inner, 2 * inner, outer + 1);
        }
    }
}

/// The boundary-ring radius of the chosen lid row at outer index `m`.
pub open spec fn lid_ring_radius(params: &Parameters, top_row: bool, m: int) -> int {
    if top_row {
        top_ring_radius(params, m)
    } else {
        bot_ring_radius(params, m)
    }
}

/// The annulus polygon of inner segment `s` on one lid plane: the
/// segment's new inner point, the spanned outer-ring points from the
/// segment's end boundary down to its start boundary, then the old inner
/// point — `ring_boundary(s) - ring_boundary(s - 1) + 3` vertices.
pub open spec fn segment_polygon(
    params: &Parameters,
    big_circle: &CircleConverter,
    small_circle: &CircleConverter,
    inner_radius: int,
    z: int,
    top_row: bool,
    s: int,
) -> Seq<Vector3> {
    let n_start = ring_boundary(s - 1, big_circle.n_points as int, small_circle.n_points as int);
    let n_end = ring_boundary(s, big_circle.n_points as int, small_circle.n_points as int);
    seq![ring_point(small_circle, s, inner_radius, z)] + Seq::new(
        (n_end - n_start + 1) as nat,
        |t: int| ring_point(big_circle, n_end - t, lid_ring_radius(params, top_row, n_end - t), z),
    ) + seq![ring_point(small_circle, s - 1, inner_radius, z)]
}

/// Where inner segment `s`'s faces start within the stitched-lids block.
pub open spec fn segment_offset(outer: int, inner: int, s: int) -> int {
    2 * (ring_boundary(s - 1, outer, inner) + (s - 1))
}

/// How many faces each of segment `s`'s two polygons contributes.
pub open spec fn segment_face_count(outer: int, inner: int, s: int) -> int {
    ring_boundary(s, outer, inner) - ring_boundary(s - 1, outer, inner) + 1
}

/// Each inner segment's stitched faces: at the segment's offset, the clip
/// faces of its top polygon, then those of its bottom polygon.
pub open spec fn stitched_lids_emitted(
    params: &Parameters,
    big_circle: &CircleConverter,
    small_circle: &CircleConverter,
    inner_radius: int,
    z_shift: int,
    faces: Seq<Triangle>,
    base: int,
    count: int,
) -> bool {
    let outer = big_circle.n_points as int;
    let inner = small_circle.n_points as int;
    &&& forall|s: int|
        1 <= s <= count ==> base + #[trigger] segment_offset(outer, inner, s) + 2
            * segment_face_count(outer, inner, s) <= faces.len()
    &&& forall|s: int, u: int|
        1 <= s <= count && 0 <= u < segment_face_count(outer, inner, s) ==> faces[base
            + segment_offset(outer, inner, s) + u] == #[trigger] clip_faces(
            segment_polygon(
                params,
                big_circle,
                small_circle,
                inner_radius,
                z_shift + params.roller_length,
                true,
                s,
            ),
            true,
        )[u]
    &&& forall|s: int, u: int|
        1 <= s <= count && 0 <= u < segment_face_count(outer, inner, s) ==> faces[base
            + segment_offset(outer, inner, s) + segment_face_count(outer, inner, s) + u]
            == #[trigger] clip_faces(
            segment_polygon(params, big_circle, small_circle, inner_radius, z_shift, false, s),
            false,
        )[u]
}

/// Every segment polygon clips to completion and its faces validate.
pub open spec fn stitch_runs_clean(
    params: &Parameters,
    big_circle: &CircleConverter,
    small_circle: &CircleConverter,
    inner_radius: int,
    z_shift: int,
) -> bool {
    forall|s: int|
        #![trigger segment_polygon(params, big_circle, small_circle, inner_radius, z_shift + params.roller_length, true, s)]
        #![trigger segment_polygon(params, big_circle, small_circle, inner_radius, z_shift, false, s)]
        1 <= s <= small_circle.n_points ==> {
            let top = segment_polygon(
                params,
                big_circle,
                small_circle,
                inner_radius,
                z_shift + params.roller_length,
                true,
                s,
            );
            let bot = segment_polygon(
                params,
                big_circle,
                small_circle,
                inner_radius,
                z_shift,
                false,
                s,
            );
            &&& clip_succeeds(top)
            &&& clip_faces_valid(top, true)
            &&& clip_succeeds(bot)
            &&& clip_faces_valid(bot, false)
        }
}

/// Segment boundaries never decrease.
pub proof fn lemma_ring_boundary_le(a: int, b: int, outer: int, inner: int)
    requires
        0 <= a <= b <= inner,
        1 <= outer,
        1 <= inner,
    ensures
        ring_boundary(a, outer, inner) <= ring_boundary(b, outer, inner),
    decreases b - a,
{
    if a < b {
        lemma_ring_boundary_monotonic(b, outer, inner);
        lemma_ring_boundary_le(a, b - 1, outer, inner);
    }
}

/// Stitch the top and bottom annulus between the inner ring (pin footprint
/// or bore) and the outer body ring. Each inner segment spans the outer
/// indices between consecutive `ring_boundary` values; the bridging
/// polygon is triangulated by ear clipping, so every segment emits one
/// triangle per spanned outer step plus one, and the two lids together
/// emit `2 * (outer + inner)` faces on success — exactly the clip faces
/// of each `segment_polygon`, per `stitched_lids_emitted`. Success is
/// owed whenever every segment polygon clips cleanly and the budget
/// covers the block; on failure the already-collected faces remain in
/// the sink untouched.
#[verifier::rlimit(100)]
pub fn make_lids_holed(
    stl_writer: &mut STLFileWriter,
    params: &Parameters,
    big_circle: &CircleConverter,
    small_circle: &CircleConverter,
    inner_diameter: i64,
    z_shift: i64,
) -> (r: Result<(), RollerError>)
    requires
        old(stl_writer).wf(),
        params.wf(),
        big_circle.wf(),
        small_circle.wf(),
        big_circle.n_points == params.image_width * params.stack_horizontal,
        2 <= inner_diameter <= DIM_LIMIT,
        0 <= z_shift <= DIM_LIMIT,
    ensures
        final(stl_writer).wf(),
        r is Ok ==> final(stl_writer).faces@.len() == old(stl_writer).faces@.len() + 2 * (
        big_circle.n_points + small_circle.n_points) && final(stl_writer).faces_left == old(
            stl_writer,
        ).faces_left - 2 * (big_circle.n_points + small_circle.n_points),
        r is Ok ==> stitched_lids_emitted(
            params,
            big_circle,
            small_circle,
            inner_diameter as int / 2,
            z_shift as int,
            final(stl_writer).faces@,
            old(stl_writer).faces@.len() as int,
            small_circle.n_points as int,
        ),
        old(stl_writer).faces_left >= 2 * (big_circle.n_points + small_circle.n_points)
            && stitch_runs_clean(
            params,
            big_circle,
            small_circle,
            inner_diameter as int / 2,
            z_shift as int,
        ) ==> r is Ok,
        final(stl_writer).faces@.len() >= old(stl_writer).faces@.len(),
        forall|idx: int|
            0 <= idx < old(stl_writer).faces@.len() ==> #[trigger] final(stl_writer).faces@[idx]
                == old(stl_writer).faces@[idx],
{
    let radii_top = params.get_image_topline();
    let radii_bot = params.get_image_botline();
    proof {
        lemma_mul_inequality(1, params.image_height as int, params.image_width as int);
        lemma_mul_is_commutative(params.image_height as int, params.image_width as int);
        assert(radii_top@.len() == params.image_width as int);
        assert(radii_bot@.len() == params.image_width as int);
    }
    let z_top: i64 = z_shift + params.roller_length;
    let z_bot: i64 = z_shift;
    let inner_radius: i64 = ((inner_diameter as u64) / 2) as i64;
    let outer_n: usize = big_circle.n_points;
    let inner_n: usize = small_circle.n_points;
    let width: usize = params.image_width as usize;
    let ghost base_len = old(stl_writer).faces@.len() as int;
    let ghost base_left = old(stl_writer).faces_left as int;
    let (mut x_new, mut y_new) = small_circle.get_xy(0, inner_radius);
    let mut n_end: usize = 0;
    let mut i: usize = 1;
    while i <= inner_n
        invariant
            stl_writer.wf(),
            1 <= i <= inner_n + 1,
            n_end as int == ring_boundary(i as int - 1, outer_n as int, inner_n as int),
            n_end <= outer_n,
            stl_writer.faces@.len() == base_len + 2 * ((n_end as int) + (i - 1)),
            stl_writer.faces_left == base_left - 2 * ((n_end as int) + (i - 1)),
            -COORD_LIMIT <= x_new <= COORD_LIMIT,
            -COORD_LIMIT <= y_new <= COORD_LIMIT,
            x_new as int == small_circle.sample_x(i as int - 1, inner_radius as int),
            y_new as int == small_circle.sample_y(i as int - 1, inner_radius as int),
            stitched_lids_emitted(
                params,
                big_circle,
                small_circle,
                inner_radius as int,
                z_shift as int,
                stl_writer.faces@,
                base_len,
                i as int - 1,
            ),
            forall|idx: int|
                0 <= idx < base_len ==> #[trigger] stl_writer.faces@[idx] == old(
                    stl_writer,
                ).faces@[idx],
        decreases inner_n + 1 - i,
    {
        let ghost loop_faces = stl_writer.faces@;
        let x_old = x_new;
        let y_old = y_new;
        let sample = small_circle.get_xy(i, inner_radius);
        x_new = sample.0;
        y_new = sample.1;
        let n_start: usize = n_end;
        proof {
            lemma_mul_abs_bound(i as int, outer_n as int, 0x10_0000, 0x10_0000);
            lemma_ring_boundary_monotonic(i as int, outer_n as int, inner_n as int);
        }
        if i != inner_n {
            let numerator: u64 = 2 * ((i as u64) * (outer_n as u64)) + (inner_n as u64);
            n_end = (numerator / (2 * (inner_n as u64))) as usize;
        } else {
            n_end = outer_n;
        }
        let segment: usize = n_end - n_start;
        let ghost lid_base = stl_writer.faces@.len() as int;
        let ghost seg_top = segment_polygon(
            params,
            big_circle,
            small_circle,
            inner_radius as int,
            z_top as int,
            true,
            i as int,
        );
        let ghost seg_bot = segment_polygon(
            params,
            big_circle,
            small_circle,
            inner_radius as int,
            z_bot as int,
            false,
            i as int,
        );
        proof {
            assert(seg_top.len() == segment + 3);
            assert(seg_bot.len() == segment + 3);
        }
        let mut top_polygon: Vec<Vector3> = Vec::new();
        top_polygon.push(Vector3 { x: x_new, y: y_new, z: z_top });
        proof {
            assert(seg_top[0] == ring_point(
                small_circle,
                i as int,
                inner_radius as int,
                z_top as int,
            ));
            assert(top_polygon@ =~= seg_top.take(1));
        }
        let mut t: usize = 0;
        while t <= segment
            invariant
                0 <= t <= segment + 1,
                top_polygon@.len() == 1 + t,
                top_polygon@ == seg_top.take(1 + t),
                forall|k: int|
                    0 <= k < top_polygon@.len() ==> vec_in_bounds(
                        #[trigger] top_polygon@[k],
                        COORD_LIMIT as int,
                    ),
            decreases segment + 1 - t,
        {
            let ring_index: usize = n_end - t;
            let radius_index: usize = ring_index % width;
            proof {
                assert(radii_top@[radius_index as int] == params.radii_vector@[radius_index
                    as int]);
                assert(seg_top[1 + t] == ring_point(
                    big_circle,
                    ring_index as int,
                    top_ring_radius(params, ring_index as int),
                    z_top as int,
                ));
            }
            top_polygon.push(big_circle.get_vector3(ring_index, radii_top[radius_index], z_top));
            proof {
                assert(top_polygon@ =~= seg_top.take(1 + t + 1));
            }
            t = t + 1;
        }
        top_polygon.push(Vector3 { x: x_old, y: y_old, z: z_top });
        proof {
            assert(seg_top[segment + 2] == ring_point(
                small_circle,
                i as int - 1,
                inner_radius as int,
                z_top as int,
            ));
            assert(top_polygon@ =~= seg_top);
        }
        let ghost faces_before_top = stl_writer.faces@;
        match fill_polygon_by_ear_trimming(stl_writer, top_polygon, true) {
            Ok(()) => {},
            Err(e) => {
                proof {
                    if base_left >= 2 * ((outer_n as int) + (inner_n as int)) && stitch_runs_clean(
                        params,
                        big_circle,
                        small_circle,
                        inner_radius as int,
                        z_shift as int,
                    ) {
                        assert(clip_succeeds(seg_top) && clip_faces_valid(seg_top, true));
                        lemma_clip_faces_count(seg_top, true);
                        assert(false);
                    }
                    assert forall|idx: int| 0 <= idx < base_len implies #[trigger] stl_writer.faces@[idx]
                        == old(stl_writer).faces@[idx] by {
                        assert(stl_writer.faces@[idx] == faces_before_top[idx]);
                    }
                }
                return Err(e);
            },
        }
        let ghost mid_faces = stl_writer.faces@;
        proof {
            assert forall|idx: int| 0 <= idx < base_len implies #[trigger] stl_writer.faces@[idx]
                == old(stl_writer).faces@[idx] by {
                assert(stl_writer.faces@[idx] == faces_before_top[idx]);
            }
        }
        let mut bot_polygon: Vec<Vector3> = Vec::new();
        bot_polygon.push(Vector3 { x: x_new, y: y_new, z: z_bot });
        proof {
            assert(seg_bot[0] == ring_point(
                small_circle,
                i as int,
                inner_radius as int,
                z_bot as int,
            ));
            assert(bot_polygon@ =~= seg_bot.take(1));
        }
        let mut t: usize = 0;
        while t <= segment
            invariant
                0 <= t <= segment + 1,
                bot_polygon@.len() == 1 + t,
                bot_polygon@ == seg_bot.take(1 + t),
                forall|k: int|
                    0 <= k < bot_polygon@.len() ==> vec_in_bounds(
                        #[trigger] bot_polygon@[k],
                        COORD_LIMIT as int,
                    ),
            decreases segment + 1 - t,
        {
            let ring_index: usize = n_end - t;
            let radius_index: usize = ring_index % width;
            proof {
                assert(radii_bot@[radius_index as int] == params.radii_vector@[
                params.radii_vector@.len() - params.image_width + radius_index]);
                assert(seg_bot[1 + t] == ring_point(
                    big_circle,
                    ring_index as int,
                    bot_ring_radius(params, ring_index as int),
                    z_bot as int,
                ));
            }
            bot_polygon.push(big_circle.get_vector3(ring_index, radii_bot[radius_index], z_bot));
            proof {
                assert(bot_polygon@ =~= seg_bot.take(1 + t + 1));
            }
            t = t + 1;
        }
        bot_polygon.push(Vector3 { x: x_old, y: y_old, z: z_bot });
        proof {
            assert(seg_bot[segment + 2] == ring_point(
                small_circle,
                i as int - 1,
                inner_radius as int,
                z_bot as int,
            ));
            assert(bot_polygon@ =~= seg_bot);
        }
        match fill_polygon_by_ear_trimming(stl_writer, bot_polygon, false) {
            Ok(()) => {},
            Err(e) => {
                proof {
                    if base_left >= 2 * ((outer_n as int) + (inner_n as int)) && stitch_runs_clean(
                        params,
                        big_circle,
                        small_circle,
                        inner_radius as int,
                        z_shift as int,
                    ) {
                        assert(clip_succeeds(seg_bot) && clip_faces_valid(seg_bot, false));
                        lemma_clip_faces_count(seg_bot, false);
                        assert(false);
                    }
                    assert forall|idx: int| 0 <= idx < base_len implies #[trigger] stl_writer.faces@[idx]
                        == old(stl_writer).faces@[idx] by {
                        assert(stl_writer.faces@[idx] == mid_faces[idx]);
                        assert(mid_faces[idx] == faces_before_top[idx]);
                    }
                }
                return Err(e);
            },
        }
        proof {
            let outer = outer_n as int;
            let inner = inner_n as int;
            let ii = i as int;
            let now = stl_writer.faces@;
            let top_clip = clip_faces(seg_top, true);
            let bot_clip = clip_faces(seg_bot, false);
            let segf = segment_face_count(outer, inner, ii);
            assert(segf == segment as int + 1);
            assert(segment_offset(outer, inner, ii) == 2 * ((n_start as int) + (ii - 1)));
            let lo = base_len + segment_offset(outer, inner, ii);
            assert(lo == lid_base);
            assert(loop_faces.len() == lid_base);
            assert(mid_faces == loop_faces + top_clip);
            assert(now == mid_faces + bot_clip);
            assert(top_clip.len() == segf);
            assert(bot_clip.len() == segf);
            assert forall|u: int| 0 <= u < segf implies now[lo + u] == top_clip[u] by {
                assert(now[lo + u] == mid_faces[lo + u]);
                assert(mid_faces[lo + u] == top_clip[u]);
            }
            assert forall|u: int| 0 <= u < segf implies now[lo + segf + u] == bot_clip[u] by {
                assert(now[lo + segf + u] == bot_clip[u]);
            }
            assert forall|ss: int|
                1 <= ss <= ii implies base_len + #[trigger] segment_offset(outer, inner, ss) + 2
                * segment_face_count(outer, inner, ss) <= now.len() by {
                if ss < ii {
                    assert(base_len + segment_offset(outer, inner, ss) + 2 * segment_face_count(
                        outer,
                        inner,
                        ss,
                    ) <= loop_faces.len());
                }
            }
            assert forall|ss: int, u: int|
                1 <= ss <= ii && 0 <= u < segment_face_count(outer, inner, ss) implies now[base_len
                + segment_offset(outer, inner, ss) + u] == #[trigger] clip_faces(
                segment_polygon(
                    params,
                    big_circle,
                    small_circle,
                    inner_radius as int,
                    z_shift + params.roller_length,
                    true,
                    ss,
                ),
                true,
            )[u] by {
                if ss < ii {
                    lemma_ring_boundary_monotonic(ss, outer, inner);
                    assert(loop_faces[base_len + segment_offset(outer, inner, ss) + u]
                        == clip_faces(
                        segment_polygon(
                            params,
                            big_circle,
                            small_circle,
                            inner_radius as int,
                            z_shift + params.roller_length,
                            true,
                            ss,
                        ),
                        true,
                    )[u]);
                    assert(base_len + segment_offset(outer, inner, ss) + 2 * segment_face_count(
                        outer,
                        inner,
                        ss,
                    ) <= loop_faces.len());
                    let idx = base_len + segment_offset(outer, inner, ss) + u;
                    assert(mid_faces[idx] == loop_faces[idx]);
                    assert(now[idx] == mid_faces[idx]);
                } else {
                    assert(segment_polygon(
                        params,
                        big_circle,
                        small_circle,
                        inner_radius as int,
                        z_shift + params.roller_length,
                        true,
                        ss,
                    ) == seg_top);
                    assert(now[lo + u] == top_clip[u]);
                }
            }
            assert forall|ss: int, u: int|
                1 <= ss <= ii && 0 <= u < segment_face_count(outer, inner, ss) implies now[base_len
                + segment_offset(outer, inner, ss) + segment_face_count(outer, inner, ss) + u]
                == #[trigger] clip_faces(
                segment_polygon(
                    params,
                    big_circle,
                    small_circle,
                    inner_radius as int,
                    z_shift as int,
                    false,
                    ss,
                ),
                false,
            )[u] by {
                if ss < ii {
                    lemma_ring_boundary_monotonic(ss, outer, inner);
                    assert(loop_faces[base_len + segment_offset(outer, inner, ss)
                        + segment_face_count(outer, inner, ss) + u] == clip_faces(
                        segment_polygon(
                            params,
                            big_circle,
                            small_circle,
                            inner_radius as int,
                            z_shift as int,
                            false,
                            ss,
                        ),
                        false,
                    )[u]);
                    assert(base_len + segment_offset(outer, inner, ss) + 2 * segment_face_count(
                        outer,
                        inner,
                        ss,
                    ) <= loop_faces.len());
                    let idx = base_len + segment_offset(outer, inner, ss) + segment_face_count(
                        outer,
                        inner,
                        ss,
                    ) + u;
                    assert(mid_faces[idx] == loop_faces[idx]);
                    assert(now[idx] == mid_faces[idx]);
                } else {
                    assert(segment_polygon(
                        params,
                        big_circle,
                        small_circle,
                        inner_radius as int,
                        z_shift as int,
                        false,
                        ss,
                    ) == seg_bot);
                    assert(now[lo + segf + u] == bot_clip[u]);
                }
            }
            assert(stitched_lids_emitted(
                params,
                big_circle,
                small_circle,
                inner_radius as int,
                z_shift as int,
                now,
                base_len,
                ii,
            ));
        }
        i = i + 1;
    }
    proof {
        assert(inner_radius as int == inner_diameter as int / 2);
    }
    Ok(())
}

/// Every face of the whole pass can be emitted: the body cells, and the
/// end geometry of the selected kind — including, for stitched ends, that
/// every annulus polygon clips to completion.
pub open spec fn generation_emittable(
    params: &Parameters,
    big_circle: &CircleConverter,
    small_circle: Option<&CircleConverter>,
) -> bool {
    &&& body_cells_emittable(params, big_circle)
    &&& match params.roller_end {
        RollerEnd::Flat => solid_lids_faces_valid(params, big_circle),
        RollerEnd::Pin { pin_diameter, pin_length, .. } => small_circle matches Some(c)
            && pin_faces_valid(params, c, pin_diameter as int / 2, pin_length as int)
            && stitch_runs_clean(
            params,
            big_circle,
            c,
            pin_diameter as int / 2,
            pin_length as int,
        ),
        RollerEnd::Channel { channel_diameter, .. } => small_circle matches Some(c)
            && channel_wall_faces_valid(params, c, channel_diameter as int / 2)
            && stitch_runs_clean(params, big_circle, c, channel_diameter as int / 2, 0),
    }
}

/// Run one whole generation pass: the lateral body surface, then the end
/// caps of the selected kind, closing the sink at the end. On success the
/// returned faces are all valid and number exactly `faces_count_spec` —
/// the emission provably matches the advertised face-count formula — the
/// body block is exactly `body_cells_emitted`, and the end block exactly
/// the selected end kind's faces. Success is owed whenever every face of
/// the pass is emittable (`generation_emittable`).
pub fn make_pattern_roller(
    params: &Parameters,
    stl_writer: STLFileWriter,
    big_circle: &CircleConverter,
    small_circle: Option<&CircleConverter>,
) -> (r: Result<Vec<Triangle>, RollerError>)
    requires
        params.wf(),
        stl_writer.wf(),
        stl_writer.faces@.len() == 0,
        stl_writer.faces_left == params.faces_count_spec(),
        big_circle.wf(),
        big_circle.n_points == params.image_width * params.stack_horizontal,
        match params.roller_end {
            RollerEnd::Flat => small_circle is None,
            RollerEnd::Pin { circle_points, .. } => small_circle matches Some(c) && c.wf()
                && c.n_points == circle_points,
            RollerEnd::Channel { circle_points, .. } => small_circle matches Some(c) && c.wf()
                && c.n_points == circle_points,
        },
    ensures
        generation_emittable(params, big_circle, small_circle) ==> r is Ok,
        match r {
            Ok(faces) => {
                &&& faces@.len() == params.faces_count_spec()
                &&& forall|k: int|
                    0 <= k < faces@.len() ==> crate::stl::triangle_valid(#[trigger] faces@[k])
                &&& forall|k: int|
                    0 <= k < params.body_faces_spec() ==> crate::stl::auto_normal_face(
                        #[trigger] faces@[k],
                    )
                &&& body_cells_emitted(params, big_circle, faces@, 0)
                &&& match params.roller_end {
                    RollerEnd::Flat => solid_lids_emitted(
                        params,
                        big_circle,
                        faces@,
                        params.body_faces_spec(),
                        big_circle.n_points as int,
                    ),
                    RollerEnd::Pin { pin_diameter, pin_length, circle_points } => small_circle
                        matches Some(c) && pins_emitted(
                        params,
                        c,
                        pin_diameter as int / 2,
                        pin_length as int,
                        faces@,
                        params.body_faces_spec(),
                        circle_points as int,
                    ) && stitched_lids_emitted(
                        params,
                        big_circle,
                        c,
                        pin_diameter as int / 2,
                        pin_length as int,
                        faces@,
                        params.body_faces_spec() + 6 * circle_points,
                        circle_points as int,
                    ),
                    RollerEnd::Channel { channel_diameter, circle_points } => small_circle
                        matches Some(c) && channel_walls_emitted(
                        params,
                        c,
                        channel_diameter as int / 2,
                        faces@,
                        params.body_faces_spec(),
                        circle_points as int,
                    ) && stitched_lids_emitted(
                        params,
                        big_circle,
                        c,
                        channel_diameter as int / 2,
                        0,
                        faces@,
                        params.body_faces_spec() + 2 * circle_points,
                        circle_points as int,
                    ),
                }
            },
            Err(_) => true,
        },
{
    let mut writer = stl_writer;
    proof {
        lemma_mul_nonnegative(params.image_width as int, params.stack_horizontal as int);
    }
    match make_cylinder_patterned(&mut writer, params, big_circle) {
        Ok(()) => {},
        Err(e) => {
            proof {
                assert(stl_writer.faces_left >= params.body_faces_spec());
            }
            return Err(e);
        },
    }
    let ghost faces_after_body = writer.faces@;
    match params.roller_end {
        RollerEnd::Flat => {
            match make_lids_solid(&mut writer, params, big_circle) {
                Ok(()) => {},
                Err(e) => {
                    return Err(e);
                },
            }
            proof {
                assert forall|k: int|
                    0 <= k < params.body_faces_spec() implies crate::stl::auto_normal_face(
                    #[trigger] writer.faces@[k],
                ) by {
                    assert(writer.faces@[k] == faces_after_body[k]);
                    assert(crate::stl::auto_normal_face(faces_after_body[k]));
                }
            }
            proof {
                assert forall|ci: int, cj: int, cp: int, cq: int, k: int|
                    #![trigger body_face_position(params, ci, cj, cp, cq, k)]
                    #![trigger body_cell_face(params, big_circle, ci, cj, cp, cq, k)]
                    0 <= ci && 0 <= cj < params.image_height && 0 <= cp
                    < params.stack_horizontal && 0 <= cq < params.stack_vertical && 0 <= k < 2
                    && !(cj == params.image_height - 1 && cq == params.stack_vertical - 1)
                    && cell_before(ci, cj, cp, cq, params.image_width as int, 0, 0, 0) implies 0 + body_face_position(params, ci, cj, cp, cq, k)
                    < writer.faces@.len() && writer.faces@[0 + body_face_position(
                    params,
                    ci,
                    cj,
                    cp,
                    cq,
                    k,
                )] == body_cell_face(params, big_circle, ci, cj, cp, cq, k) by {
                    assert(faces_after_body[0 + body_face_position(params, ci, cj, cp, cq, k)]
                        == body_cell_face(params, big_circle, ci, cj, cp, cq, k));
                    assert(0 + body_face_position(params, ci, cj, cp, cq, k)
                        < faces_after_body.len());
                    assert(writer.faces@[0 + body_face_position(params, ci, cj, cp, cq, k)]
                        == faces_after_body[0 + body_face_position(params, ci, cj, cp, cq, k)]);
                }
                assert(body_cells_emitted(params, big_circle, writer.faces@, 0));
            }
        },
        RollerEnd::Pin { pin_diameter, pin_length, .. } => {
            let small = match small_circle {
                Some(c) => c,
                None => unreached(),
            };
            match make_pins(&mut writer, params, small, pin_diameter, pin_length) {
                Ok(()) => {},
                Err(e) => {
                    return Err(e);
                },
            }
            let ghost faces_after_pins = writer.faces@;
            match make_lids_holed(&mut writer, params, big_circle, small, pin_diameter, pin_length)
            {
                Ok(()) => {},
                Err(e) => {
                    return Err(e);
                },
            }
            proof {
                let radius = pin_diameter as int / 2;
                let pl = pin_length as int;
                let base = params.body_faces_spec();
                assert forall|m: int, k: int|
                    1 <= m <= small.n_points as int && 0 <= k < 6 implies writer.faces@[base + 6 * (
                m - 1) + k] == #[trigger] pin_segment_face(params, small, radius, pl, m, k) by {
                    assert(writer.faces@[base + 6 * (m - 1) + k] == faces_after_pins[base + 6 * (m
                        - 1) + k]);
                }
                assert(pins_emitted(
                    params,
                    small,
                    radius,
                    pl,
                    writer.faces@,
                    base,
                    small.n_points as int,
                ));
                assert forall|k: int|
                    0 <= k < params.body_faces_spec() implies crate::stl::auto_normal_face(
                    #[trigger] writer.faces@[k],
                ) by {
                    assert(writer.faces@[k] == faces_after_pins[k]);
                    assert(faces_after_pins[k] == faces_after_body[k]);
                    assert(crate::stl::auto_normal_face(faces_after_body[k]));
                }
            }
            proof {
                assert forall|ci: int, cj: int, cp: int, cq: int, k: int|
                    #![trigger body_face_position(params, ci, cj, cp, cq, k)]
                    #![trigger body_cell_face(params, big_circle, ci, cj, cp, cq, k)]
                    0 <= ci && 0 <= cj < params.image_height && 0 <= cp
                    < params.stack_horizontal && 0 <= cq < params.stack_vertical && 0 <= k < 2
                    && !(cj == params.image_height - 1 && cq == params.stack_vertical - 1)
                    && cell_before(ci, cj, cp, cq, params.image_width as int, 0, 0, 0) implies 0 + body_face_position(params, ci, cj, cp, cq, k)
                    < writer.faces@.len() && writer.faces@[0 + body_face_position(
                    params,
                    ci,
                    cj,
                    cp,
                    cq,
                    k,
                )] == body_cell_face(params, big_circle, ci, cj, cp, cq, k) by {
                    assert(faces_after_body[0 + body_face_position(params, ci, cj, cp, cq, k)]
                        == body_cell_face(params, big_circle, ci, cj, cp, cq, k));
                    assert(0 + body_face_position(params, ci, cj, cp, cq, k)
                        < faces_after_body.len());
                    assert(writer.faces@[0 + body_face_position(params, ci, cj, cp, cq, k)]
                        == faces_after_pins[0 + body_face_position(params, ci, cj, cp, cq, k)]);
                    assert(faces_after_pins[0 + body_face_position(params, ci, cj, cp, cq, k)]
                        == faces_after_body[0 + body_face_position(params, ci, cj, cp, cq, k)]);
                }
                assert(body_cells_emitted(params, big_circle, writer.faces@, 0));
            }
        },
        RollerEnd::Channel { channel_diameter, .. } => {
            let small = match small_circle {
                Some(c) => c,
                None => unreached(),
            };
            match make_channel(&mut writer, params, small, channel_diameter) {
                Ok(()) => {},
                Err(e) => {
                    return Err(e);
                },
            }
            let ghost faces_after_walls = writer.faces@;
            match make_lids_holed(&mut writer, params, big_circle, small, channel_diameter, 0) {
                Ok(()) => {},
                Err(e) => {
                    return Err(e);
                },
            }
            proof {
                let radius = channel_diameter as int / 2;
                let base = params.body_faces_spec();
                assert forall|m: int|
                    #![trigger channel_wall_face_a(params, small, radius, m)]
                    #![trigger channel_wall_face_b(params, small, radius, m)]
                    1 <= m <= small.n_points as int implies writer.faces@[base + 2 * (m - 1)]
                    == channel_wall_face_a(params, small, radius, m) && writer.faces@[base + 2 * (m
                    - 1) + 1] == channel_wall_face_b(params, small, radius, m) by {
                    assert(writer.faces@[base + 2 * (m - 1)] == faces_after_walls[base + 2 * (m
                        - 1)]);
                    assert(writer.faces@[base + 2 * (m - 1) + 1] == faces_after_walls[base + 2 * (m
                        - 1) + 1]);
                }
                assert(channel_walls_emitted(
                    params,
                    small,
                    radius,
                    writer.faces@,
                    base,
                    small.n_points as int,
                ));
                assert forall|k: int|
                    0 <= k < params.body_faces_spec() implies crate::stl::auto_normal_face(
                    #[trigger] writer.faces@[k],
                ) by {
                    assert(writer.faces@[k] == faces_after_walls[k]);
                    assert(faces_after_walls[k] == faces_after_body[k]);
                    assert(crate::stl::auto_normal_face(faces_after_body[k]));
                }
            }
            proof {
                assert forall|ci: int, cj: int, cp: int, cq: int, k: int|
                    #![trigger body_face_position(params, ci, cj, cp, cq, k)]
                    #![trigger body_cell_face(params, big_circle, ci, cj, cp, cq, k)]
                    0 <= ci && 0 <= cj < params.image_height && 0 <= cp
                    < params.stack_horizontal && 0 <= cq < params.stack_vertical && 0 <= k < 2
                    && !(cj == params.image_height - 1 && cq == params.stack_vertical - 1)
                    && cell_before(ci, cj, cp, cq, params.image_width as int, 0, 0, 0) implies 0 + body_face_position(params, ci, cj, cp, cq, k)
                    < writer.faces@.len() && writer.faces@[0 + body_face_position(
                    params,
                    ci,
                    cj,
                    cp,
                    cq,
                    k,
                )] == body_cell_face(params, big_circle, ci, cj, cp, cq, k) by {
                    assert(faces_after_body[0 + body_face_position(params, ci, cj, cp, cq, k)]
                        == body_cell_face(params, big_circle, ci, cj, cp, cq, k));
                    assert(0 + body_face_position(params, ci, cj, cp, cq, k)
                        < faces_after_body.len());
                    assert(writer.faces@[0 + body_face_position(params, ci, cj, cp, cq, k)]
                        == faces_after_walls[0 + body_face_position(params, ci, cj, cp, cq, k)]);
                    assert(faces_after_walls[0 + body_face_position(params, ci, cj, cp, cq, k)]
                        == faces_after_body[0 + body_face_position(params, ci, cj, cp, cq, k)]);
                }
                assert(body_cells_emitted(params, big_circle, writer.faces@, 0));
            }
        },
    }
    writer.finish()
}

} // verus!
