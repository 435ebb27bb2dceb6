//! Ear-clipping triangulation of the irregular polygons that bridge an
//! inner ring (pin or bore) to the outer body ring. The polygon is given
//! as a vertex chain in a horizontal plane; interior vertices are clipped
//! one ear at a time until fewer than three vertices remain, so a chain of
//! `k >= 3` vertices always emits exactly `k - 2` triangles when it
//! succeeds.
//!
//! The clipping run is deterministic, and `clip_faces` is its spec-level
//! model: each step removes the interior ear of highest index (the scan
//! runs in reverse) and emits one triangle, and the chain's two endpoints
//! are never removed. The executable triangulator emits exactly that face
//! sequence, succeeds exactly when the model never reaches a no-ear state
//! (given budget and face validity), and leaves already-collected faces in
//! the sink whatever happens.

use crate::fixed::{lemma_mul_abs_bound, COORD_LIMIT, UNIT};
use crate::stl::{lemma_face_error_none, triangle_valid, STLFileWriter, Triangle};
use crate::vectors::{vec_in_bounds, Vector3};
use crate::RollerError;
use vstd::prelude::*;

verus! {

/// The signed ear test for the chain `left, middle, right`: positive
/// exactly when the clockwise in-plane perpendicular of the base
/// `left -> right` points toward `middle`, i.e. when the three vertices
/// make a left turn and `middle` is a candidate ear tip.
pub open spec fn ear_score(left: Vector3, middle: Vector3, right: Vector3) -> int {
    (right.x - left.x) * (middle.y - left.y) - (right.y - left.y) * (middle.x - left.x)
}

/// The highest index in `1..=k` whose vertex passes the ear test, or `0`
/// when none does: the vertex one clipping step removes from a chain
/// whose last interior index is `k`.
pub open spec fn highest_ear_index(points: Seq<Vector3>, k: int) -> int
    decreases k,
{
    if k < 1 {
        0
    } else if ear_score(points[k - 1], points[k], points[k + 1]) > 0 {
        k
    } else {
        highest_ear_index(points, k - 1)
    }
}

/// The face one clipping step emits for the ear at index `ear`: the base
/// runs from the ear's left to its right neighbor, wound for the upward
/// or downward lid normal.
pub open spec fn clip_face(points: Seq<Vector3>, ear: int, normal_up: bool) -> Triangle {
    if normal_up {
        Triangle {
            normal: Vector3 { x: 0i64, y: 0i64, z: UNIT },
            vertex_a: points[ear - 1],
            vertex_b: points[ear + 1],
            vertex_c: points[ear],
        }
    } else {
        Triangle {
            normal: Vector3 { x: 0i64, y: 0i64, z: (-UNIT) as i64 },
            vertex_a: points[ear],
            vertex_b: points[ear + 1],
            vertex_c: points[ear - 1],
        }
    }
}

/// The face sequence the deterministic clipping run emits: one face per
/// removed ear, until fewer than three vertices remain or no interior
/// vertex passes the ear test (the run then stops short).
pub open spec fn clip_faces(points: Seq<Vector3>, normal_up: bool) -> Seq<Triangle>
    decreases points.len(),
{
    if points.len() < 3 {
        Seq::empty()
    } else {
        let ear = highest_ear_index(points, points.len() - 2);
        if 1 <= ear <= points.len() - 2 {
            seq![clip_face(points, ear, normal_up)] + clip_faces(points.remove(ear), normal_up)
        } else {
            Seq::empty()
        }
    }
}

/// Whether the clipping run reduces the chain all the way down to two
/// vertices: every intermediate chain of three or more vertices has an
/// interior ear.
pub open spec fn clip_succeeds(points: Seq<Vector3>) -> bool
    decreases points.len(),
{
    if points.len() < 3 {
        true
    } else {
        let ear = highest_ear_index(points, points.len() - 2);
        &&& 1 <= ear <= points.len() - 2
        &&& clip_succeeds(points.remove(ear))
    }
}

/// Every face of the clipping run passes the sink's validation.
pub open spec fn clip_faces_valid(points: Seq<Vector3>, normal_up: bool) -> bool {
    forall|t: int|
        0 <= t < clip_faces(points, normal_up).len() ==> triangle_valid(
            #[trigger] clip_faces(points, normal_up)[t],
        )
}

/// A clipping run that finishes emits one face per removed vertex:
/// `k - 2` faces for a chain of `k >= 3`.
pub proof fn lemma_clip_faces_count(points: Seq<Vector3>, normal_up: bool)
    requires
        clip_succeeds(points),
    ensures
        clip_faces(points, normal_up).len() == if points.len() >= 3 {
            points.len() - 2
        } else {
            0int
        },
    decreases points.len(),
{
    if points.len() >= 3 {
        let ear = highest_ear_index(points, points.len() - 2);
        lemma_clip_faces_count(points.remove(ear), normal_up);
    }
}

/// An ear at `i` with none above it is the highest ear.
proof fn lemma_highest_ear_witness(points: Seq<Vector3>, k: int, i: int)
    requires
        1 <= i <= k,
        k <= points.len() - 2,
        ear_score(points[i - 1], points[i], points[i + 1]) > 0,
        forall|m: int|
            i < m <= k ==> ear_score(points[m - 1], #[trigger] points[m], points[m + 1]) <= 0,
    ensures
        highest_ear_index(points, k) == i,
    decreases k,
{
    if k > i {
        assert(ear_score(points[k - 1], points[k], points[k + 1]) <= 0);
        lemma_highest_ear_witness(points, k - 1, i);
    }
}

/// With no ear anywhere in `1..=k`, the highest-ear search comes back
/// empty.
proof fn lemma_highest_ear_none(points: Seq<Vector3>, k: int)
    requires
        0 <= k,
        forall|m: int|
            1 <= m <= k ==> ear_score(points[m - 1], #[trigger] points[m], points[m + 1]) <= 0,
    ensures
        highest_ear_index(points, k) == 0,
    decreases k,
{
    if k >= 1 {
        assert(ear_score(points[k - 1], points[k], points[k + 1]) <= 0);
        lemma_highest_ear_none(points, k - 1);
    }
}

/// Evaluate the ear test exactly in wide integers.
fn triangle_is_ear(left: &Vector3, middle: &Vector3, right: &Vector3) -> (r: bool)
    requires
        vec_in_bounds(*left, COORD_LIMIT as int),
        vec_in_bounds(*middle, COORD_LIMIT as int),
        vec_in_bounds(*right, COORD_LIMIT as int),
    ensures
        r == (ear_score(*left, *middle, *right) > 0),
{
    let base_x: i64 = right.x - left.x;
    let base_y: i64 = right.y - left.y;
    let tip_x: i64 = middle.x - left.x;
    let tip_y: i64 = middle.y - left.y;
    proof {
        lemma_mul_abs_bound(base_x as int, tip_y as int, 0x4_0000_0000, 0x4_0000_0000);
        lemma_mul_abs_bound(base_y as int, tip_x as int, 0x4_0000_0000, 0x4_0000_0000);
    }
    let score: i128 = (base_x as i128) * (tip_y as i128) - (base_y as i128) * (tip_x as i128);
    score > 0
}

/// Find the interior vertex the clipping pass removes next: the ear
/// nearest the end of the chain (the scan runs in reverse, as the emission
/// order of the mesh depends on it).
fn find_ear(points: &Vec<Vector3>) -> (r: Option<usize>)
    requires
        points@.len() >= 3,
        forall|k: int|
            0 <= k < points@.len() ==> vec_in_bounds(#[trigger] points@[k], COORD_LIMIT as int),
    ensures
        match r {
            Some(i) => {
                &&& 1 <= i < points@.len() - 1
                &&& ear_score(points@[i - 1], points@[i as int], points@[i + 1]) > 0
                &&& i as int == highest_ear_index(points@, points@.len() - 2)
            },
            None => {
                &&& forall|m: int|
                    1 <= m < points@.len() - 1 ==> ear_score(
                        points@[m - 1],
                        #[trigger] points@[m],
                        points@[m + 1],
                    ) <= 0
                &&& highest_ear_index(points@, points@.len() - 2) == 0
            },
        },
{
    let mut k: usize = points.len() - 2;
    while k >= 1
        invariant
            0 <= k <= points@.len() - 2,
            forall|m: int|
                k < m < points@.len() - 1 ==> ear_score(
                    points@[m - 1],
                    #[trigger] points@[m],
                    points@[m + 1],
                ) <= 0,
        decreases k,
    {
        if triangle_is_ear(&points[k - 1], &points[k], &points[k + 1]) {
            proof {
                lemma_highest_ear_witness(points@, points@.len() - 2, k as int);
            }
            return Some(k);
        }
        k = k - 1;
    }
    proof {
        lemma_highest_ear_none(points@, points@.len() - 2);
    }
    None
}

/// Triangulate the polygon by repeatedly clipping an ear and emit each
/// clipped triangle with the face's fixed vertical normal (`normal_up`
/// selects the upward or downward one) and the matching winding.
///
/// On success the sink gains exactly the faces of the deterministic
/// clipping model `clip_faces` — `k - 2` of them for a chain of `k >= 3`
/// vertices, none for a shorter chain. Success is owed whenever the model
/// runs to completion (`clip_succeeds`), its faces are all valid, and the
/// budget covers them; under those same conditions a chain the model
/// cannot finish yields exactly the triangulation-failure error. The
/// faces collected before any failure remain in the sink.
pub fn fill_polygon_by_ear_trimming(
    stl_writer: &mut STLFileWriter,
    polygon_points: Vec<Vector3>,
    normal_up: bool,
) -> (r: Result<(), RollerError>)
    requires
        old(stl_writer).wf(),
        forall|k: int|
            0 <= k < polygon_points@.len() ==> vec_in_bounds(
                #[trigger] polygon_points@[k],
                COORD_LIMIT as int,
            ),
    ensures
        final(stl_writer).wf(),
        r is Ok ==> {
            let emitted = if polygon_points@.len() >= 3 {
                polygon_points@.len() - 2
            } else {
                0int
            };
            &&& final(stl_writer).faces@.len() == old(stl_writer).faces@.len() + emitted
            &&& final(stl_writer).faces_left == old(stl_writer).faces_left - emitted
        },
        r is Ok ==> final(stl_writer).faces@ == old(stl_writer).faces@ + clip_faces(
            polygon_points@,
            normal_up,
        ),
        old(stl_writer).faces_left >= clip_faces(polygon_points@, normal_up).len()
            && clip_faces_valid(polygon_points@, normal_up) ==> final(stl_writer).faces@ == old(
            stl_writer,
        ).faces@ + clip_faces(polygon_points@, normal_up) && r == (if clip_succeeds(
            polygon_points@,
        ) {
            Ok::<(), RollerError>(())
        } else {
            Err::<(), RollerError>(RollerError::TriangulationFailed)
        }),
        final(stl_writer).faces@.len() >= old(stl_writer).faces@.len(),
        final(stl_writer).faces@.len() <= old(stl_writer).faces@.len() + clip_faces(
            polygon_points@,
            normal_up,
        ).len(),
        forall|idx: int|
            old(stl_writer).faces@.len() <= idx < final(stl_writer).faces@.len()
                ==> #[trigger] final(stl_writer).faces@[idx] == clip_faces(
                polygon_points@,
                normal_up,
            )[idx - old(stl_writer).faces@.len()],
        forall|idx: int|
            0 <= idx < old(stl_writer).faces@.len() ==> #[trigger] final(stl_writer).faces@[idx]
                == old(stl_writer).faces@[idx],
{
    let normal: Vector3 = if normal_up {
        Vector3 { x: 0, y: 0, z: UNIT }
    } else {
        Vector3 { x: 0, y: 0, z: -UNIT }
    };
    let mut points = polygon_points;
    while points.len() >= 3
        invariant
            stl_writer.wf(),
            points@.len() >= 3 ==> polygon_points@.len() >= 3,
            polygon_points@.len() >= 3 ==> 2 <= points@.len() <= polygon_points@.len(),
            polygon_points@.len() < 3 ==> points@.len() == polygon_points@.len(),
            stl_writer.faces@.len() == old(stl_writer).faces@.len() + polygon_points@.len()
                - points@.len(),
            stl_writer.faces_left == old(stl_writer).faces_left - (polygon_points@.len()
                - points@.len()),
            forall|idx: int|
                0 <= idx < old(stl_writer).faces@.len() ==> #[trigger] stl_writer.faces@[idx]
                    == old(stl_writer).faces@[idx],
            forall|k: int|
                0 <= k < points@.len() ==> vec_in_bounds(
                    #[trigger] points@[k],
                    COORD_LIMIT as int,
                ),
            clip_faces(polygon_points@, normal_up) == stl_writer.faces@.skip(
                old(stl_writer).faces@.len() as int,
            ) + clip_faces(points@, normal_up),
            clip_succeeds(polygon_points@) == clip_succeeds(points@),
        decreases points@.len(),
    {
        let ear = match find_ear(&points) {
            Some(i) => i,
            None => {
                proof {
                    assert(clip_faces(points@, normal_up) =~= Seq::<Triangle>::empty());
                    assert(!clip_succeeds(points@));
                    assert(stl_writer.faces@ =~= old(stl_writer).faces@ + clip_faces(
                        polygon_points@,
                        normal_up,
                    ));
                    let old_len = old(stl_writer).faces@.len() as int;
                    assert forall|idx: int|
                        old_len <= idx < stl_writer.faces@.len() implies #[trigger] stl_writer.faces@[idx]
                        == clip_faces(polygon_points@, normal_up)[idx - old_len] by {
                        assert(stl_writer.faces@[idx] == (old(stl_writer).faces@ + clip_faces(
                            polygon_points@,
                            normal_up,
                        ))[idx]);
                    }
                }
                return Err(RollerError::TriangulationFailed);
            },
        };
        proof {
            assert(clip_faces(points@, normal_up) == seq![
                clip_face(points@, ear as int, normal_up),
            ] + clip_faces(points@.remove(ear as int), normal_up));
            assert(clip_succeeds(points@) == clip_succeeds(points@.remove(ear as int)));
        }
        let ghost faces_before = stl_writer.faces@;
        let write_result = if normal_up {
            stl_writer.write_face(&normal, &points[ear - 1], &points[ear + 1], &points[ear])
        } else {
            stl_writer.write_face(&normal, &points[ear], &points[ear + 1], &points[ear - 1])
        };
        match write_result {
            Ok(()) => {},
            Err(e) => {
                proof {
                    let next_face = clip_face(points@, ear as int, normal_up);
                    let emitted = faces_before.len() - old(stl_writer).faces@.len();
                    assert(clip_faces(polygon_points@, normal_up)[emitted as int] == next_face);
                    assert(clip_faces(polygon_points@, normal_up).len() >= emitted + 1);
                    lemma_face_error_none(
                        next_face.normal,
                        next_face.vertex_a,
                        next_face.vertex_b,
                        next_face.vertex_c,
                        stl_writer.faces_left,
                    );
                    assert(old(stl_writer).faces_left >= clip_faces(
                        polygon_points@,
                        normal_up,
                    ).len() ==> !triangle_valid(clip_faces(polygon_points@, normal_up)[emitted
                        as int]));
                    let old_len = old(stl_writer).faces@.len() as int;
                    assert forall|idx: int|
                        old_len <= idx < stl_writer.faces@.len() implies #[trigger] stl_writer.faces@[idx]
                        == clip_faces(polygon_points@, normal_up)[idx - old_len] by {
                        assert(stl_writer.faces@[idx] == faces_before[idx]);
                        assert(faces_before[idx] == faces_before.skip(old_len)[idx - old_len]);
                        assert(clip_faces(polygon_points@, normal_up)[idx - old_len] == (
                        faces_before.skip(old_len) + clip_faces(points@, normal_up))[idx
                            - old_len]);
                    }
                }
                return Err(e);
            },
        }
        proof {
            assert(stl_writer.faces@ == faces_before.push(
                clip_face(points@, ear as int, normal_up),
            ));
            assert forall|idx: int| 0 <= idx < old(stl_writer).faces@.len() implies #[trigger] stl_writer.faces@[idx]
                == old(stl_writer).faces@[idx] by {
                assert(stl_writer.faces@[idx] == faces_before[idx]);
            }
        }
        let ghost before = points@;
        points.remove(ear);
        proof {
            assert forall|k: int|
                0 <= k < points@.len() implies vec_in_bounds(
                #[trigger] points@[k],
                COORD_LIMIT as int,
            ) by {
                if k < ear {
                    assert(points@[k] == before[k]);
                } else {
                    assert(points@[k] == before[k + 1]);
                }
            }
            let old_len = old(stl_writer).faces@.len() as int;
            assert(stl_writer.faces@.skip(old_len) =~= faces_before.skip(old_len).push(
                clip_face(before, ear as int, normal_up),
            ));
            assert(clip_faces(polygon_points@, normal_up) =~= stl_writer.faces@.skip(old_len)
                + clip_faces(points@, normal_up));
        }
    }
    proof {
        assert(clip_faces(points@, normal_up) =~= Seq::<Triangle>::empty());
        assert(clip_succeeds(points@));
        assert(stl_writer.faces@ =~= old(stl_writer).faces@ + clip_faces(
            polygon_points@,
            normal_up,
        ));
        let old_len = old(stl_writer).faces@.len() as int;
        assert forall|idx: int|
            old_len <= idx < stl_writer.faces@.len() implies #[trigger] stl_writer.faces@[idx]
            == clip_faces(polygon_points@, normal_up)[idx - old_len] by {
            assert(stl_writer.faces@[idx] == (old(stl_writer).faces@ + clip_faces(
                polygon_points@,
                normal_up,
            ))[idx]);
        }
    }
    Ok(())
}

} // verus!
