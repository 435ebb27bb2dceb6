//! Whole-pass face accounting and the annulus triangulator: a small flat
//! roller emits exactly the advertised number of faces, and ear clipping
//! emits `k - 2` triangles for a `k`-vertex polygon or reports failure.

use img2roller::circles::CircleConverter;
use img2roller::construct::make_pattern_roller;
use img2roller::eartrim::fill_polygon_by_ear_trimming;
use img2roller::parameters::{Parameters, RollerEnd};
use img2roller::stl::STLFileWriter;
use img2roller::vectors::Vector3;
use img2roller::RollerError;

/// One full turn in four samples, in ticks.
fn quarter_table() -> Vec<(i64, i64)> {
    vec![
        (0, 1_000_000),
        (1_000_000, 0),
        (0, -1_000_000),
        (-1_000_000, 0),
    ]
}

fn flat_four_by_four() -> Parameters {
    Parameters {
        output_filename: String::from("roller.stl"),
        radii_vector: vec![
            1_000_000, 1_100_000, 1_000_000, 1_100_000,
            1_100_000, 1_000_000, 1_100_000, 1_000_000,
            1_000_000, 1_100_000, 1_000_000, 1_100_000,
            1_100_000, 1_000_000, 1_100_000, 1_000_000,
        ],
        image_width: 4,
        image_height: 4,
        stack_horizontal: 1,
        stack_vertical: 1,
        roller_diameter: 2_400_000,
        roller_length: 3_000_000,
        relief_depth: 100_000,
        grid_step: 750_000,
        roller_end: RollerEnd::Flat,
    }
}

#[test]
fn test_flat_roller_face_count() {
    // A 4x4 flat roller without stacking: 2*4*3 body faces plus 2*4 lid
    // faces, 32 in all — and the generation pass emits exactly that many.
    let params = flat_four_by_four();
    assert!(params.check_valid());
    assert_eq!(params.faces_count(), Ok(32));
    let writer = STLFileWriter::new(&params).unwrap();
    let circle = CircleConverter::new(quarter_table(), 1_200_000);
    let faces = make_pattern_roller(&params, writer, &circle, None).unwrap();
    assert_eq!(faces.len(), 32);
}

#[test]
fn test_flat_roller_lid_normals() {
    // After the 24 body faces come the lid fans, alternating top (up) and
    // bottom (down).
    let params = flat_four_by_four();
    let writer = STLFileWriter::new(&params).unwrap();
    let circle = CircleConverter::new(quarter_table(), 1_200_000);
    let faces = make_pattern_roller(&params, writer, &circle, None).unwrap();
    assert_eq!(faces[24].normal, Vector3::new(0, 0, 1_000_000));
    assert_eq!(faces[25].normal, Vector3::new(0, 0, -1_000_000));
    assert_eq!(faces[24].vertex_a, Vector3::new(1_200_000, 1_200_000, 3_000_000));
    assert_eq!(faces[25].vertex_a, Vector3::new(1_200_000, 1_200_000, 0));
}

#[test]
fn test_flat_roller_first_body_face() {
    // The first cell ties on both diagonals and splits along the first
    // one, so the first face runs top-left, bottom-right, top-right: ring
    // samples 0 and 1 at radii 1.0 / 1.0 / 1.1 units around the shifted
    // axis, at the top two z levels (step 1.0 of the 3.0 length).
    let params = flat_four_by_four();
    let writer = STLFileWriter::new(&params).unwrap();
    let circle = CircleConverter::new(quarter_table(), 1_200_000);
    let faces = make_pattern_roller(&params, writer, &circle, None).unwrap();
    assert_eq!(faces[0].vertex_a, Vector3::new(2_200_000, 1_200_000, 3_000_000));
    assert_eq!(faces[0].vertex_b, Vector3::new(1_200_000, 2_200_000, 2_000_000));
    assert_eq!(faces[0].vertex_c, Vector3::new(1_200_000, 2_300_000, 3_000_000));
}

#[test]
fn test_single_column_grid_is_degenerate() {
    // A one-column grid wraps onto itself: the two ring samples of every
    // cell coincide at the seam, and the validation layer rejects the
    // first face instead of emitting a broken mesh.
    let params = Parameters {
        output_filename: String::from("roller.stl"),
        radii_vector: vec![1_000_000, 1_100_000],
        image_width: 1,
        image_height: 2,
        stack_horizontal: 1,
        stack_vertical: 1,
        roller_diameter: 2_400_000,
        roller_length: 3_000_000,
        relief_depth: 100_000,
        grid_step: 750_000,
        roller_end: RollerEnd::Flat,
    };
    assert!(params.check_valid());
    let writer = STLFileWriter::new(&params).unwrap();
    let circle = CircleConverter::new(vec![(0, 1_000_000)], 1_200_000);
    let r = make_pattern_roller(&params, writer, &circle, None);
    assert_eq!(r, Err(RollerError::DegenerateFace));
}

#[test]
fn test_ear_trimming_square() {
    // A clockwise square has two interior vertices, both ears: exactly
    // k - 2 == 2 triangles come out.
    let mut writer = STLFileWriter { faces: Vec::new(), faces_left: 10 };
    let polygon = vec![
        Vector3::new(0, 0, 0),
        Vector3::new(0, 1_000_000, 0),
        Vector3::new(1_000_000, 1_000_000, 0),
        Vector3::new(1_000_000, 0, 0),
    ];
    let r = fill_polygon_by_ear_trimming(&mut writer, polygon, true);
    assert_eq!(r, Ok(()));
    assert_eq!(writer.faces.len(), 2);
    assert_eq!(writer.faces_left, 8);
}

#[test]
fn test_ear_trimming_short_chain() {
    // Fewer than three vertices: nothing to emit, and no failure either.
    let mut writer = STLFileWriter { faces: Vec::new(), faces_left: 10 };
    let polygon = vec![Vector3::new(0, 0, 0), Vector3::new(1_000_000, 0, 0)];
    assert_eq!(fill_polygon_by_ear_trimming(&mut writer, polygon, true), Ok(()));
    assert_eq!(writer.faces.len(), 0);
}

#[test]
fn test_ear_trimming_no_ear() {
    // The same square walked counterclockwise turns every ear test
    // negative: the triangulation reports the invariant violation.
    let mut writer = STLFileWriter { faces: Vec::new(), faces_left: 10 };
    let polygon = vec![
        Vector3::new(0, 0, 0),
        Vector3::new(1_000_000, 0, 0),
        Vector3::new(1_000_000, 1_000_000, 0),
        Vector3::new(0, 1_000_000, 0),
    ];
    let r = fill_polygon_by_ear_trimming(&mut writer, polygon, true);
    assert_eq!(r, Err(RollerError::TriangulationFailed));
}

#[test]
fn test_ear_trimming_failure_keeps_collected_faces() {
    // A failing triangulation reports the error and leaves everything
    // already in the sink untouched.
    let mut writer = STLFileWriter { faces: Vec::new(), faces_left: 10 };
    let good = vec![
        Vector3::new(0, 0, 0),
        Vector3::new(0, 1_000_000, 0),
        Vector3::new(1_000_000, 1_000_000, 0),
    ];
    assert_eq!(fill_polygon_by_ear_trimming(&mut writer, good, true), Ok(()));
    assert_eq!(writer.faces.len(), 1);
    let kept = writer.faces[0];
    let earless = vec![
        Vector3::new(0, 0, 0),
        Vector3::new(1_000_000, 0, 0),
        Vector3::new(1_000_000, 1_000_000, 0),
        Vector3::new(0, 1_000_000, 0),
    ];
    let r = fill_polygon_by_ear_trimming(&mut writer, earless, true);
    assert_eq!(r, Err(RollerError::TriangulationFailed));
    assert_eq!(writer.faces.len(), 1);
    assert_eq!(writer.faces[0], kept);
    assert_eq!(writer.faces_left, 9);
}

#[test]
fn test_channel_roller_face_count() {
    // The same roller with a bore: 24 body faces, 2*4 wall faces, and
    // 2*(4+4) stitched lid faces — 2*4*3 + 2*4 + 4*4 == 48 in all.
    let mut params = flat_four_by_four();
    params.roller_end = RollerEnd::Channel { channel_diameter: 400_000, circle_points: 4 };
    assert!(params.check_valid());
    assert_eq!(params.faces_count(), Ok(48));
    let writer = STLFileWriter::new(&params).unwrap();
    let body_circle = CircleConverter::new(quarter_table(), 1_200_000);
    let bore_circle = CircleConverter::new(quarter_table(), 1_200_000);
    let faces = make_pattern_roller(&params, writer, &body_circle, Some(&bore_circle)).unwrap();
    assert_eq!(faces.len(), 48);
}

#[test]
fn test_pin_roller_face_count() {
    // With pins: 24 body faces, 8*4 pin faces (tip fans and walls on both
    // ends plus the stitched lids) on top of the 2*4 boundary-ring faces.
    let mut params = flat_four_by_four();
    params.roller_end = RollerEnd::Pin {
        pin_diameter: 400_000,
        pin_length: 500_000,
        circle_points: 4,
    };
    assert!(params.check_valid());
    assert_eq!(params.faces_count(), Ok(64));
    let writer = STLFileWriter::new(&params).unwrap();
    let body_circle = CircleConverter::new(quarter_table(), 1_200_000);
    let pin_circle = CircleConverter::new(quarter_table(), 1_200_000);
    let faces = make_pattern_roller(&params, writer, &body_circle, Some(&pin_circle)).unwrap();
    assert_eq!(faces.len(), 64);
}
