//! The mesh sink's validation layer: a sound face passes, a negated
//! normal fails the orientation check, a repeated vertex or zero normal
//! fails the degeneracy check, and the face counter is enforced on both
//! sides.

use img2roller::stl::STLFileWriter;
use img2roller::vectors::Vector3;
use img2roller::RollerError;

fn sink(faces_left: u32) -> STLFileWriter {
    STLFileWriter { faces: Vec::new(), faces_left }
}

fn up() -> Vector3 {
    Vector3::new(0, 0, 1_000_000)
}

fn corner_a() -> Vector3 {
    Vector3::new(0, 0, 0)
}

fn corner_b() -> Vector3 {
    Vector3::new(1_000_000, 0, 0)
}

fn corner_c() -> Vector3 {
    Vector3::new(0, 1_000_000, 0)
}

#[test]
fn test_write_face_valid() {
    let mut writer = sink(1);
    let r = writer.write_face(&up(), &corner_a(), &corner_b(), &corner_c());
    assert_eq!(r, Ok(()));
    assert_eq!(writer.faces.len(), 1);
    assert_eq!(writer.faces_left, 0);
}

#[test]
fn test_write_face_inverted_normal() {
    let mut writer = sink(1);
    let down = Vector3::new(0, 0, -1_000_000);
    let r = writer.write_face(&down, &corner_a(), &corner_b(), &corner_c());
    assert_eq!(r, Err(RollerError::InvertedNormal));
    assert_eq!(writer.faces.len(), 0);
    assert_eq!(writer.faces_left, 1);
}

#[test]
fn test_write_face_repeated_vertex() {
    let mut writer = sink(1);
    let r = writer.write_face(&up(), &corner_a(), &corner_a(), &corner_c());
    assert_eq!(r, Err(RollerError::DegenerateFace));
}

#[test]
fn test_write_face_zero_normal() {
    let mut writer = sink(1);
    let zero = Vector3::new(0, 0, 0);
    let r = writer.write_face(&zero, &corner_a(), &corner_b(), &corner_c());
    assert_eq!(r, Err(RollerError::DegenerateFace));
}

#[test]
fn test_write_face_auto_normal_collinear() {
    let mut writer = sink(1);
    let mid = Vector3::new(500_000, 0, 0);
    let far = Vector3::new(2_000_000, 0, 0);
    let r = writer.write_face_auto_normal(&corner_a(), &mid, &far);
    assert_eq!(r, Err(RollerError::DegenerateFace));
}

#[test]
fn test_write_face_auto_normal_unit() {
    let mut writer = sink(1);
    let r = writer.write_face_auto_normal(&corner_a(), &corner_b(), &corner_c());
    assert_eq!(r, Ok(()));
    assert_eq!(writer.faces[0].normal, up());
}

#[test]
fn test_write_face_count_exceeded() {
    let mut writer = sink(0);
    let r = writer.write_face(&up(), &corner_a(), &corner_b(), &corner_c());
    assert_eq!(r, Err(RollerError::FaceCountExceeded));
}

#[test]
fn test_finish_count_short() {
    let writer = sink(3);
    assert_eq!(writer.finish(), Err(RollerError::FaceCountShort));
}

#[test]
fn test_finish_complete() {
    let mut writer = sink(1);
    writer
        .write_face(&up(), &corner_a(), &corner_b(), &corner_c())
        .unwrap();
    let faces = writer.finish().unwrap();
    assert_eq!(faces.len(), 1);
}
