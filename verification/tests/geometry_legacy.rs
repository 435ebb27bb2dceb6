//! The geometry checks as the project's older combined module ran them;
//! they exercise the same vector operations as `geometry`.

use img2roller::split::lls_sse;
use img2roller::vectors::{check_right_hand, Vector3};

#[test]
fn test_lib_geometry_test_vector_normalize() {
    let a = Vector3::new(2_000_000, 10_000_000, 11_000_000);
    let b = Vector3::new(133_333, 666_666, 733_333);
    assert_eq!(a.normalize(), b);
}

#[test]
fn test_lib_geometry_test_xy_perp_clockwise_orts() {
    let a = Vector3::new(1_000_000, 0, 0);
    let b = Vector3::new(0, 1_000_000, 0);
    assert_eq!(a.xy_perp_clockwise(), b);
}

#[test]
fn test_lib_geometry_test_cross_product_orts() {
    let a = Vector3::new(1_000_000, 0, 0);
    let b = Vector3::new(0, 1_000_000, 0);
    let c = Vector3::new(0, 0, 1_000_000);
    assert_eq!(Vector3::from_cross_product(a, b), c);
}

#[test]
fn test_lib_geometry_test_cross_product_collinear() {
    let a = Vector3::new(1_000_000, 2_000_000, 3_000_000);
    let b = Vector3::new(2_000_000, 4_000_000, 6_000_000);
    let c = Vector3::new(0, 0, 0);
    assert_eq!(Vector3::from_cross_product(a, b), c);
}

#[test]
fn test_lib_geometry_test_cross_product() {
    let a = Vector3::new(200_000, 300_000, 400_000);
    let b = Vector3::new(500_000, 600_000, 700_000);
    let c = Vector3::new(-30_000, 60_000, -30_000);
    assert_eq!(Vector3::from_cross_product(a, b), c);
}

#[test]
fn test_lib_geometry_test_right_hand_orts() {
    let a = Vector3::new(1_000_000, 0, 0);
    let b = Vector3::new(0, 1_000_000, 0);
    let c = Vector3::new(0, 0, 1_000_000);
    assert!(check_right_hand(&a, &b, &c));
    let a = Vector3::new(-1_000_000, 0, 0);
    let b = Vector3::new(0, -1_000_000, 0);
    let c = Vector3::new(0, 0, -1_000_000);
    assert!(!check_right_hand(&a, &b, &c));
}

#[test]
fn test_lib_geometry_test_lls_sse_exact_linear() {
    assert_eq!(lls_sse(1, 2, 3, 4), 0);
    assert_eq!(lls_sse(2, 4, 6, 8), 0);
    assert_eq!(lls_sse(1, 1, 1, 1), 0);
}

#[test]
fn test_lib_geometry_test_lls_sse_compare() {
    // The residual of (1, 2, 3, 5) against (1, 2, 3, 5.1), both scaled by
    // ten so the values are integral; the comparison is scale-invariant.
    assert!(lls_sse(10, 20, 30, 50) < lls_sse(10, 20, 30, 51));
}
