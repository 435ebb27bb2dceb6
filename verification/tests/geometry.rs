//! Vector arithmetic: cross products, normalization, in-plane rotation,
//! and the right-hand orientation test, on exact fixed-point values
//! (1_000_000 ticks per unit).

use img2roller::vectors::{check_right_hand, xy_scalar_product, Vector3};

#[test]
fn test_vector_normalize() {
    // |(2, 10, 11)| == 15, so the unit components are 2/15, 2/3 and 11/15,
    // truncated to ticks.
    let a = Vector3::new(2_000_000, 10_000_000, 11_000_000);
    let b = Vector3::new(133_333, 666_666, 733_333);
    assert_eq!(a.normalize(), b);
}

#[test]
fn test_xy_perp_clockwise_orts() {
    let a = Vector3::new(1_000_000, 0, 0);
    let b = Vector3::new(0, 1_000_000, 0);
    assert_eq!(a.xy_perp_clockwise(), b);
}

#[test]
fn test_cross_product_orts() {
    let a = Vector3::new(1_000_000, 0, 0);
    let b = Vector3::new(0, 1_000_000, 0);
    let c = Vector3::new(0, 0, 1_000_000);
    assert_eq!(Vector3::from_cross_product(a, b), c);
}

#[test]
fn test_cross_product_collinear() {
    let a = Vector3::new(1_000_000, 2_000_000, 3_000_000);
    let b = Vector3::new(2_000_000, 4_000_000, 6_000_000);
    let c = Vector3::new(0, 0, 0);
    assert_eq!(Vector3::from_cross_product(a, b), c);
}

#[test]
fn test_cross_product() {
    // (0.2, 0.3, 0.4) x (0.5, 0.6, 0.7) == (-0.03, 0.06, -0.03), exact in ticks.
    let a = Vector3::new(200_000, 300_000, 400_000);
    let b = Vector3::new(500_000, 600_000, 700_000);
    let c = Vector3::new(-30_000, 60_000, -30_000);
    assert_eq!(Vector3::from_cross_product(a, b), c);
}

#[test]
fn test_right_hand_orts() {
    let a = Vector3::new(1_000_000, 0, 0);
    let b = Vector3::new(0, 1_000_000, 0);
    let c = Vector3::new(0, 0, 1_000_000);
    assert!(check_right_hand(&a, &b, &c));
    let a = Vector3::new(-1_000_000, 0, 0);
    let b = Vector3::new(0, -1_000_000, 0);
    let c = Vector3::new(0, 0, -1_000_000);
    assert!(!check_right_hand(&a, &b, &c));
}

#[test]
fn test_xy_scalar_product() {
    // Only the in-plane parts contribute: 3*5 + 4*(-2), with z ignored.
    let a = Vector3::new(3, 4, 1_000_000);
    let b = Vector3::new(5, -2, -1_000_000);
    assert_eq!(xy_scalar_product(&a, &b), 7);
    let unit_x = Vector3::new(1_000_000, 0, 0);
    let unit_y = Vector3::new(0, 1_000_000, 0);
    assert_eq!(xy_scalar_product(&unit_x, &unit_y), 0);
}

#[test]
fn test_from_points() {
    let origin = Vector3::new(1_000_000, 2_000_000, 3_000_000);
    let end = Vector3::new(500_000, 2_500_000, 3_000_000);
    assert_eq!(
        Vector3::from_points(&origin, &end),
        Vector3::new(-500_000, 500_000, 0)
    );
}
