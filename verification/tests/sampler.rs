//! The circle sampler: closed seam and exact fixed-point coordinates.

use img2roller::circles::CircleConverter;

/// One full turn in four samples: (sin, cos) ticks of 0, 90, 180 and 270
/// degrees.
fn quarter_table() -> Vec<(i64, i64)> {
    vec![
        (0, 1_000_000),
        (1_000_000, 0),
        (0, -1_000_000),
        (-1_000_000, 0),
    ]
}

#[test]
fn test_sampler_seam_closed() {
    // The angle at index n_points repeats the angle at index 0, so both
    // indices sample identical coordinates at every radius.
    let circle = CircleConverter::new(quarter_table(), 0);
    assert_eq!(circle.n_points, 4);
    assert_eq!(circle.get_xy(0, 1_234_567), circle.get_xy(4, 1_234_567));
    assert_eq!(circle.get_xy(0, 42), circle.get_xy(4, 42));
}

#[test]
fn test_sampler_coordinates() {
    let circle = CircleConverter::new(quarter_table(), 1_000_000);
    // Index 0 looks along +x: (shift + rho, shift).
    assert_eq!(circle.get_xy(0, 500_000), (1_500_000, 1_000_000));
    // Index 1 looks along +y.
    assert_eq!(circle.get_xy(1, 500_000), (1_000_000, 1_500_000));
    // Index 2 looks along -x.
    assert_eq!(circle.get_xy(2, 500_000), (500_000, 1_000_000));
}

#[test]
fn test_sampler_point_height() {
    let circle = CircleConverter::new(quarter_table(), 0);
    let point = circle.get_vector3(1, 1_000_000, 777);
    assert_eq!((point.x, point.y, point.z), (0, 1_000_000, 777));
}
