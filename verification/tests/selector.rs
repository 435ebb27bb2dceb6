//! The least-squares diagonal selector: exact zero residual on linear
//! sequences, monotone sensitivity to deviation, and the tie-break on a
//! featureless grid.

use img2roller::parameters::{Parameters, RollerEnd};
use img2roller::split::{lls_sse, split_quad_optimal};

#[test]
fn test_lls_sse_exact_linear() {
    assert_eq!(lls_sse(1, 2, 3, 4), 0);
    assert_eq!(lls_sse(2, 4, 6, 8), 0);
    assert_eq!(lls_sse(1, 1, 1, 1), 0);
}

#[test]
fn test_lls_sse_compare() {
    // (1, 2, 3, 5) deviates less than (1, 2, 3, 5.1); both sequences are
    // scaled by ten to stay integral, which preserves the comparison.
    assert!(lls_sse(10, 20, 30, 50) < lls_sse(10, 20, 30, 51));
}

#[test]
fn test_split_tie_prefers_first_diagonal() {
    // On a featureless grid both diagonals have zero residual; the
    // top-left-to-bottom-right diagonal wins the tie.
    let params = Parameters {
        output_filename: String::from("roller.stl"),
        radii_vector: vec![1_000_000; 4],
        image_width: 2,
        image_height: 2,
        stack_horizontal: 1,
        stack_vertical: 1,
        roller_diameter: 2_000_000,
        roller_length: 1_000_000,
        relief_depth: 100_000,
        grid_step: 1_000,
        roller_end: RollerEnd::Flat,
    };
    assert!(params.check_valid());
    let (tlbr, tl, tr, bl, br) = split_quad_optimal(&params, 0, 0);
    assert!(tlbr);
    assert_eq!((tl, tr, bl, br), (1_000_000, 1_000_000, 1_000_000, 1_000_000));
}

#[test]
fn test_split_returns_cell_corners() {
    let params = Parameters {
        output_filename: String::from("roller.stl"),
        radii_vector: vec![1_000_000, 1_100_000, 1_200_000, 1_300_000],
        image_width: 2,
        image_height: 2,
        stack_horizontal: 1,
        stack_vertical: 1,
        roller_diameter: 4_000_000,
        roller_length: 1_000_000,
        relief_depth: 100_000,
        grid_step: 1_000,
        roller_end: RollerEnd::Flat,
    };
    assert!(params.check_valid());
    let (_, tl, tr, bl, br) = split_quad_optimal(&params, 0, 0);
    assert_eq!((tl, tr, bl, br), (1_000_000, 1_100_000, 1_200_000, 1_300_000));
}
