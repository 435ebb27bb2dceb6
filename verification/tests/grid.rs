//! The radius grid and its construction from an image: toroidal
//! addressing, boundary rows, face-count validation, and the rescaling of
//! luminance samples into radii.

use image::{DynamicImage, ImageBuffer, Luma};
use img2roller::raster::{
    choose_resize_filter, image_to_vector, rescale_min_max, resize_image, ResizeFilter,
};
use img2roller::parameters::{Parameters, RollerEnd};
use img2roller::RollerError;

fn small_grid() -> Parameters {
    Parameters {
        output_filename: String::from("roller.stl"),
        radii_vector: vec![1_000_000, 1_100_000, 1_200_000, 1_300_000],
        image_width: 2,
        image_height: 2,
        stack_horizontal: 1,
        stack_vertical: 1,
        roller_diameter: 4_000_000,
        roller_length: 1_000_000,
        relief_depth: 100_000,
        grid_step: 1_000,
        roller_end: RollerEnd::Flat,
    }
}

#[test]
fn test_rho_looped_wraps_both_axes() {
    let params = small_grid();
    assert!(params.check_valid());
    assert_eq!(params.get_rho(1, 1), 1_300_000);
    assert_eq!(params.get_rho_looped(-1, -1), 1_300_000);
    assert_eq!(params.get_rho_looped(2, 0), 1_000_000);
    assert_eq!(params.get_rho_looped(3, 2), 1_100_000);
}

#[test]
fn test_boundary_rows() {
    let params = small_grid();
    assert_eq!(params.get_image_topline(), vec![1_000_000, 1_100_000]);
    assert_eq!(params.get_image_botline(), vec![1_200_000, 1_300_000]);
}

#[test]
fn test_check_valid_rejects_oversized_bore() {
    let mut params = small_grid();
    // The bore must stay strictly inside the relief-adjusted body radius.
    params.roller_end = RollerEnd::Channel { channel_diameter: 3_900_000, circle_points: 4 };
    assert!(!params.check_valid());
    params.roller_end = RollerEnd::Channel { channel_diameter: 3_700_000, circle_points: 4 };
    assert!(params.check_valid());
}

#[test]
fn test_faces_count_overflow() {
    // A tall stack makes the body face count exceed the 32-bit counter
    // before any output would be opened.
    let params = Parameters {
        output_filename: String::from("roller.stl"),
        radii_vector: vec![1_000_000, 1_000_000],
        image_width: 1,
        image_height: 2,
        stack_horizontal: 1_048_576,
        stack_vertical: 524_288,
        roller_diameter: 4_000_000,
        roller_length: 1_000_000,
        relief_depth: 100_000,
        grid_step: 1_000,
        roller_end: RollerEnd::Flat,
    };
    assert!(params.check_valid());
    assert_eq!(params.faces_count(), Err(RollerError::FaceCountOverflow));
}

#[test]
fn test_rescale_spans_radius_range() {
    let radii = rescale_min_max(vec![0, 65535], false, 500_000, 1_500_000);
    assert_eq!(radii, vec![500_000, 1_500_000]);
    let inverted = rescale_min_max(vec![0, 65535], true, 500_000, 1_500_000);
    assert_eq!(inverted, vec![1_500_000, 500_000]);
}

#[test]
fn test_rescale_midpoint_truncates() {
    let radii = rescale_min_max(vec![0, 1, 2], false, 1_000_000, 1_000_003);
    assert_eq!(radii, vec![1_000_000, 1_000_001, 1_000_003]);
}

#[test]
fn test_rescale_empty_input() {
    let radii = rescale_min_max(Vec::new(), false, 500_000, 1_500_000);
    assert_eq!(radii, Vec::<i64>::new());
}

#[test]
fn test_resize_filter_choice() {
    assert_eq!(choose_resize_filter(4, 4, 2, 2, true), ResizeFilter::Nearest);
    assert_eq!(choose_resize_filter(4, 4, 2, 2, false), ResizeFilter::Lanczos3);
    assert_eq!(choose_resize_filter(4, 4, 8, 2, false), ResizeFilter::CatmullRom);
    assert_eq!(choose_resize_filter(4, 4, 8, 8, false), ResizeFilter::CatmullRom);
}

#[test]
fn test_rescale_solid_color_fallback() {
    let radii = rescale_min_max(vec![7, 7, 7], false, 500_000, 1_500_000);
    assert_eq!(radii, vec![500_000, 500_000, 500_000]);
}

#[test]
fn test_image_to_vector_reads_pixels() {
    // A two-pixel black-and-white image must map to the two range ends;
    // this fails if the luminance extraction hands anything else back.
    let buffer: ImageBuffer<Luma<u16>, Vec<u16>> =
        ImageBuffer::from_vec(2, 1, vec![0u16, 65535u16]).unwrap();
    let img = DynamicImage::ImageLuma16(buffer);
    let radii = image_to_vector(img, false, 500_000, 1_500_000);
    assert_eq!(radii, vec![500_000, 1_500_000]);
}

#[test]
fn test_image_to_vector_oversized_backing_buffer() {
    // An image buffer may carry more storage than its pixels need; the
    // radius grid must still hold exactly one entry per pixel.
    let buffer: ImageBuffer<Luma<u16>, Vec<u16>> =
        ImageBuffer::from_raw(2, 1, vec![0u16, 65535u16, 7u16, 7u16]).unwrap();
    let img = DynamicImage::ImageLuma16(buffer);
    let radii = image_to_vector(img, false, 500_000, 1_500_000);
    assert_eq!(radii, vec![500_000, 1_500_000]);
}

#[test]
fn test_resize_image_dimensions() {
    // Resizing must hand back an image of exactly the requested size.
    let buffer: ImageBuffer<Luma<u16>, Vec<u16>> =
        ImageBuffer::from_vec(4, 2, vec![1000u16; 8]).unwrap();
    let img = DynamicImage::ImageLuma16(buffer);
    let resized = resize_image(img, 2, 1, true);
    let radii = image_to_vector(resized, false, 500_000, 1_500_000);
    assert_eq!(radii.len(), 2);
}
