//! The bridge from a pattern image to the radius grid. Decoding and
//! resampling are the `image` crate's work, reached through trusted
//! wrappers; everything that decides or computes — the filter choice and
//! the rescaling of raw luminance samples into fixed-point radii — is
//! verified here.

use crate::fixed::{lemma_mul_abs_bound, DIM_LIMIT, HALF_UNIT};
use vstd::arithmetic::div_mod::{lemma_div_pos_is_pos, lemma_multiply_divide_le};
use vstd::arithmetic::mul::{lemma_mul_inequality, lemma_mul_nonnegative};
use vstd::prelude::*;

verus! {

/// A decoded image, opaque to this crate: only the trusted wrappers below
/// look inside.
#[verifier::external_type_specification]
#[verifier::external_body]
pub struct ExDynamicImage(image::DynamicImage);

/// The pixel width of a decoded image.
pub uninterp spec fn image_width_of(img: image::DynamicImage) -> u32;

/// The pixel height of a decoded image.
pub uninterp spec fn image_height_of(img: image::DynamicImage) -> u32;

/// The image's 16-bit luminance samples, row-major, one per pixel.
pub uninterp spec fn image_luma16_of(img: image::DynamicImage) -> Seq<u16>;

/// Relies on `image::DynamicImage::width`: the pixel width of the image,
/// a function of the image value alone.
#[verifier::external_body]
fn image_width(img: &image::DynamicImage) -> (w: u32)
    ensures
        w == image_width_of(*img),
{
    img.width()
}

/// Relies on `image::DynamicImage::height`: the pixel height of the
/// image, a function of the image value alone.
#[verifier::external_body]
fn image_height(img: &image::DynamicImage) -> (h: u32)
    ensures
        h == image_height_of(*img),
{
    img.height()
}

/// The resampling filters the resize step chooses between.
#[derive(Clone, Copy, PartialEq, Eq, Structural, Debug)]
pub enum ResizeFilter {
    Nearest,
    Lanczos3,
    CatmullRom,
}

/// The resampling buffers fit the machine: the intermediate
/// (source-width by target-height) and final (target by target) buffers
/// of up to four channels have in-range lengths.
pub open spec fn resample_fits(source_width: u32, nwidth: u32, nheight: u32) -> bool {
    &&& 4 * (source_width as int) * (nheight as int) <= usize::MAX
    &&& 4 * (nwidth as int) * (nheight as int) <= usize::MAX
}

/// Relies on `image::DynamicImage::resize_exact`: the result is the image
/// resampled with the given filter to exactly the requested dimensions
/// ("`nwidth` and `nheight` are the new image's dimensions" — the aspect
/// ratio is not preserved). The source must not be empty (resampling a
/// zero-sized image reads out of bounds) and the buffer lengths must fit
/// (`ImageBuffer::new` halts on a checked length overflow).
#[verifier::external_body]
fn resize_exact_with(
    img: &image::DynamicImage,
    nwidth: u32,
    nheight: u32,
    filter: ResizeFilter,
) -> (r: image::DynamicImage)
    requires
        1 <= image_width_of(*img),
        1 <= image_height_of(*img),
        1 <= nwidth,
        1 <= nheight,
        resample_fits(image_width_of(*img), nwidth, nheight),
    ensures
        image_width_of(r) == nwidth,
        image_height_of(r) == nheight,
{
    let filter_type = match filter {
        ResizeFilter::Nearest => image::imageops::FilterType::Nearest,
        ResizeFilter::Lanczos3 => image::imageops::FilterType::Lanczos3,
        ResizeFilter::CatmullRom => image::imageops::FilterType::CatmullRom,
    };
    img.resize_exact(nwidth, nheight, filter_type)
}

/// Relies on `image::DynamicImage::to_luma16` and
/// `image::ImageBuffer::into_vec`: the image converted pixel by pixel
/// into a freshly sized 16-bit luminance buffer, one sample per pixel in
/// row-major order, so the vector holds exactly `width * height` entries
/// whatever backing buffer the source carries (an image buffer may be
/// backed by more storage than its pixels need, so a conversion that can
/// hand a source buffer through unchanged would not bound the length);
/// the samples are a function of the image alone.
#[verifier::external_body]
fn to_luma16_vector(img: image::DynamicImage) -> (v: Vec<u16>)
    ensures
        v@ == image_luma16_of(img),
        v@.len() == image_width_of(img) * image_height_of(img),
{
    img.to_luma16().into_vec()
}

/// Which filter the resize step uses: nearest-neighbor when pixelated
/// output is asked for, otherwise a sharper kernel when strictly
/// downscaling in both dimensions and a softer one when not.
pub open spec fn resize_filter_spec(
    source_width: u32,
    source_height: u32,
    target_width: u32,
    target_height: u32,
    pixelated: bool,
) -> ResizeFilter {
    if pixelated {
        ResizeFilter::Nearest
    } else if source_width > target_width && source_height > target_height {
        ResizeFilter::Lanczos3
    } else {
        ResizeFilter::CatmullRom
    }
}

/// Resample the pattern image to the grid resolution the parameters ask
/// for, picking the filter by `resize_filter_spec`. An empty source image
/// has no samples to resample from, and a size whose resampling buffers
/// would not fit the machine cannot be resampled; either is returned
/// unchanged.
pub fn resize_image(
    image: image::DynamicImage,
    target_width: u32,
    target_height: u32,
    pixelated: bool,
) -> (r: image::DynamicImage)
    requires
        1 <= target_width,
        1 <= target_height,
    ensures
        1 <= image_width_of(image) && 1 <= image_height_of(image) && resample_fits(
            image_width_of(image),
            target_width,
            target_height,
        ) ==> image_width_of(r) == target_width && image_height_of(r) == target_height,
        !(1 <= image_width_of(image) && 1 <= image_height_of(image) && resample_fits(
            image_width_of(image),
            target_width,
            target_height,
        )) ==> r == image,
{
    let source_width = image_width(&image);
    let source_height = image_height(&image);
    if source_width == 0 || source_height == 0 {
        return image;
    }
    let cap: u128 = usize::MAX as u128;
    proof {
        lemma_mul_abs_bound(
            4 * (source_width as int),
            target_height as int,
            0x4_0000_0000,
            0xffff_ffff,
        );
        lemma_mul_abs_bound(
            4 * (target_width as int),
            target_height as int,
            0x4_0000_0000,
            0xffff_ffff,
        );
    }
    if 4 * (source_width as u128) * (target_height as u128) > cap || 4 * (target_width as u128)
        * (target_height as u128) > cap {
        return image;
    }
    let filter = choose_resize_filter(
        source_width,
        source_height,
        target_width,
        target_height,
        pixelated,
    );
    resize_exact_with(&image, target_width, target_height, filter)
}

/// The verified filter decision of the resize step.
pub fn choose_resize_filter(
    source_width: u32,
    source_height: u32,
    target_width: u32,
    target_height: u32,
    pixelated: bool,
) -> (f: ResizeFilter)
    ensures
        f == resize_filter_spec(source_width, source_height, target_width, target_height,
            pixelated,
        ),
{
    if pixelated {
        ResizeFilter::Nearest
    } else if source_width > target_width && source_height > target_height {
        ResizeFilter::Lanczos3
    } else {
        ResizeFilter::CatmullRom
    }
}

/// The largest sample, folded left to right from the smallest possible
/// sample value.
pub open spec fn seq_max16(s: Seq<u16>) -> u16
    decreases s.len(),
{
    if s.len() == 0 {
        0u16
    } else {
        let rest = seq_max16(s.drop_last());
        if s.last() > rest {
            s.last()
        } else {
            rest
        }
    }
}

/// The smallest sample, folded left to right from the largest possible
/// sample value.
pub open spec fn seq_min16(s: Seq<u16>) -> u16
    decreases s.len(),
{
    if s.len() == 0 {
        0xffffu16
    } else {
        let rest = seq_min16(s.drop_last());
        if s.last() < rest {
            s.last()
        } else {
            rest
        }
    }
}

/// Every sample lies between the folded minimum and maximum.
pub proof fn lemma_minmax16_bounds(s: Seq<u16>)
    ensures
        forall|k: int| 0 <= k < s.len() ==> seq_min16(s) <= #[trigger] s[k] <= seq_max16(s),
    decreases s.len(),
{
    if s.len() > 0 {
        lemma_minmax16_bounds(s.drop_last());
        assert forall|k: int| 0 <= k < s.len() implies seq_min16(s) <= #[trigger] s[k]
            <= seq_max16(s) by {
            if k < s.len() - 1 {
                assert(s.drop_last()[k] == s[k]);
            } else {
                assert(s[k] == s.last());
            }
        }
    }
}

/// One sample rescaled to the radius range: the affine map that takes the
/// grid's extreme samples to `new_min` and `new_max` (swapped when
/// `inverted`), with the quotient truncated.
pub open spec fn rescale_value(
    x: u16,
    lo: u16,
    hi: u16,
    inverted: bool,
    new_min: i64,
    new_max: i64,
) -> int {
    if inverted {
        new_min + (hi - x) * (new_max - new_min) / (hi - lo)
    } else {
        new_min + (x - lo) * (new_max - new_min) / (hi - lo)
    }
}

/// The whole grid rescaled: solid-color input (all samples equal) becomes
/// the fallback half-unit radius everywhere; otherwise each sample maps
/// through `rescale_value` against the grid's own extremes.
pub open spec fn rescale_seq(s: Seq<u16>, inverted: bool, new_min: i64, new_max: i64) -> Seq<i64> {
    if seq_min16(s) == seq_max16(s) {
        Seq::new(s.len(), |k: int| HALF_UNIT)
    } else {
        Seq::new(
            s.len(),
            |k: int| rescale_value(s[k], seq_min16(s), seq_max16(s), inverted, new_min, new_max)
                as i64,
        )
    }
}

/// Rescale raw luminance samples into fixed-point radii in
/// `new_min ..= new_max` (every returned radius is positive and bounded,
/// ready for the radius grid). A solid-color grid has no contrast to
/// stretch and falls back to a half-unit radius everywhere.
pub fn rescale_min_max(input_vector: Vec<u16>, inverted: bool, new_min: i64, new_max: i64) -> (r:
    Vec<i64>)
    requires
        0 < new_min <= new_max <= DIM_LIMIT,
    ensures
        r@ == rescale_seq(input_vector@, inverted, new_min, new_max),
        r@.len() == input_vector@.len(),
        forall|k: int| 0 <= k < r@.len() ==> 0 < #[trigger] r@[k] <= DIM_LIMIT,
{
    if input_vector.len() == 0 {
        let empty: Vec<i64> = Vec::new();
        proof {
            assert(empty@ =~= rescale_seq(input_vector@, inverted, new_min, new_max));
        }
        return empty;
    }
    let mut global_max: u16 = 0;
    let mut global_min: u16 = 0xffff;
    let mut k: usize = 0;
    while k < input_vector.len()
        invariant
            0 <= k <= input_vector@.len(),
            global_max == seq_max16(input_vector@.take(k as int)),
            global_min == seq_min16(input_vector@.take(k as int)),
        decreases input_vector@.len() - k,
    {
        let sample = input_vector[k];
        proof {
            assert(input_vector@.take(k + 1).drop_last() =~= input_vector@.take(k as int));
            assert(input_vector@.take(k + 1).last() == input_vector@[k as int]);
        }
        if sample > global_max {
            global_max = sample;
        }
        if sample < global_min {
            global_min = sample;
        }
        k = k + 1;
    }
    proof {
        assert(input_vector@.take(input_vector@.len() as int) =~= input_vector@);
        lemma_minmax16_bounds(input_vector@);
    }
    let mut output: Vec<i64> = Vec::new();
    if global_min != global_max {
        proof {
            assert(seq_min16(input_vector@) <= input_vector@[0] <= seq_max16(input_vector@));
        }
        let span: u64 = (global_max - global_min) as u64;
        let delta: u64 = (new_max - new_min) as u64;
        let mut k: usize = 0;
        while k < input_vector.len()
            invariant
                0 <= k <= input_vector@.len(),
                global_max == seq_max16(input_vector@),
                global_min == seq_min16(input_vector@),
                global_min < global_max,
                span == global_max - global_min,
                delta == new_max - new_min,
                output@.len() == k,
                forall|m: int|
                    0 <= m < k ==> #[trigger] output@[m] == rescale_value(
                        input_vector@[m],
                        global_min,
                        global_max,
                        inverted,
                        new_min,
                        new_max,
                    ),
                forall|m: int| 0 <= m < k ==> 0 < #[trigger] output@[m] <= DIM_LIMIT,
            decreases input_vector@.len() - k,
        {
            let sample = input_vector[k];
            let offset: u64 = if inverted {
                (global_max - sample) as u64
            } else {
                (sample - global_min) as u64
            };
            proof {
                lemma_mul_abs_bound(offset as int, delta as int, 0xffff, 0x8000_0000);
                lemma_mul_nonnegative(offset as int, delta as int);
                lemma_mul_inequality(offset as int, span as int, delta as int);
                lemma_div_pos_is_pos(offset as int * delta as int, span as int);
                lemma_multiply_divide_le(offset as int * delta as int, span as int, delta as int);
            }
            let scaled: u64 = (offset * delta) / span;
            let value: i64 = new_min + (scaled as i64);
            output.push(value);
            k = k + 1;
        }
        proof {
            assert(output@ =~= rescale_seq(input_vector@, inverted, new_min, new_max));
        }
    } else {
        let mut k: usize = 0;
        while k < input_vector.len()
            invariant
                0 <= k <= input_vector@.len(),
                output@.len() == k,
                forall|m: int| 0 <= m < k ==> #[trigger] output@[m] == HALF_UNIT,
            decreases input_vector@.len() - k,
        {
            output.push(HALF_UNIT);
            k = k + 1;
        }
        proof {
            assert(output@ =~= rescale_seq(input_vector@, inverted, new_min, new_max));
        }
    }
    output
}

/// Turn a decoded image into the radius grid: its 16-bit luminance
/// samples, stretched to span `new_min ..= new_max`.
pub fn image_to_vector(
    image: image::DynamicImage,
    inverted: bool,
    new_min: i64,
    new_max: i64,
) -> (r: Vec<i64>)
    requires
        0 < new_min <= new_max <= DIM_LIMIT,
    ensures
        r@ == rescale_seq(image_luma16_of(image), inverted, new_min, new_max),
        r@.len() == image_width_of(image) * image_height_of(image),
        forall|k: int| 0 <= k < r@.len() ==> 0 < #[trigger] r@[k] <= DIM_LIMIT,
{
    let samples = to_luma16_vector(image);
    rescale_min_max(samples, inverted, new_min, new_max)
}

} // verus!
