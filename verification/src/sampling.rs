//! Resampling and grey-scale conversion, both done by the `image` crate.
//!
//! Neither operation is verified here. Each is called through one function
//! whose contract is taken on trust, and each result is given a name so that
//! the contracts built on top can say exactly which values they work on.

use vstd::prelude::*;

verus! {

/// The channel values that `image::DynamicImage::resize_exact` produces with
/// `FilterType::Nearest` from an RGBA image of `width` by `height` pixels
/// holding `data`, when asked for `nwidth` by `nheight` pixels.
pub uninterp spec fn resized_nearest(
    data: Seq<u8>,
    width: u32,
    height: u32,
    nwidth: u32,
    nheight: u32,
) -> Seq<u8>;

/// The brightness values that `image::DynamicImage::to_luma8` produces from an
/// RGBA image of `width` by `height` pixels holding `data`.
pub uninterp spec fn luma8(data: Seq<u8>, width: u32, height: u32) -> Seq<u8>;

/// Calls `image::DynamicImage::resize_exact` with `FilterType::Nearest` on the
/// RGBA image made of `pixels`, which may be without pixels.
///
/// Trusted: the result is a function of the arguments alone and holds four
/// channel values for each of the `nwidth * nheight` pixels asked for. The
/// bounds keep the two buffers that the crate allocates, one of four 32-bit
/// floats for each of `width * nheight` pixels and one of four bytes for each
/// pixel of the result, within what a vector can hold.
#[verifier::external_body]
pub(crate) fn resize_exact_nearest(
    pixels: &Vec<u8>,
    width: u32,
    height: u32,
    nwidth: u32,
    nheight: u32,
) -> (resized: Vec<u8>)
    requires
        pixels.len() == 4 * width * height,
        16 * width * nheight <= isize::MAX,
        4 * nwidth * nheight <= isize::MAX,
    ensures
        resized@ == resized_nearest(pixels@, width, height, nwidth, nheight),
        resized.len() == 4 * nwidth * nheight,
{
    let source = image::RgbaImage::from_raw(width, height, pixels.clone()).unwrap();
    let resized = image::DynamicImage::ImageRgba8(source).resize_exact(
        nwidth,
        nheight,
        image::imageops::FilterType::Nearest,
    );
    resized.into_rgba8().into_raw()
}

/// Calls `image::DynamicImage::to_luma8` on the RGBA image made of `pixels`.
///
/// Trusted: the result is a function of the arguments alone and holds one
/// brightness value for each pixel.
#[verifier::external_body]
pub(crate) fn to_luma8(pixels: Vec<u8>, width: u32, height: u32) -> (luma: Vec<u8>)
    requires
        pixels.len() == 4 * width * height,
    ensures
        luma@ == luma8(pixels@, width, height),
        luma.len() == width * height,
{
    let source = image::RgbaImage::from_raw(width, height, pixels).unwrap();
    image::DynamicImage::ImageRgba8(source).to_luma8().into_raw()
}

} // verus!
