//! The whole conversion: load, rasterize, colour.

use crate::bitmap::{Bitmap, Image};
use crate::decode::{load_image, loaded, DecodeError};
use crate::paint::{colored_ascii, is_colored_ascii};
use crate::raster::{ascii_art, grid_fits, image_to_ascii, rasterized, RasterError};
use vstd::prelude::*;
use vstd::string::StringExecFns;

verus! {

/// Width of the grid where none is asked for.
pub const DEFAULT_WIDTH: u32 = 64;

/// What a conversion is asked to do.
#[derive(Debug)]
pub struct Args {
    /// Name of the image file.
    pub input: String,
    /// Number of columns of the grid.
    pub width: u32,
}

/// Why a conversion failed.
#[derive(Debug)]
pub enum AsciiError {
    /// The image could not be loaded.
    Decode(DecodeError),
    /// The image could not be rasterized.
    Raster(RasterError),
}

impl AsciiError {
    /// The text that tells a user of the failure.
    pub fn message(&self) -> (text: String)
        ensures
            text@ == match *self {
                AsciiError::Decode(error) => error.message@,
                AsciiError::Raster(RasterError::ZeroWidth) => "The width must not be zero"@,
                AsciiError::Raster(RasterError::TooLarge) => "The grid is too large"@,
            },
    {
        match self {
            AsciiError::Decode(error) => error.message.clone(),
            AsciiError::Raster(RasterError::ZeroWidth) => String::from_str(
                "The width must not be zero",
            ),
            AsciiError::Raster(RasterError::TooLarge) => String::from_str("The grid is too large"),
        }
    }
}

/// Whether `out` is the terminal output for `bitmap` at `width` columns: the
/// grid can be built, and `out` colours its text with the pixels of the same
/// image.
pub open spec fn is_rendering(out: Seq<char>, bitmap: Bitmap, width: u32) -> bool {
    &&& bitmap.wf()
    &&& width > 0
    &&& grid_fits(bitmap, width)
    &&& is_colored_ascii(out, ascii_art(bitmap, width), bitmap)
}

/// Converts a decoded image to coloured ASCII art of `width` columns, ready
/// to be written to a terminal.
pub fn render(image: &Image, width: u32) -> (result: Result<String, RasterError>)
    ensures
        match result {
            Ok(out) => is_rendering(out@, image@, width),
            Err(error) => rasterized(image@, width) == Err::<Seq<char>, RasterError>(error),
        },
{
    proof {
        use_type_invariant(image);
    }
    match image_to_ascii(image, width) {
        Ok(art) => Ok(colored_ascii(art.as_str(), image)),
        Err(error) => Err(error),
    }
}

/// Converts the image file named `args.input`, whose bytes are `contents`,
/// to coloured ASCII art of `args.width` columns, ready to be written to a
/// terminal: the file is decoded, the image rasterized, and the text
/// coloured with the pixels of the same image.
///
/// The failures come in this order: a file that holds no image, then a width
/// of zero, then a grid too large.
pub fn run(args: &Args, contents: &[u8]) -> (result: Result<String, AsciiError>)
    ensures
        match (loaded(args.input@, contents@), result) {
            (Some(bitmap), Ok(out)) => is_rendering(out@, bitmap, args.width),
            (Some(bitmap), Err(AsciiError::Raster(error))) => rasterized(bitmap, args.width) == Err::<
                Seq<char>,
                RasterError,
            >(error),
            (None, Err(AsciiError::Decode(_))) => true,
            _ => false,
        },
{
    let image = match load_image(args.input.as_str(), contents) {
        Ok(image) => image,
        Err(error) => {
            return Err(AsciiError::Decode(error));
        },
    };
    match render(&image, args.width) {
        Ok(out) => Ok(out),
        Err(error) => Err(AsciiError::Raster(error)),
    }
}

} // verus!
