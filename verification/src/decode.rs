//! Loading an image from the contents of a file, by way of the `image`
//! crate's decoders.

use crate::bitmap::{Bitmap, Image};
use vstd::prelude::*;
use vstd::string::StringExecFns;

verus! {

/// The `image` crate's error type. Nothing is known here of a value of it.
#[verifier::external_type_specification]
#[verifier::external_body]
pub struct ExImageError(image::ImageError);

/// An image could not be loaded. The message says why, in the decoder's own
/// words where the decoder refused the file.
#[derive(Debug)]
pub struct DecodeError {
    pub message: String,
}

/// What the `image` crate decodes from a file named `input_path` that holds
/// `contents`: width, height and the channel values as RGBA with 8 bits to
/// the channel, or nothing where it refuses the file.
pub uninterp spec fn decoded(input_path: Seq<char>, contents: Seq<u8>) -> Option<
    (u32, u32, Seq<u8>),
>;

/// The image that a file named `input_path` with these `contents` holds: what
/// the decoder makes of it, be it with or without pixels.
pub open spec fn loaded(input_path: Seq<char>, contents: Seq<u8>) -> Option<Bitmap> {
    match decoded(input_path, contents) {
        Some((width, height, data)) => Some(
            Bitmap { width: width as nat, height: height as nat, data },
        ),
        None => None,
    }
}

/// Decodes `contents` with `image::load_from_memory_with_format`, in the
/// format that `image::ImageFormat::from_path` reads off the file's name, and
/// takes the decoded image as RGBA with 8 bits to the channel
/// (`DynamicImage::into_rgba8`).
///
/// Trusted: whether the file is decoded, and to what, is a function of the
/// name and the contents alone, and a decoded image comes with exactly four
/// channel values for each of its `width * height` pixels, which are none
/// where a dimension is zero. Nothing is claimed of the error.
#[verifier::external_body]
fn decode_rgba8(input_path: &str, contents: &[u8]) -> (result: Result<
    (u32, u32, Vec<u8>),
    image::ImageError,
>)
    ensures
        match result {
            Ok((width, height, pixels)) => {
                &&& decoded(input_path@, contents@) == Some((width, height, pixels@))
                &&& pixels.len() == 4 * width * height
            },
            Err(_) => decoded(input_path@, contents@) is None,
        },
{
    let format = image::ImageFormat::from_path(input_path)?;
    let rgba = image::load_from_memory_with_format(contents, format)?.into_rgba8();
    Ok((rgba.width(), rgba.height(), rgba.into_raw()))
}

/// The text of an `image::ImageError`, as its `Display` impl writes it.
/// Nothing is claimed of the result.
#[verifier::external_body]
fn error_text(error: &image::ImageError) -> String {
    error.to_string()
}

/// Decodes the image that a file holds. `input_path` is the file's name,
/// whose extension tells the format, and `contents` are the file's bytes.
///
/// Whether the bytes are an image is for the decoder to say: the image is
/// returned exactly when the decoder gives one, as the decoder gives it, and
/// the error carries the decoder's message.
pub fn load_image(input_path: &str, contents: &[u8]) -> (result: Result<Image, DecodeError>)
    ensures
        match result {
            Ok(image) => loaded(input_path@, contents@) == Some(image@),
            Err(_) => decoded(input_path@, contents@) is None,
        },
{
    match decode_rgba8(input_path, contents) {
        Ok((width, height, pixels)) => match Image::new(width, height, pixels) {
            Some(image) => Ok(image),
            None => {
                // Not reached: the decoder's data has the length that its
                // dimensions ask for.
                assert(false);
                Err(
                    DecodeError {
                        message: String::from_str("The image data does not match its dimensions"),
                    },
                )
            },
        },
        Err(error) => Err(DecodeError { message: error_text(&error) }),
    }
}

} // verus!
