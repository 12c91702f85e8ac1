//! Decoded images: a rectangle of RGBA pixels with 8 bits to the channel.

use vstd::prelude::*;

verus! {

/// A colour without its alpha channel.
#[derive(Clone, Copy, Debug, PartialEq, Eq)]
pub struct Rgb {
    pub red: u8,
    pub green: u8,
    pub blue: u8,
}

/// What an image is, mathematically: its dimensions and its channel values,
/// row after row from the top, four values to the pixel.
pub struct Bitmap {
    pub width: nat,
    pub height: nat,
    pub data: Seq<u8>,
}

impl Bitmap {
    /// Both dimensions fit the 32 bits that image dimensions take, and the
    /// data holds exactly the pixels of the rectangle, which are no more
    /// than a vector can hold. Either dimension may be zero: the image then
    /// has no pixels and its data is empty.
    pub open spec fn wf(self) -> bool {
        &&& self.width <= u32::MAX
        &&& self.height <= u32::MAX
        &&& self.data.len() == 4 * self.width * self.height
        &&& self.data.len() <= usize::MAX
    }

    /// Whether the image has no pixels, for want of columns or of rows.
    pub open spec fn is_empty(self) -> bool {
        self.width == 0 || self.height == 0
    }

    /// Whether `(x, y)` names a pixel of the image.
    pub open spec fn in_bounds(self, x: int, y: int) -> bool {
        0 <= x < self.width && 0 <= y < self.height
    }

    /// Where the pixel at column `x` of row `y` starts in the data.
    pub open spec fn offset(self, x: int, y: int) -> int {
        4 * (y * self.width + x)
    }

    /// The colour of the pixel at column `x` of row `y`, alpha dropped.
    pub open spec fn rgb(self, x: int, y: int) -> Rgb {
        Rgb {
            red: self.data[self.offset(x, y)],
            green: self.data[self.offset(x, y) + 1],
            blue: self.data[self.offset(x, y) + 2],
        }
    }
}

/// A decoded image. Every value of this type is well formed: see
/// [`Bitmap::wf`].
#[derive(Debug)]
pub struct Image {
    pub(crate) width: u32,
    pub(crate) height: u32,
    pub(crate) pixels: Vec<u8>,
}

impl View for Image {
    type V = Bitmap;

    closed spec fn view(&self) -> Bitmap {
        Bitmap { width: self.width as nat, height: self.height as nat, data: self.pixels@ }
    }
}

impl Image {
    /// What holds of every image: its content is well formed.
    #[verifier::type_invariant]
    pub open spec fn well_formed(self) -> bool {
        self@.wf()
    }

    /// Builds an image from its dimensions and its channel values. There is
    /// an image exactly when `pixels` holds four values for each pixel, no
    /// more and no fewer; an image without columns or without rows has none.
    pub fn new(width: u32, height: u32, pixels: Vec<u8>) -> (image: Option<Image>)
        ensures
            image is Some <==> pixels.len() == 4 * width * height,
            image matches Some(img) ==> img@ == (Bitmap {
                width: width as nat,
                height: height as nat,
                data: pixels@,
            }),
    {
        assert(4 * width * height <= 4 * 0xffff_ffff * 0xffff_ffff) by (nonlinear_arith)
            requires
                width <= 0xffff_ffff,
                height <= 0xffff_ffff,
        ;
        let wanted: u128 = 4 * (width as u128) * (height as u128);
        if pixels.len() as u128 != wanted {
            return None;
        }
        Some(Image { width, height, pixels })
    }

    /// Number of pixel columns.
    pub fn width(&self) -> (width: u32)
        ensures
            width == self@.width,
    {
        self.width
    }

    /// Number of pixel rows.
    pub fn height(&self) -> (height: u32)
        ensures
            height == self@.height,
    {
        self.height
    }

    /// The channel values, row after row, four to the pixel.
    pub fn pixels(&self) -> (pixels: &Vec<u8>)
        ensures
            pixels@ == self@.data,
    {
        &self.pixels
    }

    /// The colour of the pixel at column `x` of row `y`.
    pub fn rgb(&self, x: u32, y: u32) -> (color: Rgb)
        requires
            self@.in_bounds(x as int, y as int),
        ensures
            color == self@.rgb(x as int, y as int),
    {
        proof {
            use_type_invariant(self);
            lemma_offset_in_data(self@, x as int, y as int);
        }
        let start: usize = 4 * ((y as usize) * (self.width as usize) + (x as usize));
        Rgb { red: self.pixels[start], green: self.pixels[start + 1], blue: self.pixels[start + 2] }
    }
}

/// The four channel values of a pixel inside the image lie inside the data.
pub proof fn lemma_offset_in_data(bitmap: Bitmap, x: int, y: int)
    requires
        bitmap.wf(),
        bitmap.in_bounds(x, y),
    ensures
        0 <= bitmap.offset(x, y),
        bitmap.offset(x, y) + 4 <= bitmap.data.len(),
        0 <= y * bitmap.width <= y * bitmap.width + x < bitmap.width * bitmap.height,
        4 * (bitmap.width * bitmap.height) == bitmap.data.len(),
{
    let w = bitmap.width as int;
    let h = bitmap.height as int;
    assert(y * w + x < w * h && 0 <= y * w) by (nonlinear_arith)
        requires
            0 <= x < w,
            0 <= y < h,
    ;
    assert(4 * (w * h) == 4 * w * h) by (nonlinear_arith);
}

} // verus!
