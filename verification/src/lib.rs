//! Turns a raster image into coloured ASCII art for a terminal.
//!
//! The image is sampled down to a grid of character cells, every cell becomes
//! the glyph of a fixed density ramp that matches its brightness, and the
//! glyphs are then interleaved with escape sequences that set the foreground
//! colour of each one.

pub mod ansi;
pub mod bitmap;
pub mod decode;
pub mod paint;
pub mod pipeline;
pub mod ramp;
pub mod raster;
pub mod sampling;
pub mod text;

pub use crate::bitmap::{Image, Rgb};
pub use crate::decode::{load_image, DecodeError};
pub use crate::paint::colored_ascii;
pub use crate::pipeline::{render, run, Args, AsciiError, DEFAULT_WIDTH};
pub use crate::ramp::{glyph, glyph_index, ASCII_CHARS};
pub use crate::raster::{glyph_grid, grid_height, image_to_ascii, RasterError};
