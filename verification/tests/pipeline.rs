use jpg_to_ascii::{
    render, run, Args, AsciiError, DecodeError, Image, RasterError, DEFAULT_WIDTH,
};
use std::io::Cursor;

fn png(width: u32, height: u32, rgba: [u8; 4]) -> Vec<u8> {
    let picture = image::RgbaImage::from_pixel(width, height, image::Rgba(rgba));
    let mut bytes = Vec::new();
    picture.write_to(&mut Cursor::new(&mut bytes), image::ImageFormat::Png).unwrap();
    bytes
}

fn painted(art: &str, code: &str) -> String {
    let mut expected = String::new();
    for ch in art.chars() {
        expected.push_str(code);
        expected.push(ch);
    }
    expected.push_str("\x1b[0m");
    expected
}

#[test]
fn default_width_is_64() {
    assert_eq!(DEFAULT_WIDTH, 64);
}

#[test]
fn run_converts_a_black_picture() {
    crossterm::style::force_color_output(true);
    let args = Args { input: String::from("black.png"), width: 4 };
    let out = run(&args, &png(10, 10, [0, 0, 0, 255])).unwrap();
    assert_eq!(out, painted("@@@@\n@@@@", "\x1b[38;2;0;0;0m"));
}

#[test]
fn run_converts_a_white_picture() {
    crossterm::style::force_color_output(true);
    let args = Args { input: String::from("white.png"), width: 4 };
    let out = run(&args, &png(10, 10, [255, 255, 255, 255])).unwrap();
    assert_eq!(out, painted("    \n    ", "\x1b[38;2;255;255;255m"));
}

#[test]
fn run_at_the_default_width() {
    crossterm::style::force_color_output(true);
    // 64 columns and round(64 * 0.55) = 35 rows, of which the first
    // 100 * 100 characters have a pixel: all of them.
    let args = Args { input: String::from("grey.png"), width: DEFAULT_WIDTH };
    let out = run(&args, &png(100, 100, [128, 128, 128, 255])).unwrap();
    let row = "*".repeat(64);
    let art = vec![row; 35].join("\n");
    assert_eq!(out, painted(&art, "\x1b[38;2;128;128;128m"));
}

#[test]
fn run_refuses_zero_width() {
    let args = Args { input: String::from("black.png"), width: 0 };
    let error = run(&args, &png(10, 10, [0, 0, 0, 255])).unwrap_err();
    assert!(matches!(error, AsciiError::Raster(RasterError::ZeroWidth)));
    assert_eq!(error.message(), "The width must not be zero");
}

#[test]
fn run_refuses_a_grid_too_large() {
    let args = Args { input: String::from("black.png"), width: u32::MAX };
    let error = run(&args, &png(1, 4, [0, 0, 0, 255])).unwrap_err();
    assert!(matches!(error, AsciiError::Raster(RasterError::TooLarge)));
    assert_eq!(error.message(), "The grid is too large");
}

#[test]
fn run_hands_on_the_decoder_s_refusal() {
    let args = Args { input: String::from("broken.png"), width: 4 };
    let error = run(&args, b"no picture at all").unwrap_err();
    let theirs = image::load_from_memory_with_format(b"no picture at all", image::ImageFormat::Png)
        .unwrap_err();
    assert!(matches!(error, AsciiError::Decode(_)));
    assert_eq!(error.message(), theirs.to_string());
}

#[test]
fn a_failed_load_comes_before_the_width_is_looked_at() {
    let args = Args { input: String::from("broken.png"), width: 0 };
    let error = run(&args, b"no picture at all").unwrap_err();
    assert!(matches!(error, AsciiError::Decode(_)));
}

#[test]
fn decode_error_keeps_its_message() {
    let error = AsciiError::Decode(DecodeError { message: String::from("No such file") });
    assert_eq!(error.message(), "No such file");
}

#[test]
fn render_is_rasterizing_then_colouring() {
    crossterm::style::force_color_output(true);
    let image = Image::new(2, 2, vec![255; 16]).unwrap();
    let art = jpg_to_ascii::image_to_ascii(&image, 2).unwrap();
    assert_eq!(render(&image, 2), Ok(jpg_to_ascii::colored_ascii(&art, &image)));
    assert_eq!(render(&image, 0), Err(RasterError::ZeroWidth));
}

#[test]
fn run_on_a_picture_without_rows_writes_only_the_reset() {
    crossterm::style::force_color_output(true);
    let args = Args { input: String::from("flat.pgm"), width: 4 };
    assert_eq!(run(&args, b"P5\n5 0\n255\n").unwrap(), "\x1b[0m");
}

#[test]
fn run_on_a_picture_without_rows_and_columns_writes_only_the_reset() {
    crossterm::style::force_color_output(true);
    let args = Args { input: String::from("none.pgm"), width: DEFAULT_WIDTH };
    assert_eq!(run(&args, b"P5\n0 0\n255\n").unwrap(), "\x1b[0m");
}

#[test]
fn run_on_a_picture_with_rows_but_without_columns_is_refused() {
    let args = Args { input: String::from("thin.pgm"), width: 4 };
    let error = run(&args, b"P5\n0 5\n255\n").unwrap_err();
    assert!(matches!(error, AsciiError::Raster(RasterError::TooLarge)));
}

#[test]
fn run_fails_only_where_the_decoder_or_the_grid_does() {
    crossterm::style::force_color_output(true);
    let args = Args { input: String::from("flat.pgm"), width: 0 };
    let error = run(&args, b"P5\n5 0\n255\n").unwrap_err();
    assert!(matches!(error, AsciiError::Raster(RasterError::ZeroWidth)));
}

#[test]
fn render_of_an_image_without_pixels_is_only_the_reset() {
    crossterm::style::force_color_output(true);
    let flat = Image::new(5, 0, vec![]).unwrap();
    assert_eq!(render(&flat, 4), Ok(String::from("\x1b[0m")));
    let none = Image::new(0, 0, vec![]).unwrap();
    assert_eq!(render(&none, 4), Ok(String::from("\x1b[0m")));
    let thin = Image::new(0, 5, vec![]).unwrap();
    assert_eq!(render(&thin, 4), Err(RasterError::TooLarge));
}
