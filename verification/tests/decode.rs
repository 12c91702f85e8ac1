use jpg_to_ascii::{load_image, Rgb};
use std::io::Cursor;

fn encoded(width: u32, height: u32, pixels: Vec<u8>, format: image::ImageFormat) -> Vec<u8> {
    let picture = image::RgbaImage::from_raw(width, height, pixels).unwrap();
    let mut bytes = Vec::new();
    picture.write_to(&mut Cursor::new(&mut bytes), format).unwrap();
    bytes
}

#[test]
fn png_is_loaded_pixel_for_pixel() {
    let pixels = vec![
        255, 0, 0, 255, 0, 255, 0, 255, 0, 0, 255, 255, //
        10, 20, 30, 40, 50, 60, 70, 80, 90, 100, 110, 120,
    ];
    let bytes = encoded(3, 2, pixels.clone(), image::ImageFormat::Png);
    let image = load_image("picture.png", &bytes).unwrap();
    assert_eq!(image.width(), 3);
    assert_eq!(image.height(), 2);
    assert_eq!(image.pixels(), &pixels);
    assert_eq!(image.rgb(1, 1), Rgb { red: 50, green: 60, blue: 70 });
}

#[test]
fn grey_image_is_loaded_as_rgba() {
    let grey = image::GrayImage::from_raw(2, 1, vec![7, 200]).unwrap();
    let mut bytes = Vec::new();
    grey.write_to(&mut Cursor::new(&mut bytes), image::ImageFormat::Png).unwrap();
    let image = load_image("grey.png", &bytes).unwrap();
    assert_eq!(image.pixels(), &vec![7, 7, 7, 255, 200, 200, 200, 255]);
}

#[test]
fn jpeg_is_loaded_with_its_dimensions() {
    let picture = image::RgbImage::from_raw(8, 8, vec![128; 8 * 8 * 3]).unwrap();
    let mut bytes = Vec::new();
    picture.write_to(&mut Cursor::new(&mut bytes), image::ImageFormat::Jpeg).unwrap();
    let image = load_image("photo.jpg", &bytes).unwrap();
    assert_eq!(image.width(), 8);
    assert_eq!(image.height(), 8);
    assert_eq!(image.pixels().len(), 8 * 8 * 4);
}

#[test]
fn extension_is_read_without_regard_to_case() {
    let bytes = encoded(1, 1, vec![1, 2, 3, 4], image::ImageFormat::Png);
    assert!(load_image("PICTURE.PNG", &bytes).is_ok());
}

#[test]
fn the_extension_decides_the_format() {
    let bytes = encoded(1, 1, vec![1, 2, 3, 4], image::ImageFormat::Png);
    assert!(load_image("picture.png", &bytes).is_ok());
    assert!(load_image("picture.jpg", &bytes).is_err());
}

#[test]
fn unknown_extension_is_refused_in_the_decoder_s_words() {
    let bytes = encoded(1, 1, vec![1, 2, 3, 4], image::ImageFormat::Png);
    let error = load_image("picture.xyz", &bytes).unwrap_err();
    let theirs = image::ImageFormat::from_path("picture.xyz").unwrap_err();
    assert_eq!(error.message, theirs.to_string());
    assert!(!error.message.is_empty());
}

#[test]
fn name_without_extension_is_refused() {
    let bytes = encoded(1, 1, vec![1, 2, 3, 4], image::ImageFormat::Png);
    assert!(load_image("picture", &bytes).is_err());
}

#[test]
fn bytes_that_are_no_image_are_refused_in_the_decoder_s_words() {
    let bytes = b"this is no image".to_vec();
    let error = load_image("picture.png", &bytes).unwrap_err();
    let theirs =
        image::load_from_memory_with_format(&bytes, image::ImageFormat::Png).unwrap_err();
    assert_eq!(error.message, theirs.to_string());
}

#[test]
fn empty_file_is_refused() {
    assert!(load_image("picture.png", &[]).is_err());
}

#[test]
fn truncated_file_is_refused() {
    let bytes = encoded(16, 16, vec![9; 16 * 16 * 4], image::ImageFormat::Png);
    assert!(load_image("picture.png", &bytes[..bytes.len() / 2]).is_err());
}

#[test]
fn picture_without_rows_is_loaded_as_it_is() {
    let image = load_image("flat.pgm", b"P5\n5 0\n255\n").unwrap();
    assert_eq!((image.width(), image.height()), (5, 0));
    assert!(image.pixels().is_empty());
}

#[test]
fn picture_without_columns_is_loaded_as_it_is() {
    let image = load_image("thin.ppm", b"P6\n0 5\n255\n").unwrap();
    assert_eq!((image.width(), image.height()), (0, 5));
    assert!(image.pixels().is_empty());
}

#[test]
fn picture_without_rows_and_columns_is_loaded_as_it_is() {
    let image = load_image("none.pgm", b"P5\n0 0\n255\n").unwrap();
    assert_eq!((image.width(), image.height()), (0, 0));
    assert!(image.pixels().is_empty());
}

#[test]
fn radiance_picture_without_rows_is_loaded_as_it_is() {
    let bytes = b"#?RADIANCE\nFORMAT=32-bit_rle_rgbe\n\n-Y 0 +X 5\n";
    let image = load_image("flat.hdr", bytes).unwrap();
    assert_eq!((image.width(), image.height()), (5, 0));
    assert!(image.pixels().is_empty());
}

#[test]
fn small_portable_pixmap_is_loaded() {
    let image = load_image("two.ppm", b"P6\n2 1\n255\n\x01\x02\x03\x04\x05\x06").unwrap();
    assert_eq!((image.width(), image.height()), (2, 1));
    assert_eq!(image.pixels(), &vec![1, 2, 3, 255, 4, 5, 6, 255]);
}
