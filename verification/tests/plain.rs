use jpg_to_ascii::{colored_ascii, Image};

#[test]
fn colours_switched_off_leave_bare_sequences() {
    crossterm::style::force_color_output(false);
    let image = Image::new(2, 1, vec![1, 2, 3, 255, 4, 5, 6, 255]).unwrap();
    assert_eq!(colored_ascii("abc", &image), "\x1b[ma\x1b[mb\x1b[0m");
}
