use void_editor::color::{hex_to_color, hex_to_color_constructor, is_constructor_input, Rgba};

fn rgba(r: u8, g: u8, b: u8) -> Rgba {
    Rgba { r, g, b, a: 255 }
}

#[test]
fn six_digits_give_one_channel_per_pair() {
    assert_eq!(rgba(0x2c, 0x21, 0x3b), hex_to_color("#2c213B"));
    assert_eq!(rgba(0xff, 0x00, 0x10), hex_to_color("ff0010"));
}

#[test]
fn three_digits_are_doubled() {
    assert_eq!(rgba(0xff, 0xff, 0xff), hex_to_color("#fff"));
    assert_eq!(rgba(0x11, 0xaa, 0x00), hex_to_color("##1a0"));
}

#[test]
fn other_lengths_give_white() {
    assert_eq!(rgba(255, 255, 255), hex_to_color(""));
    assert_eq!(rgba(255, 255, 255), hex_to_color("#12345"));
}

#[test]
fn bad_digits_give_255_for_their_channel() {
    assert_eq!(rgba(255, 0x34, 0x56), hex_to_color("zz3456"));
    assert_eq!(rgba(0x0f, 0x34, 0x56), hex_to_color("+f3456"));
}

#[test]
fn constructor_from_six_digits() {
    assert_eq!("color_u8!(44, 33, 59, 255)", hex_to_color_constructor("2c213b"));
}

#[test]
fn constructor_from_three_digits_takes_single_digits() {
    assert_eq!("color_u8!(15, 0, 10, 255)", hex_to_color_constructor("f0a"));
    assert_eq!("color_u8!(1, 2, 3, 255)", hex_to_color_constructor("1234"));
}

#[test]
fn constructor_writes_three_digit_numbers() {
    assert_eq!("color_u8!(199, 100, 255, 255)", hex_to_color_constructor("c764ff"));
}

#[test]
fn constructor_input_is_checked() {
    assert!(is_constructor_input("2c213b"));
    assert!(is_constructor_input("fff"));
    assert!(is_constructor_input("+f0a0b"));
    assert!(!is_constructor_input("ff"));
    assert!(!is_constructor_input("2c21zz"));
    assert!(!is_constructor_input("#ff"));
}
