use mask_generator::color::{Color, ColorError};
use mask_generator::digits::decimal_string;

#[test]
fn parses_with_and_without_hash() {
    let white = Color::new(255, 255, 255);
    assert_eq!(Color::parse("#ffffff"), Ok(white));
    assert_eq!(Color::parse("ffffff"), Ok(white));
}

#[test]
fn parses_either_case() {
    assert_eq!(Color::parse("#1aB2c3"), Ok(Color::new(0x1a, 0xb2, 0xc3)));
    assert_eq!(Color::parse("ABCDEF"), Ok(Color::new(0xab, 0xcd, 0xef)));
    assert_eq!(Color::parse("000000"), Ok(Color::new(0, 0, 0)));
}

#[test]
fn strips_one_hash_only() {
    assert_eq!(Color::parse("##0a0b0c"), Err(ColorError::Length));
    assert_eq!(Color::parse("##ffffff"), Err(ColorError::Length));
    assert_eq!(Color::parse("##fffff"), Err(ColorError::Digit));
    assert_eq!(Color::parse("#ffffff#"), Err(ColorError::Length));
}

#[test]
fn rejects_wrong_length() {
    assert_eq!(Color::parse("abc"), Err(ColorError::Length));
    assert_eq!(Color::parse(""), Err(ColorError::Length));
    assert_eq!(Color::parse("#"), Err(ColorError::Length));
    assert_eq!(Color::parse("#fffffff"), Err(ColorError::Length));
    assert_eq!(Color::parse("ffffff#"), Err(ColorError::Length));
}

#[test]
fn rejects_non_hex() {
    assert_eq!(Color::parse("ggffff"), Err(ColorError::Digit));
    assert_eq!(Color::parse("#12345z"), Err(ColorError::Digit));
    assert_eq!(Color::parse("ff ff "), Err(ColorError::Digit));
    assert_eq!(Color::parse("ab\u{e9}cd"), Err(ColorError::Digit));
}

#[test]
fn length_is_checked_before_digits() {
    assert_eq!(Color::parse("zz"), Err(ColorError::Length));
}

#[test]
fn from_hex_bytes_agrees_with_parse() {
    assert_eq!(Color::from_hex_bytes(b"#ff8000"), Ok(Color::new(255, 128, 0)));
    assert_eq!(Color::from_hex_bytes(&[0x23, 0xff, 0x30]), Err(ColorError::Length));
    assert_eq!(Color::from_hex_bytes(&[0x30, 0x30, 0x30, 0x30, 0x30, 0x80]), Err(ColorError::Digit));
}

#[test]
fn hex_with_alpha_of_red() {
    assert_eq!(Color::new(255, 0, 0).hex_with_alpha(0x20), "#ff000020");
}

#[test]
fn hex_with_alpha_pads_and_uses_lower_case() {
    assert_eq!(Color::new(1, 0xab, 0x0f).hex_with_alpha(0), "#01ab0f00");
    assert_eq!(Color::new(0xff, 0xff, 0xff).hex_with_alpha(0xff), "#ffffffff");
}

#[test]
fn notation_reads_back() {
    let c = Color::new(18, 52, 86);
    let text = c.hex_with_alpha(255);
    assert_eq!(Color::parse(&text[..7]), Ok(c));
}

#[test]
fn decimal_strings() {
    assert_eq!(decimal_string(0), "0");
    assert_eq!(decimal_string(7), "7");
    assert_eq!(decimal_string(10), "10");
    assert_eq!(decimal_string(4294967295), "4294967295");
}

#[test]
fn signed_decimal_text() {
    let mut s = String::from("x=");
    mask_generator::digits::push_decimal(&mut s, -2147483648);
    assert_eq!(s, "x=-2147483648");
    let mut t = String::new();
    mask_generator::digits::push_decimal(&mut t, 0);
    mask_generator::digits::push_decimal(&mut t, -7);
    mask_generator::digits::push_decimal(&mut t, 2147483647);
    assert_eq!(t, "0-72147483647");
    let mut h = String::new();
    mask_generator::digits::push_hex_pair(&mut h, 0x0a);
    mask_generator::digits::push_hex_pair(&mut h, 0xf0);
    assert_eq!(h, "0af0");
    assert_eq!(mask_generator::digits::digit_str(11), "b");
}
