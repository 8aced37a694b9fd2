use hex_dungeon::color::Color;
use hex_dungeon::color::ColorError;

fn channels(color: &Color) -> (u8, u8, u8, u8) {
    (color.r(), color.g(), color.b(), color.a())
}

#[test]
fn three_bytes_are_an_opaque_color() {
    let color = Color::from_hex_str("#1a2B3c");
    assert_eq!(channels(&color), (0x1a, 0x2b, 0x3c, 0xff));
    assert_eq!(Color::parse("#000000").map(|c| channels(&c)), Ok((0, 0, 0, 0xff)));
    assert_eq!(Color::parse("#FFFFFF").map(|c| channels(&c)), Ok((255, 255, 255, 255)));
}

#[test]
fn a_fourth_byte_is_the_alpha() {
    let color = Color::from_hex_str("#0a141e28");
    assert_eq!(channels(&color), (10, 20, 30, 40));
    assert_eq!(Color::parse("#ffEEdd00"), Ok(Color::new(0xff, 0xee, 0xdd, 0)));
}

#[test]
fn a_short_text_is_no_color() {
    assert_eq!(Color::parse(""), Err(ColorError::TooShort));
    assert_eq!(Color::parse("#"), Err(ColorError::TooShort));
    assert_eq!(Color::parse("#12345"), Err(ColorError::TooShort));
    assert_eq!(Color::parse("123456"), Err(ColorError::TooShort));
    // two bytes each: four bytes in all
    assert_eq!(Color::parse("#\u{e9}\u{e9}"), Err(ColorError::TooShort));
}

#[test]
fn a_text_without_the_hash_is_no_color() {
    assert_eq!(Color::parse("1234567"), Err(ColorError::MissingHash));
    assert_eq!(Color::parse(" #123456"), Err(ColorError::MissingHash));
    assert_eq!(Color::parse("\u{e9}123456"), Err(ColorError::MissingHash));
    assert_eq!(Color::parse("xyzxyzxyz"), Err(ColorError::MissingHash));
}

#[test]
fn digits_that_are_not_hex_are_no_color() {
    assert_eq!(Color::parse("#12345g"), Err(ColorError::InvalidHex));
    assert_eq!(Color::parse("#1234567"), Err(ColorError::InvalidHex));
    assert_eq!(Color::parse("#12 456"), Err(ColorError::InvalidHex));
    assert_eq!(Color::parse("#1234\u{e9}"), Err(ColorError::InvalidHex));
    assert_eq!(Color::parse("#12345/"), Err(ColorError::InvalidHex));
    assert_eq!(Color::parse("#12345:"), Err(ColorError::InvalidHex));
    assert_eq!(Color::parse("#12345@"), Err(ColorError::InvalidHex));
    assert_eq!(Color::parse("#12345G"), Err(ColorError::InvalidHex));
    assert_eq!(Color::parse("#12345`"), Err(ColorError::InvalidHex));
}

#[test]
fn more_than_four_bytes_are_no_color() {
    assert_eq!(Color::parse("#0102030405"), Err(ColorError::WrongByteCount));
    assert_eq!(Color::parse("#010203040506"), Err(ColorError::WrongByteCount));
}

#[test]
fn the_errors_are_checked_in_order() {
    // short and without a hash
    assert_eq!(Color::parse("zz"), Err(ColorError::TooShort));
    // without a hash and not hex
    assert_eq!(Color::parse("zzzzzzzz"), Err(ColorError::MissingHash));
    // not hex and too long
    assert_eq!(Color::parse("#01020304050z"), Err(ColorError::InvalidHex));
}

#[test]
fn a_color_is_written_with_lower_case_digits_and_its_alpha() {
    assert_eq!(Color::new(0x1a, 0x2b, 0x3c, 0xff).to_string(), "#1a2b3cff");
    assert_eq!(Color::new(0, 9, 10, 255).to_string(), "#00090aff");
    assert_eq!(Color::from_hex_str("#ABCDEF").to_string(), "#abcdefff");
    assert_eq!(Color::from_hex_str("#01020304").to_string(), "#01020304");
}

#[test]
fn a_color_written_out_and_read_again_is_the_same() {
    for (r, g, b, a) in [(0, 0, 0, 0), (255, 255, 255, 255), (1, 35, 69, 103), (200, 16, 15, 9)] {
        let color = Color::new(r, g, b, a);
        let text = color.to_string();
        assert_eq!(text.len(), 9);
        assert_eq!(Color::parse(&text), Ok(color));
        assert_eq!(channels(&Color::from_hex_str(&text)), (r, g, b, a));
    }
    for value in 0..=255u8 {
        let color = Color::new(value, 255 - value, value / 2, value);
        assert_eq!(Color::parse(&color.to_string()), Ok(color));
    }
}
