use meez3d::color::{Color, ColorError};

#[test]
fn parses_six_digit_colors() {
    assert_eq!(Color::parse("#ffffff"), Ok(Color { r: 255, g: 255, b: 255, a: 255 }));
    assert_eq!(Color::parse("#00333c"), Ok(Color { r: 0x00, g: 0x33, b: 0x3c, a: 255 }));
    assert_eq!(Color::parse("00333C"), Ok(Color { r: 0x00, g: 0x33, b: 0x3c, a: 255 }));
}

#[test]
fn parses_eight_digit_colors_alpha_first() {
    assert_eq!(Color::parse("#7fff0000"), Ok(Color { r: 255, g: 0, b: 0, a: 0x7f }));
    assert_eq!(Color::parse("#44ffffff"), Ok(Color { r: 255, g: 255, b: 255, a: 0x44 }));
}

#[test]
fn rejects_bad_colors() {
    assert_eq!(Color::parse("#fff"), Err(ColorError::InvalidLength));
    assert_eq!(Color::parse(""), Err(ColorError::InvalidLength));
    assert_eq!(Color::parse("##ffffff"), Err(ColorError::InvalidLength));
    assert_eq!(Color::parse("#gg0000"), Err(ColorError::InvalidDigit));
    assert_eq!(Color::parse("#ffé000"), Err(ColorError::InvalidLength));
}

#[test]
fn signs_are_not_digits() {
    assert_eq!(Color::parse("+f0000"), Err(ColorError::InvalidDigit));
    assert_eq!(Color::parse("#+f0000"), Err(ColorError::InvalidDigit));
    assert_eq!(Color::parse("f+0000"), Err(ColorError::InvalidDigit));
}

#[test]
fn from_str_matches_parse() {
    let c: Color = "#102030".parse().unwrap();
    assert_eq!(c, Color { r: 0x10, g: 0x20, b: 0x30, a: 255 });
}
