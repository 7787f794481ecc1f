use colorgen::color::{Color, ParseError};

const COLOR1_HEX: &'static str = "A0E7E1";
const COLOR1: Color = Color { r: 160, g: 231, b: 225, a: None };

const COLOR2_HEX: &'static str = "480C7AFF";
const COLOR2: Color = Color { r: 72, g: 12, b: 122, a: Some(255) };

#[test]
fn color_display() {
    // check if hex formatting is working
    assert_eq!(COLOR1.to_hex(), COLOR1_HEX.to_lowercase());
    assert_eq!(COLOR2.to_hex(), COLOR2_HEX.to_lowercase());
}

#[test]
fn color_hex_parsing() {
    // test hex parsing with and without #
    assert_eq!(Color::from_hex(format!("#{}", COLOR1_HEX).as_str()), Ok(COLOR1));
    assert_eq!(Color::from_hex(COLOR1_HEX), Ok(COLOR1));

    assert_eq!(Color::from_hex(format!("#{}", COLOR2_HEX).as_str()), Ok(COLOR2));
    assert_eq!(Color::from_hex(COLOR2_HEX), Ok(COLOR2));
}

#[test]
fn six_digit_roundtrip_lowercases() {
    assert_eq!(Color::from_hex("#AbCdEf").unwrap().to_hex(), "abcdef");
    assert_eq!(Color::from_hex("000000").unwrap().to_hex(), "000000");
    assert_eq!(Color::from_hex("FFFFFF").unwrap().to_hex(), "ffffff");
    assert_eq!(Color::from_hex("#AbCdEf").unwrap().a, None);
}

#[test]
fn eight_digit_roundtrip_lowercases() {
    assert_eq!(Color::from_hex("#AbCdEf01").unwrap().to_hex(), "abcdef01");
    assert_eq!(Color::from_hex("00000000").unwrap().to_hex(), "00000000");
    let c = Color::from_hex("FFFFFF80").unwrap();
    assert_eq!(c.a, Some(128));
    assert_eq!(c.to_hex(), "ffffff80");
}

#[test]
fn invalid_hex_is_rejected() {
    // wrong digit counts
    assert_eq!(Color::from_hex(""), Err(ParseError));
    assert_eq!(Color::from_hex("#"), Err(ParseError));
    assert_eq!(Color::from_hex("abcde"), Err(ParseError));
    assert_eq!(Color::from_hex("abcdef0"), Err(ParseError));
    assert_eq!(Color::from_hex("abcdef012"), Err(ParseError));
    // non-hex characters
    assert_eq!(Color::from_hex("zzzzzz"), Err(ParseError));
    assert_eq!(Color::from_hex("abcdeg"), Err(ParseError));
    // only one leading # is stripped
    assert_eq!(Color::from_hex("##aabbcc"), Err(ParseError));
    assert_eq!(Color::from_hex("aabbcc#"), Err(ParseError));
}
