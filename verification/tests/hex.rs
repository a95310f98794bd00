use chromix::color::{is_hex_value, ParseHexError, Srgb};

#[test]
fn from_hex_full_form() {
    assert_eq!(Srgb::from_hex("3b82f6"), Ok(Srgb::new(0x3b, 0x82, 0xf6)));
    assert_eq!(Srgb::from_hex("#3B82F6"), Ok(Srgb::new(0x3b, 0x82, 0xf6)));
}

#[test]
fn from_hex_shorthand_doubles_digits() {
    assert_eq!(Srgb::from_hex("f0a"), Ok(Srgb::new(0xff, 0x00, 0xaa)));
    assert_eq!(Srgb::from_hex("f0a"), Srgb::from_hex("ff00aa"));
}

#[test]
fn from_hex_ignores_alpha() {
    assert_eq!(Srgb::from_hex("#f0a8"), Ok(Srgb::new(0xff, 0x00, 0xaa)));
    assert_eq!(Srgb::from_hex("3b82f680"), Ok(Srgb::new(0x3b, 0x82, 0xf6)));
}

#[test]
fn from_hex_bad_length() {
    assert_eq!(Srgb::from_hex("12345"), Err(ParseHexError::BadLength(5)));
    assert_eq!(Srgb::from_hex(""), Err(ParseHexError::BadLength(0)));
    assert_eq!(Srgb::from_hex("#"), Err(ParseHexError::BadLength(0)));
    assert_eq!(Srgb::from_hex("1234567"), Err(ParseHexError::BadLength(7)));
}

#[test]
fn from_hex_bad_digit_before_length() {
    assert_eq!(Srgb::from_hex("12g"), Err(ParseHexError::BadDigit('g')));
    assert_eq!(Srgb::from_hex("zz"), Err(ParseHexError::BadDigit('z')));
    assert_eq!(Srgb::from_hex("##fff"), Err(ParseHexError::BadDigit('#')));
    assert_eq!(Srgb::from_hex("ffé"), Err(ParseHexError::BadDigit('é')));
}

#[test]
fn to_hex_is_lowercase_six_digits() {
    assert_eq!(Srgb::new(0x3b, 0x82, 0xf6).to_hex(), "#3b82f6");
    assert_eq!(Srgb::new(0, 0, 0).to_hex(), "#000000");
    assert_eq!(Srgb::new(255, 10, 171).to_hex(), "#ff0aab");
}

#[test]
fn hex_roundtrip_on_samples() {
    for (r, g, b) in [(0u8, 0u8, 0u8), (255, 255, 255), (1, 128, 254), (0x10, 0xb9, 0x81)] {
        let c = Srgb::new(r, g, b);
        assert_eq!(Srgb::from_hex(&c.to_hex()), Ok(c));
    }
}

#[test]
fn error_messages() {
    assert_eq!(ParseHexError::BadLength(5).message(), "expected 3, 6, or 8 hex digits, got 5");
    assert_eq!(ParseHexError::BadLength(12).message(), "expected 3, 6, or 8 hex digits, got 12");
    assert_eq!(ParseHexError::BadDigit('g').message(), "invalid hex digit 'g'");
    assert_eq!(ParseHexError::BadLength(0).message(), "expected 3, 6, or 8 hex digits, got 0");
    assert_eq!(ParseHexError::BadLength(1000).message(), "expected 3, 6, or 8 hex digits, got 1000");
}

#[test]
fn hex_value_words() {
    assert!(is_hex_value("3b82f6"));
    assert!(is_hex_value("\"#3b82f6\""));
    assert!(is_hex_value("f00"));
    assert!(is_hex_value("#3b82f680"));
    assert!(!is_hex_value("f00a"));
    assert!(!is_hex_value("chromix"));
    assert!(!is_hex_value("\"\""));
    assert!(!is_hex_value("12345"));
    assert!(!is_hex_value("##fff"));
}
