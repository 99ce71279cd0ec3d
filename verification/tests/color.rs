use systemd_status_leds::color::ColorFormatError;
use systemd_status_leds::Color;

#[test]
fn test_color_from_hex() {
    let color = Color::from_hex("ff0000ff").unwrap();
    assert_eq!(color, Color::new(255, 0, 0, 255));

    let color = Color::from_hex("0x00ff00aa").unwrap();
    assert_eq!(color, Color::new(0, 255, 0, 170));

    let color = Color::from_hex("#0000ff55").unwrap();
    assert_eq!(color, Color::new(0, 0, 255, 85));
}

#[test]
fn test_color_to_hex() {
    let color = Color::new(255, 128, 64, 32);
    assert_eq!(color.to_hex(), "ff804020");
}

#[test]
fn test_color_invalid_hex() {
    assert!(Color::from_hex("ff00").is_err());
    assert!(Color::from_hex("gghhiijj").is_err());
}

#[test]
fn from_hex_reads_both_cases() {
    assert_eq!(Color::from_hex("AbCdEf09").unwrap(), Color::new(0xab, 0xcd, 0xef, 0x09));
    assert_eq!(Color::from_hex("#ABCDEF09").unwrap(), Color::new(0xab, 0xcd, 0xef, 0x09));
}

#[test]
fn from_hex_decodes_rather_than_copies() {
    // The text "30313233" spells the bytes 0x30..0x33, not the digits' own codes.
    assert_eq!(Color::from_hex("30313233").unwrap(), Color::new(0x30, 0x31, 0x32, 0x33));
    assert_eq!(Color::from_hex("00000010").unwrap().to_bytes(), [0, 0, 0, 16]);
}

#[test]
fn from_hex_wrong_length_names_the_text() {
    assert_eq!(
        Color::from_hex("ff00"),
        Err(ColorFormatError::WrongLength { input: "ff00".to_string(), found: 4 })
    );
    assert_eq!(
        Color::from_hex("0xff00ff"),
        Err(ColorFormatError::WrongLength { input: "0xff00ff".to_string(), found: 6 })
    );
    assert_eq!(
        Color::from_hex(""),
        Err(ColorFormatError::WrongLength { input: String::new(), found: 0 })
    );
    assert_eq!(
        Color::from_hex("ff0000ff0"),
        Err(ColorFormatError::WrongLength { input: "ff0000ff0".to_string(), found: 9 })
    );
}

#[test]
fn from_hex_invalid_digit_names_the_text() {
    let err = Color::from_hex("gghhiijj").unwrap_err();
    assert_eq!(err, ColorFormatError::InvalidDigit { input: "gghhiijj".to_string() });
    assert_eq!(err.input(), "gghhiijj");
    let err = Color::from_hex("#0000ff5x").unwrap_err();
    assert_eq!(err, ColorFormatError::InvalidDigit { input: "#0000ff5x".to_string() });
}

#[test]
fn from_hex_strips_one_prefix_only() {
    assert!(Color::from_hex("0x#0000ff55").is_err());
    assert!(Color::from_hex("##0000ff55").is_err());
    assert!(Color::from_hex("0X0000ff55").is_err());
}

#[test]
fn from_hex_counts_bytes_not_characters() {
    // Four two-byte characters are eight bytes, none of them a digit.
    assert_eq!(
        Color::from_hex("éééé"),
        Err(ColorFormatError::InvalidDigit { input: "éééé".to_string() })
    );
}

#[test]
fn prefixes_read_like_bare_digits() {
    let bare = Color::from_hex("12345678").unwrap();
    assert_eq!(Color::from_hex("0x12345678").unwrap(), bare);
    assert_eq!(Color::from_hex("#12345678").unwrap(), bare);
    assert_eq!(bare, Color::new(0x12, 0x34, 0x56, 0x78));
}

#[test]
fn hex_round_trip() {
    let samples = [
        Color::new(0, 0, 0, 0),
        Color::new(255, 255, 255, 255),
        Color::new(1, 16, 10, 160),
        Color::new(0x0f, 0xf0, 0x9a, 0xa9),
    ];
    for c in samples {
        let text = c.to_hex();
        assert_eq!(text.len(), 8);
        let back = Color::from_hex(&text).unwrap();
        assert_eq!(back, c);
        assert_eq!(back.to_hex(), text);
    }
    assert_eq!(Color::new(1, 16, 10, 160).to_hex(), "01100aa0");
}

#[test]
fn to_bytes_is_red_green_blue_white() {
    assert_eq!(Color::new(1, 2, 3, 4).to_bytes(), [1, 2, 3, 4]);
}

#[test]
fn default_color_is_off() {
    assert_eq!(Color::default(), Color::new(0, 0, 0, 0));
    assert_eq!(Color::default().to_hex(), "00000000");
}
