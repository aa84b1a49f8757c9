use drive_serial::ascii::{
    ascii_alphanumeric, ascii_graphic, ascii_lowercase, ascii_whitespace, hex_digit,
};
use drive_serial::text::{
    ascii_serial_char, push_decimal, serial_char, string_from_buffer, string_from_bytes,
};
use drive_serial::HardDriveSerial;

#[test]
fn validation_rejects_empty_and_spaces() {
    let hd = HardDriveSerial::new();
    assert!(!hd.is_valid_serial_number(""));
    assert!(!hd.is_valid_serial_number("abc def"));
}

#[test]
fn validation_accepts_letters_digits_underscore_hyphen() {
    let hd = HardDriveSerial::new();
    assert!(hd.is_valid_serial_number("WD-ABC123"));
    assert!(hd.is_valid_serial_number("abc_123"));
    assert!(hd.is_valid_serial_number("_"));
    assert!(hd.is_valid_serial_number("-"));
}

#[test]
fn validation_rejects_other_ascii() {
    let hd = HardDriveSerial::new();
    for bad in ["a.b", "a/b", "a\0b", "a\tb", "S/N:1", "a@b", "[1]", "a`", "{", "~"] {
        assert!(!hd.is_valid_serial_number(bad), "{:?}", bad);
    }
}

#[test]
fn validation_goes_by_unicode_outside_ascii() {
    let hd = HardDriveSerial::new();
    assert!(hd.is_valid_serial_number("\u{e9}t\u{e9}"));
    assert!(hd.is_valid_serial_number("\u{0663}"));
    assert!(!hd.is_valid_serial_number("\u{20ac}"));
    assert!(!hd.is_valid_serial_number("A\u{fffd}"));
}

#[test]
fn serial_characters() {
    assert!(serial_char('a') && serial_char('Z') && serial_char('0') && serial_char('9'));
    assert!(serial_char('_') && serial_char('-'));
    assert!(!serial_char(' ') && !serial_char('\u{7f}') && !serial_char('+'));
    assert!(serial_char('\u{4e2d}'));
    assert!(ascii_serial_char('a') && ascii_serial_char('_') && ascii_serial_char('-'));
    assert!(!ascii_serial_char('\u{e9}') && !ascii_serial_char(' '));
}

#[test]
fn ascii_classes_agree_with_std() {
    for b in 0u8..=255 {
        assert_eq!(ascii_whitespace(b), b.is_ascii_whitespace(), "{}", b);
        assert_eq!(ascii_graphic(b), b.is_ascii_graphic(), "{}", b);
        assert_eq!(ascii_alphanumeric(b), b.is_ascii_alphanumeric(), "{}", b);
        assert_eq!(ascii_lowercase(b), b.to_ascii_lowercase(), "{}", b);
    }
}

#[test]
fn serial_characters_agree_with_std() {
    for code in 0u32..0x3000 {
        if let Some(c) = char::from_u32(code) {
            assert_eq!(serial_char(c), c.is_alphanumeric() || c == '_' || c == '-', "{:?}", c);
            assert_eq!(
                ascii_serial_char(c),
                c.is_ascii_alphanumeric() || c == '_' || c == '-',
                "{:?}",
                c
            );
        }
    }
}

#[test]
fn hex_digits() {
    assert_eq!(hex_digit(b'0'), Some(0));
    assert_eq!(hex_digit(b'9'), Some(9));
    assert_eq!(hex_digit(b'a'), Some(10));
    assert_eq!(hex_digit(b'F'), Some(15));
    assert_eq!(hex_digit(b' '), Some(0));
    assert_eq!(hex_digit(b'\t'), Some(0));
    assert_eq!(hex_digit(b'g'), None);
    assert_eq!(hex_digit(b'G'), None);
    assert_eq!(hex_digit(b'/'), None);
    assert_eq!(hex_digit(b':'), None);
    assert_eq!(hex_digit(0), None);
}

#[test]
fn decimal_numbers() {
    for (n, text) in [
        (0u32, "0"),
        (7, "7"),
        (10, "10"),
        (15, "15"),
        (50, "50"),
        (997, "997"),
        (1000, "1000"),
        (4294967295, "4294967295"),
    ] {
        let mut s = String::from("n=");
        push_decimal(&mut s, n);
        assert_eq!(s, format!("n={}", text));
    }
}

#[test]
fn buffer_text_drops_trailing_nulls_only() {
    assert_eq!(string_from_buffer(b"AB\0\0\0"), "AB");
    assert_eq!(string_from_buffer(b"A\0B\0"), "A\0B");
    assert_eq!(string_from_buffer(b"\0\0"), "");
    assert_eq!(string_from_buffer(b""), "");
    assert_eq!(string_from_buffer(b"AB"), "AB");
}

#[test]
fn bytes_are_converted_lossily() {
    assert_eq!(string_from_bytes(b"WD-1"), "WD-1");
    assert_eq!(string_from_bytes(&[0xC3, 0xA9]), "\u{e9}");
    assert_eq!(string_from_bytes(&[0x41, 0xFF, 0x42]), "A\u{fffd}B");
    assert_eq!(string_from_bytes(&[0xE2, 0x82]), "\u{fffd}");
}
