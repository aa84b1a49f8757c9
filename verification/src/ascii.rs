//! Classes of ASCII bytes, as specifications and as executable tests.

use vstd::prelude::*;

verus! {

/// Space, horizontal tab, line feed, form feed or carriage return.
pub open spec fn is_ascii_whitespace(b: u8) -> bool {
    b == 0x20 || b == 0x09 || b == 0x0a || b == 0x0c || b == 0x0d
}

/// A visible ASCII character: `!` through `~`.
pub open spec fn is_ascii_graphic(b: u8) -> bool {
    0x21 <= b <= 0x7e
}

/// An ASCII decimal digit.
pub open spec fn is_ascii_digit(b: u8) -> bool {
    0x30 <= b <= 0x39
}

/// An ASCII letter or decimal digit.
pub open spec fn is_ascii_alphanumeric(b: u8) -> bool {
    is_ascii_digit(b) || (0x41 <= b <= 0x5a) || (0x61 <= b <= 0x7a)
}

/// The byte with an ASCII capital letter replaced by its small letter.
pub open spec fn to_ascii_lowercase(b: u8) -> u8 {
    if 0x41 <= b <= 0x5a {
        (b + 0x20) as u8
    } else {
        b
    }
}

/// The value of a byte read as a hexadecimal digit, in either case. ASCII
/// whitespace counts as the digit zero; any other byte has no value.
pub open spec fn hex_value(b: u8) -> Option<u8> {
    let c = to_ascii_lowercase(b);
    if is_ascii_whitespace(c) {
        Some(0u8)
    } else if is_ascii_digit(c) {
        Some((c - 0x30) as u8)
    } else if 0x61 <= c <= 0x66 {
        Some((c - 0x61 + 10) as u8)
    } else {
        None
    }
}

pub fn ascii_whitespace(b: u8) -> (r: bool)
    ensures
        r == is_ascii_whitespace(b),
{
    b == 0x20 || b == 0x09 || b == 0x0a || b == 0x0c || b == 0x0d
}

pub fn ascii_graphic(b: u8) -> (r: bool)
    ensures
        r == is_ascii_graphic(b),
{
    0x21 <= b && b <= 0x7e
}

pub fn ascii_alphanumeric(b: u8) -> (r: bool)
    ensures
        r == is_ascii_alphanumeric(b),
{
    (0x30 <= b && b <= 0x39) || (0x41 <= b && b <= 0x5a) || (0x61 <= b && b <= 0x7a)
}

pub fn ascii_lowercase(b: u8) -> (r: u8)
    ensures
        r == to_ascii_lowercase(b),
{
    if 0x41 <= b && b <= 0x5a {
        b + 0x20
    } else {
        b
    }
}

pub fn hex_digit(b: u8) -> (r: Option<u8>)
    ensures
        r == hex_value(b),
        r matches Some(d) ==> d < 16,
{
    let c = ascii_lowercase(b);
    if ascii_whitespace(c) {
        Some(0)
    } else if 0x30 <= c && c <= 0x39 {
        Some(c - 0x30)
    } else if 0x61 <= c && c <= 0x66 {
        Some(c - 0x61 + 10)
    } else {
        None
    }
}

} // verus!
