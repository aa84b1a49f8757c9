//! Text: strings made from driver bytes, the characters a serial number may
//! hold, and decimal numbers for messages.

use vstd::prelude::*;
use vstd::string::StringExecFns;
use vstd::utf8::{
    decode_utf8, encode_utf8, encode_utf8_decode_utf8, encode_utf8_valid_utf8,
    is_ascii_chars, is_ascii_chars_encode_utf8, valid_utf8,
};
use crate::ascii::{ascii_alphanumeric, is_ascii_alphanumeric};

verus! {

/// The text that a lossy UTF-8 conversion makes of `bytes`: the text they
/// encode, with every ill-formed sequence replaced by U+FFFD.
pub uninterp spec fn utf8_lossy(bytes: Seq<u8>) -> Seq<char>;

/// Whether a character has the Unicode property Alphabetic or is a Unicode
/// number.
pub uninterp spec fn unicode_alphanumeric(c: char) -> bool;

/// Whether every byte is in the ASCII range.
pub open spec fn is_ascii_bytes(bytes: Seq<u8>) -> bool {
    forall|i: int| 0 <= i < bytes.len() ==> #[trigger] bytes[i] < 128
}

/// ASCII bytes as characters.
pub open spec fn ascii_text(bytes: Seq<u8>) -> Seq<char> {
    Seq::new(bytes.len(), |i: int| bytes[i] as char)
}

/// The text of `bytes`: their characters where all are ASCII, and the lossy
/// UTF-8 conversion otherwise.
pub open spec fn lossy_text(bytes: Seq<u8>) -> Seq<char> {
    if is_ascii_bytes(bytes) {
        ascii_text(bytes)
    } else {
        utf8_lossy(bytes)
    }
}

/// The length of `s` without the null bytes at its end, counted from `n` down.
pub open spec fn nul_trimmed_len(s: Seq<u8>, n: int) -> int
    decreases n,
{
    if 0 < n <= s.len() && s[n - 1] == 0 {
        nul_trimmed_len(s, n - 1)
    } else {
        n
    }
}

/// `s` without the null bytes at its end.
pub open spec fn without_trailing_nuls(s: Seq<u8>) -> Seq<u8> {
    s.subrange(0, nul_trimmed_len(s, s.len() as int))
}

/// The text that a null-padded buffer holds.
pub open spec fn buffer_text(buf: Seq<u8>) -> Seq<char> {
    lossy_text(without_trailing_nuls(buf))
}

/// A character that a serial number may hold: a letter or a number, an
/// underscore or a hyphen.
pub open spec fn is_serial_char(c: char) -> bool {
    c == '_' || c == '-' || if (c as u32) < 128 {
        is_ascii_alphanumeric(c as u8)
    } else {
        unicode_alphanumeric(c)
    }
}

/// A character that a serial number read without access rights may hold: an
/// ASCII letter or digit, an underscore or a hyphen.
pub open spec fn is_ascii_serial_char(c: char) -> bool {
    (c as u32) < 128 && (c == '_' || c == '-' || is_ascii_alphanumeric(c as u8))
}

/// The text of one decimal digit.
pub open spec fn digit_text(d: nat) -> Seq<char> {
    if d == 0 {
        "0"@
    } else if d == 1 {
        "1"@
    } else if d == 2 {
        "2"@
    } else if d == 3 {
        "3"@
    } else if d == 4 {
        "4"@
    } else if d == 5 {
        "5"@
    } else if d == 6 {
        "6"@
    } else if d == 7 {
        "7"@
    } else if d == 8 {
        "8"@
    } else {
        "9"@
    }
}

/// A number written in decimal, without leading zeros.
pub open spec fn decimal_text(n: nat) -> Seq<char>
    decreases n,
{
    if n < 10 {
        digit_text(n)
    } else {
        decimal_text(n / 10) + digit_text(n % 10)
    }
}

pub proof fn lemma_nul_trimmed_len(s: Seq<u8>, n: int)
    requires
        0 <= n <= s.len(),
    ensures
        0 <= nul_trimmed_len(s, n) <= n,
        forall|j: int| nul_trimmed_len(s, n) <= j < n ==> s[j] == 0,
        nul_trimmed_len(s, n) > 0 ==> s[nul_trimmed_len(s, n) - 1] != 0,
    decreases n,
{
    if 0 < n && s[n - 1] == 0 {
        lemma_nul_trimmed_len(s, n - 1);
    }
}

/// A buffer that holds `text`, which does not end in a null byte, followed by
/// null bytes only, holds the text `text`.
pub proof fn lemma_padded_text(buf: Seq<u8>, text: Seq<u8>)
    requires
        text.len() <= buf.len(),
        buf.subrange(0, text.len() as int) == text,
        forall|j: int| text.len() <= j < buf.len() ==> buf[j] == 0,
        text.len() > 0 ==> text[text.len() - 1] != 0,
    ensures
        without_trailing_nuls(buf) == text,
{
    lemma_nul_trimmed_len(buf, buf.len() as int);
    let n = nul_trimmed_len(buf, buf.len() as int);
    if n < text.len() {
        assert(buf[text.len() - 1] == text[text.len() - 1]);
    }
    if n > text.len() {
        assert(buf[n - 1] == 0);
    }
    assert(without_trailing_nuls(buf) =~= text);
}

/// ASCII bytes are well-formed UTF-8 and encode their own characters.
pub proof fn lemma_ascii_bytes_decode(bytes: Seq<u8>)
    requires
        is_ascii_bytes(bytes),
    ensures
        valid_utf8(bytes),
        decode_utf8(bytes) == ascii_text(bytes),
{
    let chars = ascii_text(bytes);
    assert(is_ascii_chars(chars)) by {
        assert forall|i: int| 0 <= i < chars.len() implies '\0' <= #[trigger] chars[i]
            <= '\u{7f}' by {
            assert(bytes[i] < 128);
        }
    }
    is_ascii_chars_encode_utf8(chars);
    assert(encode_utf8(chars) =~= bytes) by {
        assert forall|i: int| 0 <= i < bytes.len() implies encode_utf8(chars)[i] == bytes[i] by {
            assert(chars[i] as u8 == encode_utf8(chars)[i]);
            assert(bytes[i] < 128);
        }
    }
    encode_utf8_valid_utf8(chars);
    encode_utf8_decode_utf8(chars);
}

/// `String::from_utf8_lossy`, with the result made an owned `String`. The
/// result is the lossy conversion of the bytes; where the bytes are
/// well-formed UTF-8, that is the text which they encode.
#[verifier::external_body]
fn string_from_utf8_lossy(bytes: &[u8]) -> (s: String)
    ensures
        s@ == utf8_lossy(bytes@),
        valid_utf8(bytes@) ==> s@ == decode_utf8(bytes@),
{
    String::from_utf8_lossy(bytes).into_owned()
}

/// `char::is_alphanumeric`: whether the character is alphabetic or numeric in
/// the sense of Unicode.
#[verifier::external_body]
fn char_is_alphanumeric(c: char) -> (r: bool)
    ensures
        r == unicode_alphanumeric(c),
{
    c.is_alphanumeric()
}

/// The text of `bytes` as a string.
pub fn string_from_bytes(bytes: &[u8]) -> (s: String)
    ensures
        s@ == lossy_text(bytes@),
{
    proof {
        if is_ascii_bytes(bytes@) {
            lemma_ascii_bytes_decode(bytes@);
        }
    }
    string_from_utf8_lossy(bytes)
}

/// The text that the null-padded buffer `buf` holds, as a string.
pub fn string_from_buffer(buf: &[u8]) -> (s: String)
    ensures
        s@ == buffer_text(buf@),
{
    let mut n: usize = buf.len();
    while n > 0 && buf[n - 1] == 0
        invariant
            n <= buf@.len(),
            nul_trimmed_len(buf@, n as int) == nul_trimmed_len(buf@, buf@.len() as int),
        decreases n,
    {
        n = n - 1;
    }
    string_from_bytes(vstd::slice::slice_subrange(buf, 0, n))
}

/// Whether `c` may stand in a serial number.
pub fn serial_char(c: char) -> (r: bool)
    ensures
        r == is_serial_char(c),
{
    if c == '_' || c == '-' {
        true
    } else if (c as u32) < 128 {
        ascii_alphanumeric(c as u8)
    } else {
        char_is_alphanumeric(c)
    }
}

/// Whether `c` may stand in a serial number that was read without access
/// rights.
pub fn ascii_serial_char(c: char) -> (r: bool)
    ensures
        r == is_ascii_serial_char(c),
{
    (c as u32) < 128 && (c == '_' || c == '-' || ascii_alphanumeric(c as u8))
}

/// The text of the decimal digit `d`.
fn digit_str(d: u32) -> (s: &'static str)
    requires
        d < 10,
    ensures
        s@ == digit_text(d as nat),
{
    if d == 0 {
        "0"
    } else if d == 1 {
        "1"
    } else if d == 2 {
        "2"
    } else if d == 3 {
        "3"
    } else if d == 4 {
        "4"
    } else if d == 5 {
        "5"
    } else if d == 6 {
        "6"
    } else if d == 7 {
        "7"
    } else if d == 8 {
        "8"
    } else {
        "9"
    }
}

/// Appends `n`, written in decimal, to `s`.
pub fn push_decimal(s: &mut String, n: u32)
    ensures
        final(s)@ == old(s)@ + decimal_text(n as nat),
    decreases n,
{
    if n >= 10 {
        push_decimal(s, n / 10);
    }
    s.append(digit_str(n % 10));
    assert(s@ =~= old(s)@ + decimal_text(n as nat));
}

} // verus!
