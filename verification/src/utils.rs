//! Decoders that turn the buffers a driver returns into serial strings.

use vstd::prelude::*;
use vstd::slice::slice_subrange;
use byteorder::ByteOrder;
use byteorder::LittleEndian;
use crate::ascii::{
    ascii_graphic, ascii_whitespace, hex_digit, hex_value, is_ascii_graphic, is_ascii_whitespace,
};
use crate::ioctl_operations::ControlRequest;
use crate::structs::{
    zeros, DFP_RECEIVE_DRIVE_DATA, IDENTIFY_BUFFER_SIZE, IDEREGS, SENDCMDINPARAMS,
    SENDCMDINPARAMS_SIZE, SENDCMDOUTPARAMS_SIZE,
};
use crate::text::{is_ascii_bytes, lemma_padded_text, lossy_text, string_from_buffer};

verus! {

/// Where the field that starts at `pos` ends: at the first null byte at or
/// after `pos`, or at the end of `src`.
pub open spec fn field_end(src: Seq<u8>, pos: int) -> int
    decreases src.len() - pos,
{
    if 0 <= pos < src.len() && src[pos] != 0 {
        field_end(src, pos + 1)
    } else {
        pos
    }
}

/// The bytes of `src` from `pos` up to the first null byte or the end of `src`.
pub open spec fn field_at(src: Seq<u8>, pos: int) -> Seq<u8> {
    if 0 <= pos < src.len() {
        src.subrange(pos, field_end(src, pos))
    } else {
        Seq::empty()
    }
}

/// The byte that the `k`-th pair of hexadecimal digits of `f` packs into.
pub open spec fn packed_byte(f: Seq<u8>, k: int) -> u8 {
    (hex_value(f[2 * k]).unwrap() * 16 + hex_value(f[2 * k + 1]).unwrap()) as u8
}

/// The pairs of hexadecimal digits of `f`, each packed into one byte. A digit
/// left over at the end is dropped.
pub open spec fn hex_packed(f: Seq<u8>) -> Seq<u8> {
    Seq::new((f.len() / 2) as nat, |k: int| packed_byte(f, k))
}

/// A byte that the hexadecimal reading accepts as output: null or visible.
pub open spec fn is_packed_output(b: u8) -> bool {
    b == 0 || is_ascii_graphic(b)
}

/// Whether `f` reads as a stream of hexadecimal digits: every byte is a digit
/// or whitespace, and every packed byte is null or a visible character.
pub open spec fn is_hex_stream(f: Seq<u8>) -> bool {
    &&& forall|i: int| 0 <= i < f.len() ==> (#[trigger] hex_value(f[i])) is Some
    &&& forall|k: int| 0 <= k < f.len() / 2 ==> is_packed_output(#[trigger] packed_byte(f, k))
}

/// Where the run of visible characters that starts at `i` ends.
pub open spec fn graphic_end(f: Seq<u8>, i: int) -> int
    decreases f.len() - i,
{
    if 0 <= i < f.len() && is_ascii_graphic(f[i]) {
        graphic_end(f, i + 1)
    } else {
        i
    }
}

/// The bytes of `f` before its first byte that is not a visible character.
pub open spec fn graphic_prefix(f: Seq<u8>) -> Seq<u8> {
    f.subrange(0, graphic_end(f, 0))
}

/// The field read as packed hexadecimal where it is a hexadecimal stream, and
/// otherwise copied up to its first byte that is not a visible character.
pub open spec fn heuristic_decode(f: Seq<u8>) -> Seq<u8> {
    if is_hex_stream(f) {
        hex_packed(f)
    } else {
        graphic_prefix(f)
    }
}

/// The bytes of `d` with each adjacent pair swapped. A sequence of odd length
/// is first extended by its null terminator, which trades places with the last
/// byte.
pub open spec fn flip_pairs(d: Seq<u8>) -> Seq<u8> {
    let e = if d.len() % 2 == 1 {
        d.push(0u8)
    } else {
        d
    };
    Seq::new(
        e.len(),
        |i: int|
            if i % 2 == 0 {
                e[i + 1]
            } else {
                e[i - 1]
            },
    )
}

/// A byte that counts as content when trimming: neither null nor whitespace.
pub open spec fn is_content(b: u8) -> bool {
    b != 0 && !is_ascii_whitespace(b)
}

/// The index of the first content byte at or after `i`, or the length of `s`.
pub open spec fn content_start(s: Seq<u8>, i: int) -> int
    decreases s.len() - i,
{
    if 0 <= i < s.len() && !is_content(s[i]) {
        content_start(s, i + 1)
    } else {
        i
    }
}

/// One past the index of the last content byte before `n`, or zero.
pub open spec fn content_end(s: Seq<u8>, n: int) -> int
    decreases n,
{
    if 0 < n <= s.len() && !is_content(s[n - 1]) {
        content_end(s, n - 1)
    } else {
        n
    }
}

/// The span of `s` from its first to its last content byte, both included;
/// empty where `s` has no content.
pub open spec fn trim_span(s: Seq<u8>) -> Seq<u8> {
    let a = content_start(s, 0);
    let b = content_end(s, s.len() as int);
    if a < b {
        s.subrange(a, b)
    } else {
        Seq::empty()
    }
}

/// What the heuristic decoder reads from `src` at offset `pos`: the field
/// there decoded, its byte pairs swapped if `flip` is set, and the result
/// trimmed to its content.
pub open spec fn flip_and_code(src: Seq<u8>, pos: int, flip: bool) -> Seq<u8> {
    let d = heuristic_decode(field_at(src, pos));
    trim_span(
        if flip {
            flip_pairs(d)
        } else {
            d
        },
    )
}

/// A buffer after `text` and a null terminator were stored at its start; the
/// bytes behind the terminator stay as they were.
pub open spec fn stored(buf: Seq<u8>, text: Seq<u8>) -> Seq<u8> {
    text + seq![0u8] + buf.subrange(text.len() as int + 1, buf.len() as int)
}

pub proof fn lemma_field_end_bounds(src: Seq<u8>, pos: int)
    requires
        0 <= pos <= src.len(),
    ensures
        pos <= field_end(src, pos) <= src.len(),
        forall|i: int| pos <= i < field_end(src, pos) ==> src[i] != 0,
        field_end(src, pos) < src.len() ==> src[field_end(src, pos)] == 0,
    decreases src.len() - pos,
{
    if pos < src.len() && src[pos] != 0 {
        lemma_field_end_bounds(src, pos + 1);
    }
}

pub proof fn lemma_graphic_end_bounds(f: Seq<u8>, i: int)
    requires
        0 <= i <= f.len(),
    ensures
        i <= graphic_end(f, i) <= f.len(),
        forall|j: int| i <= j < graphic_end(f, i) ==> is_ascii_graphic(f[j]),
        graphic_end(f, i) < f.len() ==> !is_ascii_graphic(f[graphic_end(f, i)]),
    decreases f.len() - i,
{
    if i < f.len() && is_ascii_graphic(f[i]) {
        lemma_graphic_end_bounds(f, i + 1);
    }
}

pub proof fn lemma_content_start_bounds(s: Seq<u8>, i: int)
    requires
        0 <= i <= s.len(),
    ensures
        i <= content_start(s, i) <= s.len(),
        forall|j: int| i <= j < content_start(s, i) ==> !is_content(s[j]),
        content_start(s, i) < s.len() ==> is_content(s[content_start(s, i)]),
    decreases s.len() - i,
{
    if i < s.len() && !is_content(s[i]) {
        lemma_content_start_bounds(s, i + 1);
    }
}

pub proof fn lemma_content_end_bounds(s: Seq<u8>, n: int)
    requires
        0 <= n <= s.len(),
    ensures
        0 <= content_end(s, n) <= n,
        forall|j: int| content_end(s, n) <= j < n ==> !is_content(s[j]),
        content_end(s, n) > 0 ==> is_content(s[content_end(s, n) - 1]),
    decreases n,
{
    if 0 < n && !is_content(s[n - 1]) {
        lemma_content_end_bounds(s, n - 1);
    }
}

/// The decoder never reads more bytes than the source holds behind the offset.
pub proof fn lemma_flip_and_code_len(src: Seq<u8>, pos: int, flip: bool)
    requires
        0 <= pos,
    ensures
        heuristic_decode(field_at(src, pos)).len() <= field_at(src, pos).len(),
        flip_and_code(src, pos, flip).len() <= field_at(src, pos).len() + 1,
        !flip ==> flip_and_code(src, pos, flip).len() <= field_at(src, pos).len(),
        pos < src.len() ==> field_at(src, pos).len() <= src.len() - pos,
        pos >= src.len() ==> field_at(src, pos).len() == 0,
{
    let f = field_at(src, pos);
    if pos < src.len() {
        lemma_field_end_bounds(src, pos);
    }
    lemma_graphic_end_bounds(f, 0);
    let d = heuristic_decode(f);
    assert(d.len() <= f.len());
    let e = if flip {
        flip_pairs(d)
    } else {
        d
    };
    lemma_content_start_bounds(e, 0);
    lemma_content_end_bounds(e, e.len() as int);
}

/// The end of the field of `src` that starts at `pos`.
fn find_field_end(src: &[u8], pos: usize) -> (end: usize)
    requires
        pos <= src@.len(),
    ensures
        end == field_end(src@, pos as int),
        pos <= end <= src@.len(),
{
    let mut end = pos;
    while end < src.len() && src[end] != 0
        invariant
            pos <= end <= src@.len(),
            field_end(src@, end as int) == field_end(src@, pos as int),
        decreases src@.len() - end,
    {
        end = end + 1;
    }
    proof {
        lemma_field_end_bounds(src@, pos as int);
    }
    end
}

/// The hexadecimal reading of `f`, where `f` is a hexadecimal stream.
fn decode_hex(f: &[u8]) -> (r: Option<Vec<u8>>)
    ensures
        r is Some <==> is_hex_stream(f@),
        r matches Some(v) ==> v@ == hex_packed(f@),
{
    let n = f.len();
    let mut out: Vec<u8> = Vec::new();
    let mut i: usize = 0;
    while i < n
        invariant
            n == f@.len(),
            i <= n,
            i % 2 == 0 || i == n,
            out@.len() == i / 2,
            forall|j: int| 0 <= j < i ==> (#[trigger] hex_value(f@[j])) is Some,
            forall|k: int|
                0 <= k < out@.len() ==> out@[k] == packed_byte(f@, k) && is_packed_output(
                    #[trigger] packed_byte(f@, k),
                ),
        decreases n - i,
    {
        let hi = match hex_digit(f[i]) {
            Some(d) => d,
            None => {
                assert(hex_value(f@[i as int]) is None);
                return None;
            },
        };
        if i + 1 == n {
            i = i + 1;
        } else {
            let lo = match hex_digit(f[i + 1]) {
                Some(d) => d,
                None => {
                    assert(hex_value(f@[i + 1]) is None);
                    return None;
                },
            };
            let b = hi * 16 + lo;
            assert(b == packed_byte(f@, (i / 2) as int));
            if b != 0 && !ascii_graphic(b) {
                assert(!is_packed_output(packed_byte(f@, (i / 2) as int)));
                return None;
            }
            out.push(b);
            i = i + 2;
        }
    }
    assert(out@ =~= hex_packed(f@));
    Some(out)
}

/// The bytes of `f` before its first byte that is not a visible character.
fn copy_graphic(f: &[u8]) -> (out: Vec<u8>)
    ensures
        out@ == graphic_prefix(f@),
{
    let n = f.len();
    let mut out: Vec<u8> = Vec::new();
    let mut i: usize = 0;
    while i < n && ascii_graphic(f[i])
        invariant
            n == f@.len(),
            i <= n,
            out@ == f@.subrange(0, i as int),
            graphic_end(f@, i as int) == graphic_end(f@, 0),
        decreases n - i,
    {
        out.push(f[i]);
        i = i + 1;
        assert(out@ =~= f@.subrange(0, i as int));
    }
    out
}

/// The bytes of `d` with each adjacent pair swapped.
fn swap_pairs(d: Vec<u8>) -> (out: Vec<u8>)
    requires
        d@.len() < usize::MAX,
    ensures
        out@ == flip_pairs(d@),
{
    let mut e = d;
    if e.len() % 2 == 1 {
        e.push(0);
    }
    let n = e.len();
    let mut out: Vec<u8> = Vec::new();
    let mut i: usize = 0;
    while i < n
        invariant
            n == e@.len(),
            n % 2 == 0,
            i % 2 == 0,
            i <= n,
            out@.len() == i,
            forall|j: int|
                0 <= j < i ==> out@[j] == (if j % 2 == 0 {
                    e@[j + 1]
                } else {
                    e@[j - 1]
                }),
        decreases n - i,
    {
        out.push(e[i + 1]);
        out.push(e[i]);
        i = i + 2;
    }
    assert(out@ =~= flip_pairs(d@));
    out
}

/// The bounds of the content of `s`: the index of its first content byte and
/// one past the index of its last.
fn content_bounds(s: &Vec<u8>) -> (r: (usize, usize))
    ensures
        r.0 == content_start(s@, 0),
        r.1 == content_end(s@, s@.len() as int),
        r.0 <= s@.len(),
        r.1 <= s@.len(),
{
    let n = s.len();
    let mut a: usize = 0;
    while a < n && (s[a] == 0 || ascii_whitespace(s[a]))
        invariant
            n == s@.len(),
            a <= n,
            content_start(s@, a as int) == content_start(s@, 0),
        decreases n - a,
    {
        a = a + 1;
    }
    let mut b: usize = n;
    while b > 0 && (s[b - 1] == 0 || ascii_whitespace(s[b - 1]))
        invariant
            n == s@.len(),
            b <= n,
            content_end(s@, b as int) == content_end(s@, n as int),
        decreases b,
    {
        b = b - 1;
    }
    (a, b)
}

/// Reads the string field that starts at offset `i_pos` of `pcsz_str` and
/// stores it, null-terminated, at the start of `pcsz_buf`.
///
/// The field runs to the first null byte. It is read as pairs of hexadecimal
/// digits where that is what it holds, and is otherwise copied up to its first
/// byte that is not a visible character. With `i_flip` set the decoded bytes
/// are swapped pairwise, and the result is trimmed to the span from its first
/// to its last content byte. An offset of zero means that there is no field:
/// the buffer is left as it was.
pub fn flip_and_code_bytes(i_pos: usize, i_flip: i32, pcsz_str: &[u8], pcsz_buf: &mut [u8])
    requires
        i_pos > 0 ==> old(pcsz_buf)@.len() > flip_and_code(
            pcsz_str@,
            i_pos as int,
            i_flip != 0,
        ).len(),
    ensures
        i_pos == 0 ==> final(pcsz_buf)@ == old(pcsz_buf)@,
        i_pos > 0 ==> final(pcsz_buf)@ == stored(
            old(pcsz_buf)@,
            flip_and_code(pcsz_str@, i_pos as int, i_flip != 0),
        ),
{
    if i_pos == 0 {
        return ;
    }
    let decoded: Vec<u8> = if i_pos < pcsz_str.len() {
        let end = find_field_end(pcsz_str, i_pos);
        let field = slice_subrange(pcsz_str, i_pos, end);
        match decode_hex(field) {
            Some(v) => v,
            None => copy_graphic(field),
        }
    } else {
        let v: Vec<u8> = Vec::new();
        assert(v@ =~= heuristic_decode(field_at(pcsz_str@, i_pos as int)));
        v
    };
    assert(decoded@ == heuristic_decode(field_at(pcsz_str@, i_pos as int)));
    proof {
        lemma_flip_and_code_len(pcsz_str@, i_pos as int, i_flip != 0);
    }
    let text: Vec<u8> = if i_flip != 0 {
        swap_pairs(decoded)
    } else {
        decoded
    };
    let (a, b) = content_bounds(&text);
    let ghost result = flip_and_code(pcsz_str@, i_pos as int, i_flip != 0);
    let len: usize = if a < b {
        b - a
    } else {
        0
    };
    assert(len == result.len());
    let mut k: usize = 0;
    while k < len
        invariant
            a < b ==> len == b - a,
            a >= b ==> len == 0,
            b <= text@.len(),
            k <= len,
            len == result.len(),
            len < pcsz_buf@.len(),
            pcsz_buf@.len() == old(pcsz_buf)@.len(),
            a < b ==> result == text@.subrange(a as int, b as int),
            forall|j: int| 0 <= j < k ==> pcsz_buf@[j] == result[j],
            forall|j: int| k <= j < pcsz_buf@.len() ==> pcsz_buf@[j] == old(pcsz_buf)@[j],
        decreases len - k,
    {
        pcsz_buf[k] = text[a + k];
        k = k + 1;
    }
    pcsz_buf[len] = 0;
    assert(pcsz_buf@ =~= stored(old(pcsz_buf)@, result));
}

/// The high byte of the 16-bit word that `w` holds.
pub open spec fn high_byte(w: u32) -> u8 {
    ((w / 256) % 256) as u8
}

/// The low byte of the 16-bit word that `w` holds.
pub open spec fn low_byte(w: u32) -> u8 {
    (w % 256) as u8
}

/// What the scan of words emits for one byte: nothing for a space, and the
/// byte otherwise.
pub open spec fn kept(b: u8) -> Seq<u8> {
    if b == 0x20 {
        Seq::empty()
    } else {
        seq![b]
    }
}

/// The bytes that the scan of the words `first` through `last` emits: of each
/// word the high byte, then the low byte, without the spaces, up to the first
/// null byte.
pub open spec fn word_pair_scan(words: Seq<u32>, first: int, last: int) -> Seq<u8>
    decreases last - first + 1,
{
    if first > last {
        Seq::empty()
    } else {
        let hi = high_byte(words[first]);
        let lo = low_byte(words[first]);
        if hi == 0 {
            Seq::empty()
        } else if lo == 0 {
            kept(hi)
        } else {
            kept(hi) + kept(lo) + word_pair_scan(words, first + 1, last)
        }
    }
}

/// The length of `s` without the whitespace at its end, counted from `n` down.
pub open spec fn whitespace_trimmed_len(s: Seq<u8>, n: int) -> int
    decreases n,
{
    if 0 < n <= s.len() && is_ascii_whitespace(s[n - 1]) {
        whitespace_trimmed_len(s, n - 1)
    } else {
        n
    }
}

/// `s` without the whitespace at its end.
pub open spec fn without_trailing_whitespace(s: Seq<u8>) -> Seq<u8> {
    s.subrange(0, whitespace_trimmed_len(s, s.len() as int))
}

/// The string that the words `first` through `last` hold.
pub open spec fn word_pair_decode(words: Seq<u32>, first: int, last: int) -> Seq<u8> {
    without_trailing_whitespace(word_pair_scan(words, first, last))
}

/// A buffer after the scan emitted `scanned` into it: the text without its
/// trailing whitespace, a null byte in place of each byte trimmed and one more
/// as the terminator; the bytes behind that stay as they were.
pub open spec fn word_pair_stored(buf: Seq<u8>, scanned: Seq<u8>) -> Seq<u8> {
    let text = without_trailing_whitespace(scanned);
    text + zeros((scanned.len() - text.len() + 1) as nat) + buf.subrange(
        scanned.len() as int + 1,
        buf.len() as int,
    )
}

pub proof fn lemma_whitespace_trimmed_len(s: Seq<u8>, n: int)
    requires
        0 <= n <= s.len(),
    ensures
        0 <= whitespace_trimmed_len(s, n) <= n,
        forall|j: int| whitespace_trimmed_len(s, n) <= j < n ==> is_ascii_whitespace(s[j]),
        whitespace_trimmed_len(s, n) > 0 ==> !is_ascii_whitespace(
            s[whitespace_trimmed_len(s, n) - 1],
        ),
    decreases n,
{
    if 0 < n && is_ascii_whitespace(s[n - 1]) {
        lemma_whitespace_trimmed_len(s, n - 1);
    }
}

/// The scan emits at most two bytes for each word, and never a null byte or a
/// space.
pub proof fn lemma_word_pair_scan(words: Seq<u32>, first: int, last: int)
    ensures
        first <= last ==> word_pair_scan(words, first, last).len() <= 2 * (last - first + 1),
        first > last ==> word_pair_scan(words, first, last).len() == 0,
        forall|j: int|
            0 <= j < word_pair_scan(words, first, last).len() ==> {
                &&& #[trigger] word_pair_scan(words, first, last)[j] != 0
                &&& word_pair_scan(words, first, last)[j] != 0x20
            },
    decreases last - first + 1,
{
    if first <= last {
        let hi = high_byte(words[first]);
        let lo = low_byte(words[first]);
        if hi != 0 && lo != 0 {
            lemma_word_pair_scan(words, first + 1, last);
        }
    }
}

/// Turns the words `i_first_index` through `i_last_index` of `dw_disk_data`
/// into a null-terminated string at the start of `pcsz_buf`.
///
/// Each word holds two characters, the first in its high byte. Spaces are left
/// out, the string ends at the first null byte, and whitespace at its end is
/// overwritten with null bytes.
pub fn convert_to_string(
    dw_disk_data: &[u32],
    i_first_index: usize,
    i_last_index: usize,
    pcsz_buf: &mut [u8],
)
    requires
        i_first_index <= i_last_index ==> i_last_index < dw_disk_data@.len(),
        old(pcsz_buf)@.len() > word_pair_scan(
            dw_disk_data@,
            i_first_index as int,
            i_last_index as int,
        ).len(),
    ensures
        final(pcsz_buf)@ == word_pair_stored(
            old(pcsz_buf)@,
            word_pair_scan(dw_disk_data@, i_first_index as int, i_last_index as int),
        ),
{
    let ghost scanned = word_pair_scan(dw_disk_data@, i_first_index as int, i_last_index as int);
    let mut i_position: usize = 0;
    let mut i_index: usize = i_first_index;
    let mut stopped = false;
    while !stopped && i_index <= i_last_index
        invariant
            i_first_index <= i_index,
            i_first_index <= i_last_index ==> i_last_index < dw_disk_data@.len(),
            pcsz_buf@.len() == old(pcsz_buf)@.len(),
            scanned.len() < pcsz_buf@.len(),
            i_position <= scanned.len(),
            scanned == pcsz_buf@.subrange(0, i_position as int) + (if stopped {
                Seq::<u8>::empty()
            } else {
                word_pair_scan(dw_disk_data@, i_index as int, i_last_index as int)
            }),
            forall|j: int| i_position <= j < pcsz_buf@.len() ==> pcsz_buf@[j] == old(pcsz_buf)@[j],
        decreases
                (if stopped {
                    0int
                } else {
                    i_last_index + 1 - i_index
                }),
    {
        let ghost before = pcsz_buf@.subrange(0, i_position as int);
        let w = dw_disk_data[i_index];
        let c_temp: u8 = ((w / 256) % 256) as u8;
        if c_temp == 0 {
            stopped = true;
        } else {
            if c_temp != 0x20 {
                pcsz_buf[i_position] = c_temp;
                i_position = i_position + 1;
            }
            assert(pcsz_buf@.subrange(0, i_position as int) =~= before + kept(c_temp));
            let ghost middle = pcsz_buf@.subrange(0, i_position as int);
            let c_temp1: u8 = (w % 256) as u8;
            if c_temp1 == 0 {
                stopped = true;
            } else {
                if c_temp1 != 0x20 {
                    pcsz_buf[i_position] = c_temp1;
                    i_position = i_position + 1;
                }
                assert(pcsz_buf@.subrange(0, i_position as int) =~= middle + kept(c_temp1));
                i_index = i_index + 1;
            }
        }
        assert(scanned =~= pcsz_buf@.subrange(0, i_position as int) + (if stopped {
            Seq::<u8>::empty()
        } else {
            word_pair_scan(dw_disk_data@, i_index as int, i_last_index as int)
        }));
    }
    assert(scanned =~= pcsz_buf@.subrange(0, i_position as int));
    pcsz_buf[i_position] = 0;
    let mut k: usize = i_position;
    while k > 0 && ascii_whitespace(pcsz_buf[k - 1])
        invariant
            k <= i_position,
            i_position == scanned.len(),
            i_position < pcsz_buf@.len(),
            pcsz_buf@.len() == old(pcsz_buf)@.len(),
            whitespace_trimmed_len(scanned, k as int) == whitespace_trimmed_len(
                scanned,
                scanned.len() as int,
            ),
            forall|j: int| 0 <= j < k ==> pcsz_buf@[j] == scanned[j],
            forall|j: int| k <= j <= i_position ==> pcsz_buf@[j] == 0,
            forall|j: int| i_position < j < pcsz_buf@.len() ==> pcsz_buf@[j] == old(pcsz_buf)@[j],
        decreases k,
    {
        k = k - 1;
        pcsz_buf[k] = 0;
    }
    assert(pcsz_buf@ =~= word_pair_stored(old(pcsz_buf)@, scanned));
}

/// A 16-bit integer from its two bytes in little-endian order.
pub open spec fn le_u16(lo: u8, hi: u8) -> u16 {
    (lo as int + 256 * (hi as int)) as u16
}

/// `byteorder::LittleEndian::read_u16`: the 16-bit integer that the first two
/// bytes of `buf` hold in little-endian order. The function panics on a buffer
/// of fewer than two bytes.
#[verifier::external_body]
fn read_u16_le(buf: &[u8]) -> (word: u16)
    requires
        buf@.len() >= 2,
    ensures
        word == le_u16(buf@[0], buf@[1]),
{
    LittleEndian::read_u16(buf)
}

/// Why identify data gave no serial number.
#[derive(Clone, Copy, Debug, PartialEq, Eq, Structural)]
pub enum ExtractError {
    /// The data ended before its 256 words were read.
    UnexpectedEof,
    /// The serial number field holds no text.
    EmptySerialNumber,
}

/// The 256 words of identify data, each read in little-endian order.
pub open spec fn identify_words(data: Seq<u8>) -> Seq<u32> {
    Seq::new(256, |i: int| le_u16(data[2 * i], data[2 * i + 1]) as u32)
}

/// The bytes of the serial number in identify data: what words 10 through 19
/// hold.
pub open spec fn identify_serial_bytes(data: Seq<u8>) -> Seq<u8> {
    word_pair_decode(identify_words(data), 10, 19)
}

/// A candidate text as a serial number: an empty one is none.
pub open spec fn nonempty_serial(candidate: Seq<char>) -> Result<Seq<char>, ExtractError> {
    if candidate.len() == 0 {
        Err(ExtractError::EmptySerialNumber)
    } else {
        Ok(candidate)
    }
}

/// The serial number that identify data holds.
pub open spec fn identify_serial(data: Seq<u8>) -> Result<Seq<char>, ExtractError> {
    if data.len() < 2 * 256 {
        Err(ExtractError::UnexpectedEof)
    } else {
        nonempty_serial(lossy_text(identify_serial_bytes(data)))
    }
}

/// Whether `r` is the result `expected`, text compared by its characters.
pub open spec fn is_serial_result(
    r: Result<String, ExtractError>,
    expected: Result<Seq<char>, ExtractError>,
) -> bool {
    match r {
        Ok(s) => expected == Ok::<Seq<char>, ExtractError>(s@),
        Err(e) => expected == Err::<Seq<char>, ExtractError>(e),
    }
}

/// Accepts a candidate text as a serial number unless it is empty.
pub fn require_nonempty(candidate: String) -> (r: Result<String, ExtractError>)
    ensures
        is_serial_result(r, nonempty_serial(candidate@)),
{
    if candidate.as_str().is_empty() {
        Err(ExtractError::EmptySerialNumber)
    } else {
        Ok(candidate)
    }
}

/// Reads the serial number from the data that the identify command returned.
///
/// The data is 256 little-endian words, of which words 10 through 19 hold the
/// serial number, two characters to a word. Data that is too short and a
/// serial number that is empty are errors.
pub fn extract_serial_from_identify_data(identify_data: &[u8]) -> (r: Result<
    String,
    ExtractError,
>)
    ensures
        is_serial_result(r, identify_serial(identify_data@)),
{
    if identify_data.len() < 2 * 256 {
        return Err(ExtractError::UnexpectedEof);
    }
    let mut dw_disk_data: Vec<u32> = Vec::new();
    let mut i_ijk: usize = 0;
    while i_ijk < 256
        invariant
            i_ijk <= 256,
            identify_data@.len() >= 2 * 256,
            dw_disk_data@.len() == i_ijk,
            forall|j: int| 0 <= j < i_ijk ==> dw_disk_data@[j] == identify_words(identify_data@)[j],
        decreases 256 - i_ijk,
    {
        let pair = slice_subrange(identify_data, 2 * i_ijk, 2 * i_ijk + 2);
        let word: u16 = read_u16_le(pair);
        dw_disk_data.push(word as u32);
        i_ijk = i_ijk + 1;
    }
    assert(dw_disk_data@ =~= identify_words(identify_data@));
    let mut csz_serial_number: Vec<u8> = vec![0u8; 1024];
    let ghost scanned = word_pair_scan(dw_disk_data@, 10, 19);
    proof {
        lemma_word_pair_scan(dw_disk_data@, 10, 19);
    }
    convert_to_string(dw_disk_data.as_slice(), 10, 19, csz_serial_number.as_mut_slice());
    proof {
        let text = without_trailing_whitespace(scanned);
        lemma_whitespace_trimmed_len(scanned, scanned.len() as int);
        assert(csz_serial_number@.subrange(0, text.len() as int) =~= text);
        lemma_padded_text(csz_serial_number@, text);
    }
    require_nonempty(string_from_buffer(csz_serial_number.as_slice()))
}

/// The drive and head register that selects a drive: the fixed pattern, and
/// in bit 4 the low bit of the drive's index, which tells master from slave.
pub open spec fn drive_head_select(b_drive_num: u8) -> u8 {
    0xA0u8 | ((b_drive_num & 1u8) << 4u8)
}

/// The register is the fixed pattern for a drive of even index and has bit 4
/// set besides for one of odd index.
pub proof fn lemma_drive_head_select(b_drive_num: u8)
    ensures
        drive_head_select(b_drive_num) == (if b_drive_num % 2 == 0 {
            0xA0u8
        } else {
            0xB0u8
        }),
{
    assert((0xA0u8 | ((b_drive_num & 1u8) << 4u8)) == (if b_drive_num % 2 == 0 {
        0xA0u8
    } else {
        0xB0u8
    })) by (bit_vector);
}

/// The command record `p` set up for the command `b_id_cmd` to the drive
/// `b_drive_num`: one sector of `IDENTIFY_BUFFER_SIZE` bytes is asked for.
pub open spec fn identify_command(p: SENDCMDINPARAMS, b_id_cmd: u8, b_drive_num: u8)
    -> SENDCMDINPARAMS {
    SENDCMDINPARAMS {
        c_buffer_size: IDENTIFY_BUFFER_SIZE as u32,
        ir_drive_regs: IDEREGS {
            b_features_reg: 0,
            b_sector_count_reg: 1,
            b_cyl_low_reg: 0,
            b_cyl_high_reg: 0,
            b_drive_head_reg: drive_head_select(b_drive_num),
            b_command_reg: b_id_cmd,
            ..p.ir_drive_regs
        },
        b_drive_number: b_drive_num,
        ..p
    }
}

/// Sets up `p_scip` for the identify command `b_id_cmd` to the drive
/// `b_drive_num` and returns the control request that sends it.
///
/// The request carries the command record without its last byte and asks for
/// a reply of the size of the result record and the identify data, less one
/// byte.
pub fn do_identify(p_scip: &mut SENDCMDINPARAMS, b_id_cmd: u8, b_drive_num: u8) -> (request:
    ControlRequest)
    ensures
        *final(p_scip) == identify_command(*old(p_scip), b_id_cmd, b_drive_num),
        request.control_code == DFP_RECEIVE_DRIVE_DATA,
        request.input@ == final(p_scip).layout().subrange(0, SENDCMDINPARAMS_SIZE - 1),
        request.output_size == SENDCMDOUTPARAMS_SIZE + IDENTIFY_BUFFER_SIZE - 1,
{
    p_scip.c_buffer_size = IDENTIFY_BUFFER_SIZE as u32;
    p_scip.ir_drive_regs.b_features_reg = 0;
    p_scip.ir_drive_regs.b_sector_count_reg = 1;
    p_scip.ir_drive_regs.b_cyl_low_reg = 0;
    p_scip.ir_drive_regs.b_cyl_high_reg = 0;
    p_scip.ir_drive_regs.b_drive_head_reg = 0xA0u8 | ((b_drive_num & 1u8) << 4u8);
    p_scip.ir_drive_regs.b_command_reg = b_id_cmd;
    p_scip.b_drive_number = b_drive_num;
    let mut input = p_scip.to_bytes();
    input.truncate(SENDCMDINPARAMS_SIZE - 1);
    ControlRequest {
        control_code: DFP_RECEIVE_DRIVE_DATA,
        input,
        output_size: (SENDCMDOUTPARAMS_SIZE + IDENTIFY_BUFFER_SIZE - 1) as u32,
    }
}

/// The word that holds the character `hi` in its high byte and `lo` in its
/// low byte.
pub open spec fn packed_word(hi: u8, lo: u8) -> u32 {
    (256 * (hi as int) + lo as int) as u32
}

/// The byte at `i` of `text` padded with spaces.
pub open spec fn padded_byte(text: Seq<u8>, i: int) -> u8 {
    if 0 <= i < text.len() {
        text[i]
    } else {
        0x20u8
    }
}

/// Whether the words `first` through `last` hold `text`, two characters to a
/// word, the first of them in the high byte, padded with spaces to the end of
/// the last word.
pub open spec fn holds_text(words: Seq<u32>, first: int, last: int, text: Seq<u8>) -> bool {
    &&& 0 <= first
    &&& first <= last + 1
    &&& last < words.len()
    &&& text.len() <= 2 * (last - first + 1)
    &&& forall|k: int|
        0 <= k <= last - first ==> #[trigger] words[first + k] == packed_word(
            padded_byte(text, 2 * k),
            padded_byte(text, 2 * k + 1),
        )
}

/// The bytes of `s` from `from` on, without the spaces.
pub open spec fn squeezed(s: Seq<u8>, from: int) -> Seq<u8>
    decreases s.len() - from,
{
    if 0 <= from < s.len() {
        kept(s[from]) + squeezed(s, from + 1)
    } else {
        Seq::empty()
    }
}

proof fn lemma_packed_word_bytes(hi: u8, lo: u8)
    ensures
        high_byte(packed_word(hi, lo)) == hi,
        low_byte(packed_word(hi, lo)) == lo,
{
}

proof fn lemma_scan_of_held_text(
    words: Seq<u32>,
    first: int,
    last: int,
    text: Seq<u8>,
    padded: Seq<u8>,
    i: int,
)
    requires
        holds_text(words, first, last, text),
        first <= i <= last + 1,
        padded.len() == 2 * (last - first + 1),
        forall|j: int| 0 <= j < padded.len() ==> padded[j] == padded_byte(text, j),
        forall|j: int| 0 <= j < text.len() ==> text[j] != 0,
    ensures
        word_pair_scan(words, i, last) == squeezed(padded, 2 * (i - first)),
    decreases last - i + 1,
{
    if i <= last {
        let k = i - first;
        assert(words[first + k] == packed_word(
            padded_byte(text, 2 * k),
            padded_byte(text, 2 * k + 1),
        ));
        lemma_packed_word_bytes(padded_byte(text, 2 * k), padded_byte(text, 2 * k + 1));
        lemma_scan_of_held_text(words, first, last, text, padded, i + 1);
        assert(padded[2 * k] == padded_byte(text, 2 * k));
        assert(padded[2 * k + 1] == padded_byte(text, 2 * k + 1));
        assert(squeezed(padded, 2 * k) == kept(padded[2 * k]) + squeezed(padded, 2 * k + 1));
        assert(squeezed(padded, 2 * k + 1) == kept(padded[2 * k + 1]) + squeezed(
            padded,
            2 * k + 2,
        ));
        assert(word_pair_scan(words, i, last) =~= squeezed(padded, 2 * k));
    }
}

proof fn lemma_squeezed_without_spaces(s: Seq<u8>, from: int, to: int)
    requires
        0 <= from <= to <= s.len(),
        forall|j: int| from <= j < to ==> s[j] != 0x20,
    ensures
        squeezed(s, from) == s.subrange(from, to) + squeezed(s, to),
    decreases to - from,
{
    if from < to {
        lemma_squeezed_without_spaces(s, from + 1, to);
        assert(squeezed(s, from) =~= s.subrange(from, to) + squeezed(s, to));
    } else {
        assert(squeezed(s, from) =~= s.subrange(from, to) + squeezed(s, to));
    }
}

proof fn lemma_squeezed_whitespace(s: Seq<u8>, from: int)
    requires
        0 <= from <= s.len(),
        forall|j: int| from <= j < s.len() ==> is_ascii_whitespace(s[j]),
    ensures
        forall|j: int|
            0 <= j < squeezed(s, from).len() ==> is_ascii_whitespace(
                #[trigger] squeezed(s, from)[j],
            ),
    decreases s.len() - from,
{
    if from < s.len() {
        lemma_squeezed_whitespace(s, from + 1);
        let head = kept(s[from]);
        let rest = squeezed(s, from + 1);
        assert forall|j: int| 0 <= j < squeezed(s, from).len() implies is_ascii_whitespace(
            #[trigger] squeezed(s, from)[j],
        ) by {
            if j < head.len() {
                assert(squeezed(s, from)[j] == s[from]);
            } else {
                assert(squeezed(s, from)[j] == rest[j - head.len()]);
            }
        }
    }
}

/// A text that ends in a byte that is no whitespace, followed by whitespace
/// only, is that text once the whitespace at the end is taken off.
pub proof fn lemma_trailing_whitespace_dropped(core: Seq<u8>, tail: Seq<u8>)
    requires
        core.len() > 0 ==> !is_ascii_whitespace(core[core.len() - 1]),
        forall|j: int| 0 <= j < tail.len() ==> is_ascii_whitespace(tail[j]),
    ensures
        without_trailing_whitespace(core + tail) == core,
{
    let s = core + tail;
    lemma_whitespace_trimmed_len(s, s.len() as int);
    let t = whitespace_trimmed_len(s, s.len() as int);
    if t > core.len() {
        assert(s[t - 1] == tail[t - 1 - core.len()]);
    }
    if t < core.len() {
        assert(s[core.len() - 1] == core[core.len() - 1]);
    }
    assert(without_trailing_whitespace(s) =~= core);
}

/// Decoding the words that hold a text returns the text without the
/// whitespace at its end.
///
/// The words `first` through `last` hold `text`, packed two characters to a
/// word and padded with spaces. The text holds no null byte, and no space but
/// at its end: the decoder leaves every space out, so that a space inside the
/// text would be lost.
pub proof fn lemma_word_pair_decode_of_held_text(
    words: Seq<u32>,
    first: int,
    last: int,
    text: Seq<u8>,
)
    requires
        holds_text(words, first, last, text),
        forall|j: int| 0 <= j < text.len() ==> text[j] != 0,
        forall|j: int|
            0 <= j < without_trailing_whitespace(text).len() ==> without_trailing_whitespace(
                text,
            )[j] != 0x20,
    ensures
        word_pair_decode(words, first, last) == without_trailing_whitespace(text),
{
    let n = 2 * (last - first + 1);
    let padded = Seq::new(n as nat, |j: int| padded_byte(text, j));
    lemma_scan_of_held_text(words, first, last, text, padded, first);
    lemma_whitespace_trimmed_len(text, text.len() as int);
    let c = whitespace_trimmed_len(text, text.len() as int);
    let core = without_trailing_whitespace(text);
    assert(core =~= padded.subrange(0, c));
    assert forall|j: int| 0 <= j < c implies padded[j] != 0x20 by {
        assert(core[j] == padded[j]);
    }
    lemma_squeezed_without_spaces(padded, 0, c);
    assert forall|j: int| c <= j < padded.len() implies is_ascii_whitespace(padded[j]) by {
        if j < text.len() {
            assert(is_ascii_whitespace(text[j]));
        }
    }
    lemma_squeezed_whitespace(padded, c);
    lemma_trailing_whitespace_dropped(core, squeezed(padded, c));
}

/// The decoder stops at the first null byte: words behind a word that holds
/// one add nothing.
pub proof fn lemma_word_pair_scan_stops(words: Seq<u32>, first: int, stop: int, last: int)
    requires
        first <= stop <= last,
        high_byte(words[stop]) == 0 || low_byte(words[stop]) == 0,
    ensures
        word_pair_scan(words, first, last) == word_pair_scan(words, first, stop),
    decreases stop - first,
{
    if first < stop {
        let hi = high_byte(words[first]);
        let lo = low_byte(words[first]);
        if hi != 0 && lo != 0 {
            lemma_word_pair_scan_stops(words, first + 1, stop, last);
        }
    }
}

/// The hexadecimal digit, a capital for the values above nine, of a value
/// below sixteen.
pub open spec fn hex_digit_of(v: int) -> u8 {
    if v < 10 {
        (0x30 + v) as u8
    } else {
        (0x41 + v - 10) as u8
    }
}

/// `text` written as hexadecimal digits, two for each byte.
pub open spec fn hex_encoded(text: Seq<u8>) -> Seq<u8> {
    Seq::new(
        2 * text.len(),
        |i: int|
            if i % 2 == 0 {
                hex_digit_of(text[i / 2] as int / 16)
            } else {
                hex_digit_of(text[i / 2] as int % 16)
            },
    )
}

proof fn lemma_hex_digit_value(v: int)
    requires
        0 <= v < 16,
    ensures
        hex_value(hex_digit_of(v)) == Some(v as u8),
{
}

/// The hexadecimal reading recovers a text from its hexadecimal digits,
/// where each byte of the text is null or a visible character.
pub proof fn lemma_hex_decode_of_encoded(text: Seq<u8>)
    requires
        forall|i: int| 0 <= i < text.len() ==> is_packed_output(#[trigger] text[i]),
    ensures
        is_hex_stream(hex_encoded(text)),
        heuristic_decode(hex_encoded(text)) == text,
{
    let f = hex_encoded(text);
    assert forall|i: int| 0 <= i < f.len() implies (#[trigger] hex_value(f[i])) is Some by {
        lemma_hex_digit_value(text[i / 2] as int / 16);
        lemma_hex_digit_value(text[i / 2] as int % 16);
    }
    assert forall|k: int| 0 <= k < f.len() / 2 implies #[trigger] packed_byte(f, k) == text[k] by {
        lemma_hex_digit_value(text[k] as int / 16);
        lemma_hex_digit_value(text[k] as int % 16);
        assert((2 * k) % 2 == 0);
        assert((2 * k + 1) % 2 == 1);
        assert((2 * k) / 2 == k);
        assert((2 * k + 1) / 2 == k);
    }
    assert(is_hex_stream(f)) by {
        assert forall|k: int| 0 <= k < f.len() / 2 implies is_packed_output(
            #[trigger] packed_byte(f, k),
        ) by {
            assert(is_packed_output(text[k]));
        }
    }
    assert(hex_packed(f) =~= text);
}

/// A text of content bytes only is its own content.
pub proof fn lemma_trim_span_of_content(text: Seq<u8>)
    requires
        forall|i: int| 0 <= i < text.len() ==> is_content(#[trigger] text[i]),
    ensures
        trim_span(text) == text,
{
    lemma_content_start_bounds(text, 0);
    lemma_content_end_bounds(text, text.len() as int);
    assert(trim_span(text) =~= text);
}

/// The heuristic decoder reads a field of hexadecimal digits as the text
/// that they encode, where the text is made of visible characters.
pub proof fn lemma_flip_and_code_hex(src: Seq<u8>, pos: int, text: Seq<u8>)
    requires
        field_at(src, pos) == hex_encoded(text),
        forall|i: int| 0 <= i < text.len() ==> is_ascii_graphic(#[trigger] text[i]),
    ensures
        flip_and_code(src, pos, false) == text,
{
    assert forall|i: int| 0 <= i < text.len() implies is_packed_output(#[trigger] text[i]) by {
        assert(is_ascii_graphic(text[i]));
    }
    lemma_hex_decode_of_encoded(text);
    assert forall|i: int| 0 <= i < text.len() implies is_content(#[trigger] text[i]) by {
        assert(is_ascii_graphic(text[i]));
    }
    lemma_trim_span_of_content(text);
}

/// The heuristic decoder copies a field that is no hexadecimal stream up to
/// its first byte that is not a visible character.
pub proof fn lemma_flip_and_code_fallback(src: Seq<u8>, pos: int)
    requires
        !is_hex_stream(field_at(src, pos)),
    ensures
        flip_and_code(src, pos, false) == graphic_prefix(field_at(src, pos)),
{
    let f = field_at(src, pos);
    lemma_graphic_end_bounds(f, 0);
    let g = graphic_prefix(f);
    assert forall|i: int| 0 <= i < g.len() implies is_content(#[trigger] g[i]) by {
        assert(is_ascii_graphic(f[i]));
    }
    lemma_trim_span_of_content(g);
}

/// Flipping swaps the two bytes of each pair, and flipping twice gives back a
/// sequence of even length.
pub proof fn lemma_flip_pairs(d: Seq<u8>)
    requires
        d.len() % 2 == 0,
    ensures
        flip_pairs(d).len() == d.len(),
        forall|i: int|
            0 <= i < d.len() ==> #[trigger] flip_pairs(d)[i] == (if i % 2 == 0 {
                d[i + 1]
            } else {
                d[i - 1]
            }),
        flip_pairs(flip_pairs(d)) == d,
{
    assert(flip_pairs(flip_pairs(d)) =~= d);
}

/// What the heuristic decoder reads is ASCII: every byte of it is null or a
/// visible character.
pub proof fn lemma_flip_and_code_ascii(src: Seq<u8>, pos: int, flip: bool)
    ensures
        is_ascii_bytes(flip_and_code(src, pos, flip)),
{
    let f = field_at(src, pos);
    let d = heuristic_decode(f);
    lemma_graphic_end_bounds(f, 0);
    assert forall|i: int| 0 <= i < d.len() implies is_packed_output(#[trigger] d[i]) by {
        if is_hex_stream(f) {
            assert(d[i] == packed_byte(f, i));
        } else {
            assert(is_ascii_graphic(f[i]));
        }
    }
    let e = if flip {
        flip_pairs(d)
    } else {
        d
    };
    assert forall|i: int| 0 <= i < e.len() implies is_packed_output(#[trigger] e[i]) by {
        if flip {
            let padded = if d.len() % 2 == 1 {
                d.push(0u8)
            } else {
                d
            };
            let j = if i % 2 == 0 {
                i + 1
            } else {
                i - 1
            };
            assert(e[i] == padded[j]);
            if j < d.len() {
                assert(is_packed_output(d[j]));
            }
        }
    }
    lemma_content_start_bounds(e, 0);
    lemma_content_end_bounds(e, e.len() as int);
    let r = flip_and_code(src, pos, flip);
    assert forall|i: int| 0 <= i < r.len() implies #[trigger] r[i] < 128 by {
        assert(r[i] == e[content_start(e, 0) + i]);
        assert(is_packed_output(e[content_start(e, 0) + i]));
    }
}

} // verus!
