//! Code points: UTF-8 encoding and decoding at byte positions, and the
//! Unicode classes that emphasis flanking and label folding use.

use vstd::prelude::*;
use vstd::utf8::*;
use crate::std_calls::{char_from_u32, char_is_alphanumeric, unicode_alphanumeric};

verus! {

/// The replacement character U+FFFD.
pub const REPLACEMENT: u32 = 0xFFFD;

/// A numeric character reference's code point: U+0000 and values that are
/// not Unicode scalars (surrogates, beyond U+10FFFF) become U+FFFD.
pub open spec fn resolve_cp_spec(cp: u32) -> u32 {
    if cp == 0 || !is_scalar(cp) {
        0xFFFD
    } else {
        cp
    }
}

pub fn is_scalar_value(cp: u32) -> (r: bool)
    ensures
        r == is_scalar(cp),
{
    cp <= 0x7F || (0x80 <= cp && cp <= 0x7FF) || (0x800 <= cp && cp <= 0xFFFF && !(0xD800 <= cp
        && cp <= 0xDFFF)) || (0x10000 <= cp && cp <= 0x10FFFF)
}

/// The code point a numeric reference resolves to.
pub fn resolve_cp(cp: u32) -> (r: u32)
    ensures
        r == resolve_cp_spec(cp),
        is_scalar(r),
{
    if cp == 0 || !is_scalar_value(cp) {
        REPLACEMENT
    } else {
        cp
    }
}

/// Append the UTF-8 encoding of the scalar `cp`.
pub fn push_codepoint(out: &mut Vec<u8>, cp: u32)
    requires
        is_scalar(cp),
    ensures
        final(out)@ == old(out)@ + encode_scalar(cp),
{
    if cp <= 0x7F {
        out.push((cp & 0x7F) as u8);
    } else if cp <= 0x7FF {
        out.push(0xC0 | ((cp >> 6) & 0x1F) as u8);
        out.push(0x80 | (cp & 0x3F) as u8);
    } else if cp <= 0xFFFF {
        out.push(0xE0 | ((cp >> 12) & 0x0F) as u8);
        out.push(0x80 | ((cp >> 6) & 0x3F) as u8);
        out.push(0x80 | (cp & 0x3F) as u8);
    } else {
        out.push(0xF0 | ((cp >> 18) & 0x7) as u8);
        out.push(0x80 | ((cp >> 12) & 0x3F) as u8);
        out.push(0x80 | ((cp >> 6) & 0x3F) as u8);
        out.push(0x80 | (cp & 0x3F) as u8);
    }
}

/// Number of bytes in the UTF-8 sequence led by `b` (1 for a stray
/// continuation byte).
pub open spec fn seq_len_spec(b: u8) -> int {
    if b < 0x80 {
        1
    } else if 0xC0 <= b <= 0xDF {
        2
    } else if 0xE0 <= b <= 0xEF {
        3
    } else if 0xF0 <= b <= 0xF7 {
        4
    } else {
        1
    }
}

pub fn seq_len(b: u8) -> (n: usize)
    ensures
        n == seq_len_spec(b),
        1 <= n <= 4,
{
    if b < 0x80 {
        1
    } else if 0xC0 <= b && b <= 0xDF {
        2
    } else if 0xE0 <= b && b <= 0xEF {
        3
    } else if 0xF0 <= b && b <= 0xF7 {
        4
    } else {
        1
    }
}

/// The code point encoded by `n` bytes starting at `i` (leading byte plus
/// continuation payloads).
pub open spec fn decode_spec(s: Seq<u8>, i: int, n: int) -> u32 {
    if n == 1 {
        s[i] as u32
    } else if n == 2 {
        codepoint_width_2(s[i], s[i + 1])
    } else if n == 3 {
        codepoint_width_3(s[i], s[i + 1], s[i + 2])
    } else {
        codepoint_width_4(s[i], s[i + 1], s[i + 2], s[i + 3])
    }
}

/// Decode the sequence of `n` bytes at `i`.
fn decode_n(s: &[u8], i: usize, n: usize) -> (cp: u32)
    requires
        1 <= n <= 4,
        i + n <= s@.len(),
    ensures
        cp == decode_spec(s@, i as int, n as int),
{
    if n == 1 {
        s[i] as u32
    } else if n == 2 {
        (((s[i] & 0x1F) as u32) << 6) | ((s[i + 1] & 0x3F) as u32)
    } else if n == 3 {
        (((s[i] & 0x0F) as u32) << 12) | (((s[i + 1] & 0x3F) as u32) << 6) | ((s[i + 2]
            & 0x3F) as u32)
    } else {
        (((s[i] & 0x07) as u32) << 18) | (((s[i + 1] & 0x3F) as u32) << 12) | (((s[i + 2]
            & 0x3F) as u32) << 6) | ((s[i + 3] & 0x3F) as u32)
    }
}

/// The code point starting at byte `i`, or `None` at the end of `s`. A
/// sequence cut short by the end of `s` reads as its leading byte.
pub fn char_at(s: &[u8], i: usize) -> (r: Option<u32>)
    ensures
        i >= s@.len() ==> r is None,
        i < s@.len() ==> r is Some,
        i < s@.len() && s@[i as int] < 0x80 ==> r == Some(s@[i as int] as u32),
        i < s@.len() && i + seq_len_spec(s@[i as int]) <= s@.len() ==> r == Some(
            decode_spec(s@, i as int, seq_len_spec(s@[i as int])),
        ),
        i < s@.len() && i + seq_len_spec(s@[i as int]) > s@.len() ==> r == Some(s@[i as int] as u32),
{
    if i >= s.len() {
        return None;
    }
    let n = seq_len(s[i]);
    if n > s.len() - i {
        return Some(s[i] as u32);
    }
    Some(decode_n(s, i, n))
}

/// Walking back from `j` over continuation bytes, at most `3 - steps` of
/// them and not past index 0: where the walk stops.
pub open spec fn back_walk(s: Seq<u8>, j: int, steps: int) -> int
    decreases j,
{
    if j > 0 && steps < 3 && 0x80 <= s[j] <= 0xBF {
        back_walk(s, j - 1, steps + 1)
    } else {
        j
    }
}

/// The code point that ends just before byte `i`: an ASCII byte as itself;
/// else the sequence from the leading byte found by walking back, when its
/// length fits; else the byte before `i` as it is.
pub open spec fn char_before_spec(s: Seq<u8>, i: int) -> Option<u32> {
    if i <= 0 {
        None
    } else if s[i - 1] < 0x80 {
        Some(s[i - 1] as u32)
    } else {
        let j = back_walk(s, i - 1, 0);
        let n = i - j;
        if 1 <= n <= 4 && n == seq_len_spec(s[j]) {
            Some(decode_spec(s, j, n))
        } else {
            Some(s[i - 1] as u32)
        }
    }
}

/// The code point that ends just before byte `i`, or `None` when `i == 0`.
/// Walks back over at most three continuation bytes to the leading byte.
pub fn char_before(s: &[u8], i: usize) -> (r: Option<u32>)
    requires
        i <= s@.len(),
    ensures
        r == char_before_spec(s@, i as int),
        i == 0 ==> r is None,
        i > 0 ==> r is Some,
        i > 0 && s@[i - 1] < 0x80 ==> r == Some(s@[i - 1] as u32),
{
    if i == 0 {
        return None;
    }
    if s[i - 1] < 0x80 {
        return Some(s[i - 1] as u32);
    }
    let mut j = i - 1;
    let mut steps: usize = 0;
    while j > 0 && steps < 3 && 0x80 <= s[j] && s[j] <= 0xBF
        invariant
            j < i,
            i <= s@.len(),
            steps <= 3,
            back_walk(s@, j as int, steps as int) == back_walk(s@, i - 1, 0),
        decreases j,
    {
        j -= 1;
        steps += 1;
    }
    let n = i - j;
    if 1 <= n && n <= 4 && n == seq_len(s[j]) {
        Some(decode_n(s, j, n))
    } else {
        Some(s[i - 1] as u32)
    }
}

/// Unicode `White_Space` (what `char::is_whitespace` answers).
pub open spec fn is_unicode_ws_spec(c: u32) -> bool {
    (0x09 <= c <= 0x0D) || c == 0x20 || c == 0x85 || c == 0xA0 || c == 0x1680 || (0x2000 <= c
        <= 0x200A) || c == 0x2028 || c == 0x2029 || c == 0x202F || c == 0x205F || c == 0x3000
}

pub fn is_unicode_ws(c: u32) -> (r: bool)
    ensures
        r == is_unicode_ws_spec(c),
{
    (0x09 <= c && c <= 0x0D) || c == 0x20 || c == 0x85 || c == 0xA0 || c == 0x1680 || (0x2000
        <= c && c <= 0x200A) || c == 0x2028 || c == 0x2029 || c == 0x202F || c == 0x205F || c
        == 0x3000
}

/// Is the code point alphanumeric (Unicode `Alphabetic` or `Numeric`)? A
/// value that is not a scalar is not.
pub fn is_alphanumeric_cp(c: u32) -> (r: bool)
    ensures
        c < 0x80 ==> (r == ((0x30 <= c <= 0x39) || (0x41 <= c <= 0x5a) || (0x61 <= c <= 0x7a))),
        is_scalar(c) ==> (exists|ch: char| ch as u32 == c && r == unicode_alphanumeric(ch)),
        !is_scalar(c) ==> !r,
        r == (is_scalar(c) && unicode_alphanumeric(c as char)),
{
    match char_from_u32(c) {
        Some(ch) => {
            proof {
                char_u32_cast(ch, c);
            }
            char_is_alphanumeric(ch)
        },
        None => false,
    }
}

/// Emphasis boundary: is the neighbouring character (`None` at the edge of
/// the text) whitespace?
pub fn boundary_ws(c: Option<u32>) -> (r: bool)
    ensures
        r == match c {
            None => true,
            Some(x) => is_unicode_ws_spec(x),
        },
{
    match c {
        None => true,
        Some(x) => is_unicode_ws(x),
    }
}

/// Emphasis boundary: is the neighbouring character punctuation? ASCII
/// punctuation, or a non-ASCII character that is neither alphanumeric nor
/// whitespace.
pub fn boundary_punct(c: Option<u32>) -> (r: bool)
    ensures
        c is None ==> !r,
        c is Some && c->0 < 0x80 ==> (r == crate::bytes::is_punct_spec(c->0 as u8)),
        c is Some && c->0 >= 0x80 ==> (r == (!(is_scalar(c->0) && unicode_alphanumeric(c->0 as char))
            && !is_unicode_ws_spec(c->0))),
{
    match c {
        None => false,
        Some(x) => {
            if x < 0x80 {
                crate::bytes::is_ascii_punct(x as u8)
            } else {
                !is_alphanumeric_cp(x) && !is_unicode_ws(x)
            }
        },
    }
}

} // verus!
