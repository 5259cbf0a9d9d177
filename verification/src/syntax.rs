#![verifier::loop_isolation(false)]
//! Inline syntax recognizers: character references, code spans, autolinks,
//! raw HTML, link destinations/titles/labels, reference definitions, label
//! normalization, and the GFM extended-autolink scanners.

use vstd::prelude::*;
use vstd::utf8::{encode_scalar, is_scalar};
use vstd::string::StringSliceAdditionalSpecFns;
use crate::bytes::{
    is_punct_spec, append, append_str, find_sub, first_byte_from, first_occurrence, is_alnum, is_alnum_spec, is_alpha,
    is_alpha_spec, is_ascii_punct, is_digit, is_first_byte, lead, lemma_first_byte, run_len, slice,
    starts_at, starts_with_str, tail, SP,
};
use crate::chars::{push_codepoint, resolve_cp, resolve_cp_spec, seq_len};
use crate::entities::{entity_value, named};
use crate::escape::{escape_href, escape_html_bytes, esc_byte, esc_text, href_text, push_escaped_byte};

verus! {

/// A resolved character reference: a numeric code point (already mapped to a
/// scalar), or the expansion of a named entity.
pub enum Resolved {
    Cp(u32),
    Text(&'static str),
}

/// A digit of a numeric character reference: decimal, or also `a`-`f` and
/// `A`-`F` when `hex`.
pub open spec fn ref_digit(c: u8, hex: bool) -> bool {
    (0x30 <= c <= 0x39) || (hex && ((0x61 <= c <= 0x66) || (0x41 <= c <= 0x46)))
}

/// The value of a reference digit.
pub open spec fn ref_digit_val(c: u8) -> int {
    if 0x30 <= c <= 0x39 {
        c - 0x30
    } else if 0x61 <= c <= 0x66 {
        c - 0x61 + 10
    } else {
        c - 0x41 + 10
    }
}

/// The number of reference digits of `s` in a row from `d`.
pub open spec fn ref_digits_len(s: Seq<u8>, d: int, hex: bool) -> int
    decreases s.len() - d,
{
    if 0 <= d < s.len() && ref_digit(s[d], hex) {
        1 + ref_digits_len(s, d + 1, hex)
    } else {
        0
    }
}

/// The value of the `n` digits of `s` from `d`, in `base`.
pub open spec fn ref_value(s: Seq<u8>, d: int, n: int, base: int) -> int
    decreases n,
{
    if n <= 0 {
        0
    } else {
        ref_value(s, d, n - 1, base) * base + ref_digit_val(s[d + n - 1])
    }
}

/// `base` to the power `n`, for the digit counts a reference allows.
pub open spec fn digits_bound(n: int, base: int) -> int
    decreases n,
{
    if n <= 0 {
        1
    } else {
        digits_bound(n - 1, base) * base
    }
}

/// The numeric character reference `&#digits;` or `&#xhex;` at `s[i]`: its
/// resolved code point and its length. One to seven decimal or one to six
/// hexadecimal digits.
pub open spec fn numeric_ref(s: Seq<u8>, i: int) -> Option<(u32, int)> {
    let hex = i + 2 < s.len() && (s[i + 2] == 0x78 || s[i + 2] == 0x58);
    let d = if hex {
        i + 3
    } else {
        i + 2
    };
    let n = ref_digits_len(s, d, hex);
    let max: int = if hex {
        6
    } else {
        7
    };
    let base: int = if hex {
        16
    } else {
        10
    };
    if 0 < n <= max && d + n < s.len() && s[d + n] == 0x3b {
        Some((resolve_cp_spec(ref_value(s, d, n, base) as u32), d + n + 1 - i))
    } else {
        None
    }
}

/// The end of the run of ASCII letters and digits of `s` from `k`.
pub open spec fn alnum_end(s: Seq<u8>, k: int) -> int
    decreases s.len() - k,
{
    if 0 <= k < s.len() && is_alnum_spec(s[k]) {
        alnum_end(s, k + 1)
    } else {
        k
    }
}

/// Value of one hex digit.
fn hex_val(c: u8) -> (r: Option<u32>)
    ensures
        r is Some <==> ref_digit(c, true),
        r matches Some(v) ==> v == ref_digit_val(c) && v < 16,
{
    if is_digit(c) {
        Some((c - 0x30) as u32)
    } else if 0x61 <= c && c <= 0x66 {
        Some((c - 0x61 + 10) as u32)
    } else if 0x41 <= c && c <= 0x46 {
        Some((c - 0x41 + 10) as u32)
    } else {
        None
    }
}

/// Try to parse an entity or numeric character reference at `bytes[i]`
/// (`&`). Returns the resolved value and the bytes consumed, including the
/// `&` and `;`.
#[verifier::rlimit(30)]
pub fn parse_entity(bytes: &[u8], i: usize) -> (r: Option<(Resolved, usize)>)
    requires
        i < bytes@.len(),
    ensures
        r matches Some((v, n)) ==> 3 <= n && i + n <= bytes@.len() && bytes@[i + n - 1] == 0x3b,
        r matches Some((Resolved::Cp(cp), n)) ==> is_scalar(cp) && cp != 0,
        i + 1 < bytes@.len() && bytes@[i + 1] == 0x23 ==> (r is Some <==> numeric_ref(bytes@, i as int) is Some)
            && (r matches Some((v, n)) ==> (v matches Resolved::Cp(cp) && numeric_ref(bytes@, i as int) == Some((cp, n as int)))),
        !(i + 1 < bytes@.len() && bytes@[i + 1] == 0x23) ==> ({
            let e = alnum_end(bytes@, i + 1);
            let name = bytes@.subrange(i + 1, e);
            &&& (r is Some <==> e > i + 1 && e < bytes@.len() && bytes@[e] == 0x3b && entity_value(name) is Some)
            &&& (r matches Some((v, n)) ==> n == e + 1 - i && (v matches Resolved::Text(t) && entity_value(name) == Some(t)))
        }),
{
    let len = bytes.len();
    if i + 1 < len && bytes[i + 1] == 0x23 {
        let mut d = i + 2;
        let hex = d < len && (bytes[d] == 0x78 || bytes[d] == 0x58);
        if hex {
            d = d + 1;
        }
        let max: usize = if hex { 6 } else { 7 };
        let base: u32 = if hex { 16 } else { 10 };
        proof {
            assert(digits_bound(0, base as int) == 1);
            assert(digits_bound(1, base as int) == base);
            assert(digits_bound(2, base as int) == digits_bound(1, base as int) * base);
            assert(digits_bound(3, base as int) == digits_bound(2, base as int) * base);
            assert(digits_bound(4, base as int) == digits_bound(3, base as int) * base);
            assert(digits_bound(5, base as int) == digits_bound(4, base as int) * base);
            assert(digits_bound(6, base as int) == digits_bound(5, base as int) * base);
            assert(digits_bound(max - 1, base as int) <= 0x100_0000);
        }
        let mut value: u32 = 0;
        let mut n: usize = 0;
        while d + n < len
            invariant
                d <= len,
                d + n <= len,
                d == (if hex { i + 3 } else { i + 2 }),
                hex == (i + 2 < bytes@.len() && (bytes@[i + 2] == 0x78 || bytes@[i + 2] == 0x58)),
                max == (if hex { 6usize } else { 7usize }),
                base == (if hex { 16u32 } else { 10u32 }),
                len == bytes@.len(),
                n <= max,
                digits_bound(max - 1, base as int) <= 0x100_0000,
                value == ref_value(bytes@, d as int, n as int, base as int),
                value < digits_bound(n as int, base as int),
                ref_digits_len(bytes@, d as int, hex) == n + ref_digits_len(bytes@, (d + n) as int, hex),
            decreases len - d - n,
        {
            let c = bytes[d + n];
            let dv: u32 = if is_digit(c) {
                (c - 0x30) as u32
            } else if hex {
                match hex_val(c) {
                    Some(v) => v,
                    None => break,
                }
            } else {
                break;
            };
            proof {
                assert(ref_digits_len(bytes@, (d + n) as int, hex) == 1 + ref_digits_len(bytes@, (d + n + 1) as int, hex));
                lemma_ref_digits_len_nonneg(bytes@, (d + n + 1) as int, hex);
            }
            if n == max {
                return None;
            }
            proof {
                lemma_digits_bound_mono(n as int, max - 1, base as int);
                let v = value as int;
                let bn = digits_bound(n as int, base as int);
                assert(bn > 0) by {
                    lemma_digits_bound_mono(0, n as int, base as int);
                }
                assert(v * base + dv < bn * base) by (nonlinear_arith)
                    requires
                        v < bn,
                        dv < base,
                        base > 0,
                ;
                assert(digits_bound(n + 1, base as int) == bn * base);
            }
            // At most seven digits, so the value stays far below the cap;
            // the cap only guards the arithmetic.
            value = if value >= 0x100_0000 { 0x1000_0000 } else { value * base + dv };
            n += 1;
        }
        proof {
            if d + n < len && !ref_digit(bytes@[(d + n) as int], hex) {
                assert(ref_digits_len(bytes@, (d + n) as int, hex) == 0);
            }
        }
        if n == 0 || !(d + n < len && bytes[d + n] == 0x3b) {
            return None;
        }
        let consumed = d + n + 1 - i;
        return Some((Resolved::Cp(resolve_cp(value)), consumed));
    }
    let mut n: usize = 0;
    while i + 1 + n < len && is_alnum(bytes[i + 1 + n])
        invariant
            i + 1 <= len,
            len == bytes@.len(),
            i + 1 + n <= len,
            forall|k: int| i + 1 <= k < i + 1 + n ==> is_alnum_spec(#[trigger] bytes@[k]),
            alnum_end(bytes@, i + 1 + n) == alnum_end(bytes@, i + 1),
        decreases len - i - 1 - n,
    {
        n += 1;
    }
    if n == 0 || !(i + 1 + n < len && bytes[i + 1 + n] == 0x3b) {
        return None;
    }
    let name = slice(bytes, i + 1, i + 1 + n);
    match named(name) {
        Some(t) => Some((Resolved::Text(t), n + 2)),
        None => None,
    }
}

/// A digit count is never negative.
proof fn lemma_ref_digits_len_nonneg(s: Seq<u8>, d: int, hex: bool)
    ensures
        ref_digits_len(s, d, hex) >= 0,
    decreases s.len() - d,
{
    if 0 <= d < s.len() && ref_digit(s[d], hex) {
        lemma_ref_digits_len_nonneg(s, d + 1, hex);
    }
}

/// `digits_bound` grows with the digit count.
proof fn lemma_digits_bound_mono(a: int, b: int, base: int)
    requires
        0 <= a <= b,
        base >= 1,
    ensures
        1 <= digits_bound(a, base) <= digits_bound(b, base),
    decreases b - a,
{
    if a < b {
        lemma_digits_bound_mono(a, b - 1, base);
        assert(digits_bound(b, base) == digits_bound(b - 1, base) * base);
        assert(digits_bound(b - 1, base) * base >= digits_bound(b - 1, base)) by (nonlinear_arith)
            requires
                base >= 1,
                digits_bound(b - 1, base) >= 1,
        ;
    } else {
        lemma_digits_bound_base(a, base);
    }
}

/// `digits_bound` is at least one.
proof fn lemma_digits_bound_base(n: int, base: int)
    requires
        base >= 1,
    ensures
        digits_bound(n, base) >= 1,
    decreases n,
{
    if n > 0 {
        lemma_digits_bound_base(n - 1, base);
        assert(digits_bound(n - 1, base) * base >= 1) by (nonlinear_arith)
            requires
                base >= 1,
                digits_bound(n - 1, base) >= 1,
        ;
    }
}

/// Append a resolved code point, HTML-escaping the text specials.
pub fn push_char_escaped(out: &mut Vec<u8>, cp: u32)
    requires
        is_scalar(cp),
    ensures
        final(out)@ == old(out)@ + (if cp < 0x80 {
            esc_byte(cp as u8)
        } else {
            vstd::utf8::encode_scalar(cp)
        }),
{
    if cp < 0x80 {
        push_escaped_byte(out, cp as u8);
    } else {
        push_codepoint(out, cp);
    }
}

/// Append the expansion of a named entity, HTML-escaping the text specials.
pub fn push_str_escaped(out: &mut Vec<u8>, s: &str)
    ensures
        final(out)@ == old(out)@ + crate::escape::esc_text(s.spec_bytes()),
{
    escape_html_bytes(s.as_bytes(), out);
}

/// Does `s` contain a backslash or an ampersand?
pub open spec fn has_escapes(s: Seq<u8>) -> bool {
    exists|k: int| 0 <= k < s.len() && (s[k] == 0x5c || s[k] == 0x26)
}

/// The character reference at `s[i]` (`&`): the bytes it stands for and
/// its length.
pub open spec fn ref_at(s: Seq<u8>, i: int) -> Option<(Seq<u8>, int)> {
    if i + 1 < s.len() && s[i + 1] == 0x23 {
        match numeric_ref(s, i) {
            Some((cp, n)) => Some((encode_scalar(cp), n)),
            None => None,
        }
    } else {
        let e = alnum_end(s, i + 1);
        if e > i + 1 && e < s.len() && s[e] == 0x3b {
            match entity_value(s.subrange(i + 1, e)) {
                Some(t) => Some((t.spec_bytes(), e + 1 - i)),
                None => None,
            }
        } else {
            None
        }
    }
}

/// The raw value of `s` from `i` on: a backslash before ASCII punctuation
/// gives that punctuation, a character reference gives its expansion, and
/// every other byte is kept.
pub open spec fn unescaped_from(s: Seq<u8>, i: int) -> Seq<u8>
    decreases s.len() - i,
{
    if i < 0 || i >= s.len() {
        Seq::empty()
    } else if s[i] == 0x5c && i + 1 < s.len() && is_punct_spec(s[i + 1]) {
        seq![s[i + 1]] + unescaped_from(s, i + 2)
    } else if s[i] == 0x26 && ref_at(s, i) is Some {
        let (t, c) = ref_at(s, i)->0;
        proof {
            lemma_ref_at_len(s, i);
        }
        t + unescaped_from(s, i + c)
    } else {
        seq![s[i]] + unescaped_from(s, i + 1)
    }
}

/// A character reference takes at least three bytes.
pub proof fn lemma_ref_at_len(s: Seq<u8>, i: int)
    ensures
        ref_at(s, i) matches Some((t, c)) ==> c >= 3,
{
}

/// Resolve backslash escapes and entity references in `s`, returning the raw
/// character value (link destinations and titles before attribute escaping).
/// Text without `\` or `&` comes back unchanged.
#[verifier::rlimit(30)]
pub fn unescape_string(s: &[u8]) -> (r: Vec<u8>)
    ensures
        r@ == unescaped_from(s@, 0),
        !has_escapes(s@) ==> r@ == s@,
{
    let mut out: Vec<u8> = Vec::new();
    let mut i: usize = 0;
    let len = s.len();
    while i < len
        invariant
            i <= len,
            len == s@.len(),
            out@ + unescaped_from(s@, i as int) == unescaped_from(s@, 0),
            !has_escapes(s@) ==> out@ == s@.subrange(0, i as int),
        decreases len - i,
    {
        let ghost prev = out@;
        let b = s[i];
        if b == 0x5c && i + 1 < len && is_ascii_punct(s[i + 1]) {
            out.push(s[i + 1]);
            proof {
                assert(out@ + unescaped_from(s@, i + 2) =~= prev + unescaped_from(s@, i as int));
                if !has_escapes(s@) {
                    assert(s@[i as int] == 0x5c);
                }
            }
            i += 2;
        } else if b == 0x26 {
            proof {
                if !has_escapes(s@) {
                    assert(s@[i as int] == 0x26);
                }
            }
            match parse_entity(s, i) {
                Some((Resolved::Cp(cp), c)) => {
                    push_codepoint(&mut out, cp);
                    proof {
                        assert(out@ + unescaped_from(s@, i + c) =~= prev + unescaped_from(s@, i as int));
                    }
                    i += c;
                },
                Some((Resolved::Text(t), c)) => {
                    append_str(&mut out, t);
                    proof {
                        assert(out@ + unescaped_from(s@, i + c) =~= prev + unescaped_from(s@, i as int));
                    }
                    i += c;
                },
                None => {
                    out.push(0x26);
                    proof {
                        assert(out@ + unescaped_from(s@, i + 1) =~= prev + unescaped_from(s@, i as int));
                    }
                    i += 1;
                },
            }
        } else {
            out.push(b);
            proof {
                assert(out@ + unescaped_from(s@, i + 1) =~= prev + unescaped_from(s@, i as int));
                if !has_escapes(s@) {
                    assert(s@.subrange(0, i as int).push(b) =~= s@.subrange(0, i + 1));
                }
            }
            i += 1;
        }
    }
    proof {
        assert(out@ =~= out@ + unescaped_from(s@, len as int));
        assert(s@.subrange(0, len as int) =~= s@);
    }
    out
}

/// A code span is bounded by spaces and is not all spaces: one space is
/// stripped from each end.
pub open spec fn code_strips(s: Seq<u8>) -> bool {
    s.len() >= 2 && s[0] == 0x20 && s.last() == 0x20 && exists|k: int| 0 <= k < s.len() && s[k] != 0x20
}

/// A code span's content with line endings turned into spaces.
pub open spec fn code_text(content: Seq<u8>) -> Seq<u8> {
    content.map_values(|c: u8| if c == 0x0a { 0x20u8 } else { c })
}

/// What a code span's content renders to inside `<code>`.
pub open spec fn code_inner(content: Seq<u8>) -> Seq<u8> {
    let t = code_text(content);
    if code_strips(t) {
        esc_text(t.subrange(1, t.len() - 1))
    } else {
        esc_text(t)
    }
}

fn code_span_strips(s: &[u8]) -> (r: bool)
    ensures
        r == code_strips(s@),
{
    if s.len() < 2 || s[0] != 0x20 || s[s.len() - 1] != 0x20 {
        return false;
    }
    let n = lead(s, SP);
    if n < s.len() {
        assert(s@[n as int] != 0x20);
        true
    } else {
        false
    }
}

/// Render a code span interior: line endings become spaces, and one space is
/// stripped from each end when both ends are spaces (but not all-spaces).
pub fn emit_code_span(content: &[u8], out: &mut Vec<u8>)
    ensures
        final(out)@ == old(out)@ + "<code>".spec_bytes() + code_inner(content@) + "</code>".spec_bytes(),
{
    append_str(out, "<code>");
    let mut s: Vec<u8> = Vec::new();
    let mut k: usize = 0;
    while k < content.len()
        invariant
            k <= content.len(),
            s@ == code_text(content@.subrange(0, k as int)),
        decreases content.len() - k,
    {
        let c = content[k];
        s.push(if c == 0x0a { 0x20 } else { c });
        proof {
            assert(code_text(content@.subrange(0, k + 1)) =~= code_text(content@.subrange(0, k as int)).push(if c == 0x0a { 0x20u8 } else { c }));
        }
        k += 1;
    }
    assert(content@.subrange(0, content@.len() as int) =~= content@);
    if code_span_strips(s.as_slice()) {
        escape_html_bytes(slice(s.as_slice(), 1, s.len() - 1), out);
    } else {
        escape_html_bytes(s.as_slice(), out);
    }
    append_str(out, "</code>");
}

/// Try to parse a code span opening at `b[i]` (a backtick). On success emits
/// `<code>…</code>` and returns the index past the closing backticks; on
/// failure emits nothing.
#[verifier::rlimit(30)]
pub fn try_code_span(b: &[u8], i: usize, out: &mut Vec<u8>) -> (r: Option<usize>)
    requires
        i < b@.len(),
        b@[i as int] == 0x60,
    ensures
        r matches Some(e) ==> i < e <= b@.len() && exists|n: int, j: int|
            #![trigger crate::lines::run_is(b@, j, 0x60, n)]
            crate::lines::run_is(b@, i as int, 0x60, n) && i + n <= j && e == j + n
                && crate::lines::run_is(b@, j, 0x60, n) && final(out)@ == old(out)@
                + "<code>".spec_bytes() + code_inner(b@.subrange(i + n, j)) + "</code>".spec_bytes()
                && code_close(b@, i as int, n, j) && forall|j2: int| i + n < j2 < j ==> !#[trigger] code_close(b@, i as int, n, j2),
        r is None ==> final(out)@ == old(out)@,
        r is None ==> forall|n: int, j: int| crate::lines::run_is(b@, i as int, 0x60, n) ==> !#[trigger] code_close(b@, i as int, n, j),
{
    let len = b.len();
    let open_len = run_len(b, i, 0x60);
    let content_start = i + open_len;
    proof {
        assert(crate::lines::run_is(b@, i as int, 0x60, open_len as int));
    }
    let mut j = content_start;
    while j < len
        invariant
            i < content_start <= j <= len,
            content_start == i + open_len,
            crate::lines::run_is(b@, i as int, 0x60, open_len as int),
            len == b@.len(),
            out@ == old(out)@,
            j < len && b@[j as int] == 0x60 ==> b@[j - 1] != 0x60,
            forall|j2: int| content_start < j2 < j ==> !#[trigger] code_close(b@, i as int, open_len as int, j2),
        decreases len - j,
    {
        if b[j] == 0x60 {
            let run = run_len(b, j, 0x60);
            proof {
                assert(crate::lines::run_is(b@, j as int, 0x60, run as int));
                if content_start == j {
                    assert(b@[j as int] != 0x60);
                }
            }
            if run == open_len {
                let content = slice(b, content_start, j);
                emit_code_span(content, out);
                proof {
                    assert(content@ == b@.subrange(content_start as int, j as int));
                    assert(code_close(b@, i as int, open_len as int, j as int));
                }
                return Some(j + run);
            }
            proof {
                assert forall|j2: int| content_start < j2 < j + run implies !#[trigger] code_close(b@, i as int, open_len as int, j2) by {
                    if j2 == j {
                        if code_close(b@, i as int, open_len as int, j2) {
                            crate::lines::lemma_run_unique(b@, j as int, 0x60, run as int, open_len as int);
                        }
                    } else if j < j2 {
                        assert(b@[j2 - 1] == 0x60);
                    }
                }
            }
            j += run;
        } else {
            proof {
                assert(!code_close(b@, i as int, open_len as int, j as int));
            }
            j += 1;
        }
    }
    proof {
        assert forall|n: int, j2: int| crate::lines::run_is(b@, i as int, 0x60, n) implies !#[trigger] code_close(b@, i as int, n, j2) by {
            crate::lines::lemma_run_unique(b@, i as int, 0x60, n, open_len as int);
        }
    }
    None
}

/// A closing backtick run of length `n` for the code span opened at `i`
/// starts at `j`: a run of exactly `n` backticks past the opening run.
pub open spec fn code_close(b: Seq<u8>, i: int, n: int, j: int) -> bool {
    &&& i + n < j
    &&& b[j - 1] != 0x60
    &&& crate::lines::run_is(b, j, 0x60, n)
}

/// A URI scheme byte: letter, digit, `+`, `.`, `-`.
pub open spec fn scheme_byte(c: u8) -> bool {
    crate::bytes::is_alnum_spec(c) || c == 0x2b || c == 0x2e || c == 0x2d
}

/// `s` is an absolute URI whose scheme ends at the colon at `c`.
pub open spec fn uri_at(s: Seq<u8>, c: int) -> bool {
    &&& 2 <= c <= 32 && c < s.len() && s[c] == 0x3a
    &&& crate::bytes::is_alpha_spec(s[0])
    &&& forall|k: int| 0 <= k < c ==> scheme_byte(#[trigger] s[k])
    &&& forall|k: int| c < k < s.len() ==> #[trigger] s[k] > 0x20 && s[k] != 0x3c
}

/// Is `s` (between `<` and `>`) an absolute-URI autolink: a scheme of 2–32
/// letters, digits, `+`, `.`, `-` starting with a letter, a colon, then no
/// control character, space, or `<`?
pub fn is_uri_autolink(s: &[u8]) -> (r: bool)
    ensures
        r == exists|c: int| uri_at(s@, c),
{
    let colon = match crate::scan::memchr1(s, 0x3a) {
        Some(c) => c,
        None => {
            assert(forall|c: int| !uri_at(s@, c));
            return false;
        },
    };
    // The scheme holds no colon, so a witness colon is the first one.
    assert forall|c: int| uri_at(s@, c) implies c == colon by {
        if c > colon {
            assert(scheme_byte(s@[colon as int]));
        }
    }
    if colon < 2 || colon > 32 || !is_alpha(s[0]) {
        return false;
    }
    let mut k: usize = 0;
    while k < colon
        invariant
            k <= colon,
            colon < s@.len(),
            forall|j: int| 0 <= j < k ==> scheme_byte(#[trigger] s@[j]),
        decreases colon - k,
    {
        let c = s[k];
        if !(is_alnum(c) || c == 0x2b || c == 0x2e || c == 0x2d) {
            assert(!uri_at(s@, colon as int));
            return false;
        }
        k += 1;
    }
    let mut k = colon + 1;
    while k < s.len()
        invariant
            colon < k <= s@.len(),
            forall|j: int| colon < j < k ==> #[trigger] s@[j] > 0x20 && s@[j] != 0x3c,
        decreases s.len() - k,
    {
        let c = s[k];
        if !(c > 0x20 && c != 0x3c) {
            assert(!uri_at(s@, colon as int));
            return false;
        }
        k += 1;
    }
    assert(uri_at(s@, colon as int));
    true
}

/// A byte allowed in the local part of an email autolink: a letter, a digit,
/// or one of ``.!#$%&'*+/=?^_`{|}~-``.
pub open spec fn email_local_spec(c: u8) -> bool {
    is_alnum_spec(c) || c == 0x2e || c == 0x21 || c == 0x23 || c == 0x24 || c == 0x25 || c == 0x26
        || c == 0x27 || c == 0x2a || c == 0x2b || c == 0x2f || c == 0x3d || c == 0x3f || c
        == 0x5e || c == 0x5f || c == 0x60 || c == 0x7b || c == 0x7c || c == 0x7d || c == 0x7e
        || c == 0x2d
}

/// Bytes allowed in the local part of an email autolink.
fn email_local_byte(c: u8) -> (r: bool)
    ensures
        r == email_local_spec(c),
{
    is_alnum(c) || c == 0x2e || c == 0x21 || c == 0x23 || c == 0x24 || c == 0x25 || c == 0x26
        || c == 0x27 || c == 0x2a || c == 0x2b || c == 0x2f || c == 0x3d || c == 0x3f || c
        == 0x5e || c == 0x5f || c == 0x60 || c == 0x7b || c == 0x7c || c == 0x7d || c == 0x7e
        || c == 0x2d
}

/// `d[i..j]` is a label of the domain `d`: a maximal run of bytes other than
/// `.`.
pub open spec fn is_label(d: Seq<u8>, i: int, j: int) -> bool {
    &&& 0 <= i <= j <= d.len()
    &&& (i == 0 || d[i - 1] == 0x2e)
    &&& (j == d.len() || d[j] == 0x2e)
    &&& forall|m: int| i <= m < j ==> #[trigger] d[m] != 0x2e
}

/// A well-formed domain label: one to 63 letters, digits and `-`, neither
/// starting nor ending with `-`.
pub open spec fn label_ok(d: Seq<u8>, i: int, j: int) -> bool {
    &&& 0 < j - i <= 63
    &&& d[i] != 0x2d
    &&& d[j - 1] != 0x2d
    &&& forall|m: int| i <= m < j ==> is_alnum_spec(#[trigger] d[m]) || d[m] == 0x2d
}

/// `s` is an email autolink: a non-empty local part, `@`, and a domain whose
/// every label is well formed.
pub open spec fn email_spec(s: Seq<u8>) -> bool {
    exists|at: int|
        0 < at < s.len() && s[at] == 0x40 && (forall|k: int| 0 <= k < at ==> email_local_spec(#[trigger] s[k]))
            && (forall|i: int, j: int| #[trigger] is_label(s.subrange(at + 1, s.len() as int), i, j)
            ==> label_ok(s.subrange(at + 1, s.len() as int), i, j))
}

/// Is `s` an email autolink (a restricted form of RFC 5322 addr-spec)?
#[verifier::rlimit(30)]
pub fn is_email_autolink(s: &[u8]) -> (r: bool)
    ensures
        r == email_spec(s@),
{
    let slen = s.len();
    let at = match crate::scan::memchr1(s, 0x40) {
        Some(a) => a,
        None => {
            proof {
                if email_spec(s@) {
                    let w = choose|at: int| 0 < at < s@.len() && s@[at] == 0x40 && (forall|k: int| 0 <= k < at ==> email_local_spec(#[trigger] s@[k]))
                        && (forall|i: int, j: int| #[trigger] is_label(s@.subrange(at + 1, s@.len() as int), i, j)
                        ==> label_ok(s@.subrange(at + 1, s@.len() as int), i, j));
                    assert(s@[w] != 0x40);
                }
            }
            return false;
        },
    };
    let ghost first_at = at as int;
    // Any witness of the spec is the first `@`: no local byte is an `@`.
    proof {
        assert forall|w: int| 0 < w < s@.len() && s@[w] == 0x40 && (forall|k: int| 0 <= k < w ==> email_local_spec(#[trigger] s@[k]))
            implies w == first_at by {
            if w > first_at {
                assert(email_local_spec(s@[first_at]));
            }
        }
    }
    if at == 0 {
        return false;
    }
    let mut k: usize = 0;
    while k < at
        invariant
            k <= at,
            at < s@.len(),
            forall|m: int| 0 <= m < k ==> email_local_spec(#[trigger] s@[m]),
        decreases at - k,
    {
        if !email_local_byte(s[k]) {
            return false;
        }
        k += 1;
    }
    let domain = tail(s, at + 1);
    let ghost d = domain@;
    proof {
        assert(d =~= s@.subrange(at + 1, s@.len() as int));
    }
    // Each `.`-separated label: non-empty, at most 63 bytes of letters,
    // digits and `-`, not starting or ending with `-`.
    let mut start: usize = 0;
    let mut k: usize = 0;
    while k <= domain.len()
        invariant
            start <= k <= d.len(),
            d == domain@,
            d == s@.subrange(at + 1, s@.len() as int),
            start == 0 || d[start - 1] == 0x2e,
            forall|m: int| start <= m < k ==> #[trigger] d[m] != 0x2e,
            forall|i: int, j: int| #[trigger] is_label(d, i, j) && j < start ==> label_ok(d, i, j),
        decreases domain.len() + 1 - k,
    {
        if k == domain.len() || domain[k] == 0x2e {
            let lab = slice(domain, start, k);
            proof {
                assert(lab@ =~= d.subrange(start as int, k as int));
                assert(is_label(d, start as int, k as int));
            }
            if lab.len() == 0 || lab.len() > 63 || lab[0] == 0x2d || lab[lab.len() - 1] == 0x2d {
                return false;
            }
            let mut m: usize = 0;
            while m < lab.len()
                invariant
                    m <= lab@.len(),
                    lab@ == d.subrange(start as int, k as int),
                    forall|q: int| start <= q < start + m ==> is_alnum_spec(#[trigger] d[q]) || d[q] == 0x2d,
                decreases lab.len() - m,
            {
                if !(is_alnum(lab[m]) || lab[m] == 0x2d) {
                    proof {
                        assert(d[start + m as int] == lab@[m as int]);
                        assert(!label_ok(d, start as int, k as int));
                    }
                    return false;
                }
                proof {
                    assert(d[start + m as int] == lab@[m as int]);
                }
                m += 1;
            }
            proof {
                assert(label_ok(d, start as int, k as int));
                // Every label that ends by `k` is one already checked.
                assert forall|i: int, j: int| #[trigger] is_label(d, i, j) && j <= k implies label_ok(d, i, j) by {
                    if j >= start {
                        if j < k {
                            assert(d[j] != 0x2e);
                        }
                        if i < start {
                            assert(d[start - 1] == 0x2e);
                        }
                        if i > start {
                            assert(d[i - 1] != 0x2e);
                        }
                    }
                }
            }
            if k == domain.len() {
                proof {
                    assert forall|i: int, j: int| #[trigger] is_label(d, i, j) implies label_ok(d, i, j) by {
                        assert(j <= k);
                    }
                }
                return true;
            }
            start = k + 1;
        }
        k += 1;
    }
    true
}

/// Try to parse an autolink at `b[i]` (`<`): returns the bytes consumed and
/// the `<a>` element.
#[verifier::rlimit(30)]
pub fn try_autolink(b: &[u8], i: usize) -> (r: Option<(usize, Vec<u8>)>)
    requires
        i < b@.len(),
    ensures
        r matches Some((n, h)) ==> 2 <= n && i + n <= b@.len() && b@[i + n - 1] == 0x3e && (forall|k: int|
            i + 1 <= k < i + n - 1 ==> #[trigger] b@[k] != 0x3e) && ({
            let content = b@.subrange(i + 1, i + n - 1);
            ||| (exists|c: int| uri_at(content, c)) && h@ == autolink_html(content, false)
            ||| !(exists|c: int| uri_at(content, c)) && h@ == autolink_html(content, true)
        }),
        ({
            let g = first_byte_from(b@, i + 1, 0x3e);
            let content = b@.subrange(i + 1, g);
            &&& (r is Some <==> g < b@.len() && ((exists|c: int| uri_at(content, c)) || email_spec(content)))
            &&& (r matches Some((n, h)) ==> n == g + 1 - i && (email_spec(content) || exists|c: int|
                uri_at(content, c)))
        }),
{
    let len = b.len();
    let rest = tail(b, i + 1);
    let found = crate::scan::memchr1(rest, 0x3e);
    proof {
        assert(rest@ =~= b@.subrange(i + 1, b@.len() as int));
        lemma_first_byte(b@, i + 1, 0x3e, found);
    }
    let close = match found {
        Some(c) => c,
        None => return None,
    };
    let content = slice(rest, 0, close);
    proof {
        assert(content@ =~= b@.subrange(i + 1, i + 1 + close));
    }
    let consumed = close + 2;
    let mailto = if is_uri_autolink(content) {
        false
    } else if is_email_autolink(content) {
        true
    } else {
        return None;
    };
    let mut html: Vec<u8> = Vec::new();
    append_str(&mut html, "<a href=\"");
    if mailto {
        append(&mut html, MAILTO.as_slice());
    }
    proof {
        assert(MAILTO@ =~= seq![0x6du8, 0x61, 0x69, 0x6c, 0x74, 0x6f, 0x3a]);
    }
    escape_href(content, &mut html);
    append_str(&mut html, "\">");
    escape_html_bytes(content, &mut html);
    append_str(&mut html, "</a>");
    proof {
        assert(content@ == b@.subrange(i + 1, i + consumed - 1));
        assert forall|k: int| i + 1 <= k < i + consumed - 1 implies #[trigger] b@[k] != 0x3e by {
            assert(b@[k] == rest@[k - i - 1]);
        }
    }
    Some((consumed, html))
}

/// The bytes of `mailto:`.
const MAILTO: [u8; 7] = [0x6d, 0x61, 0x69, 0x6c, 0x74, 0x6f, 0x3a];

/// The link an autolink renders to (`mailto:` added for an email).
pub open spec fn autolink_html(content: Seq<u8>, mailto: bool) -> Seq<u8> {
    "<a href=\"".spec_bytes() + (if mailto {
        seq![0x6du8, 0x61, 0x69, 0x6c, 0x74, 0x6f, 0x3a]
    } else {
        Seq::empty()
    }) + href_text(content) + "\">".spec_bytes() + esc_text(content) + "</a>".spec_bytes()
}

/// HTML whitespace inside tags: space, tab, newline.
pub open spec fn html_ws_spec(c: u8) -> bool {
    c == 0x20 || c == 0x09 || c == 0x0a
}

/// HTML whitespace inside tags: space, tab, newline.
fn is_html_ws(c: u8) -> (r: bool)
    ensures
        r == html_ws_spec(c),
{
    c == 0x20 || c == 0x09 || c == 0x0a
}

/// Byte classes of the raw-HTML lexer: `WS_CLASS` whitespace, `TAG_NAME`
/// tag-name bytes after the first, `ATTR_NAME` attribute-name bytes after
/// the first, `UNQUOTED` bytes of an unquoted attribute value; and
/// `SP_TAB_CLASS`, spaces and tabs.
pub const WS_CLASS: u8 = 0;
pub const TAG_NAME: u8 = 1;
pub const ATTR_NAME: u8 = 2;
pub const UNQUOTED: u8 = 3;
pub const SP_TAB_CLASS: u8 = 4;

/// Does byte `c` belong to class `cls`?
pub open spec fn in_class(c: u8, cls: u8) -> bool {
    if cls == WS_CLASS {
        html_ws_spec(c)
    } else if cls == TAG_NAME {
        is_alnum_spec(c) || c == 0x2d
    } else if cls == ATTR_NAME {
        is_alnum_spec(c) || c == 0x5f || c == 0x2e || c == 0x3a || c == 0x2d
    } else if cls == SP_TAB_CLASS {
        c == 0x20 || c == 0x09
    } else {
        !html_ws_spec(c) && c != 0x22 && c != 0x27 && c != 0x3d && c != 0x3c && c != 0x3e && c
            != 0x60
    }
}

/// Does byte `c` belong to class `cls`?
fn in_class_exec(c: u8, cls: u8) -> (r: bool)
    ensures
        r == in_class(c, cls),
{
    if cls == WS_CLASS {
        is_html_ws(c)
    } else if cls == TAG_NAME {
        is_alnum(c) || c == 0x2d
    } else if cls == ATTR_NAME {
        is_alnum(c) || c == 0x5f || c == 0x2e || c == 0x3a || c == 0x2d
    } else if cls == SP_TAB_CLASS {
        c == 0x20 || c == 0x09
    } else {
        !is_html_ws(c) && c != 0x22 && c != 0x27 && c != 0x3d && c != 0x3c && c != 0x3e && c
            != 0x60
    }
}

/// The end of the run of class-`cls` bytes of `r` that starts at `k`.
pub open spec fn run_end(r: Seq<u8>, k: int, cls: u8) -> int
    decreases r.len() - k,
{
    if 0 <= k < r.len() && in_class(r[k], cls) {
        run_end(r, k + 1, cls)
    } else {
        k
    }
}

/// A run ends at or after where it starts, and within `r` when it starts
/// there.
pub proof fn lemma_run_end(r: Seq<u8>, k: int, cls: u8)
    ensures
        run_end(r, k, cls) >= k,
        0 <= k <= r.len() ==> run_end(r, k, cls) <= r.len(),
    decreases r.len() - k,
{
    if 0 <= k < r.len() && in_class(r[k], cls) {
        lemma_run_end(r, k + 1, cls);
    }
}

/// Skip the run of class-`cls` bytes starting at `k`.
fn skip_class(r: &[u8], k: usize, cls: u8) -> (e: usize)
    requires
        k <= r@.len(),
    ensures
        e == run_end(r@, k as int, cls),
        k <= e <= r@.len(),
{
    let mut j = k;
    while j < r.len() && in_class_exec(r[j], cls)
        invariant
            k <= j <= r@.len(),
            run_end(r@, j as int, cls) == run_end(r@, k as int, cls),
        decreases r.len() - j,
    {
        j += 1;
    }
    j
}

/// A byte that may start an attribute name: a letter, `_` or `:`.
pub open spec fn attr_start(c: u8) -> bool {
    is_alpha_spec(c) || c == 0x5f || c == 0x3a
}

/// Where the attribute list of an open tag, starting at `k`, ends (past the
/// whitespace that follows it), or `None` when an attribute is malformed or
/// not preceded by whitespace.
pub open spec fn attrs_end(r: Seq<u8>, k: int) -> Option<int>
    decreases r.len() - k,
{
    if k < 0 || k > r.len() {
        None
    } else {
        let k1 = run_end(r, k, WS_CLASS);
        proof {
            lemma_run_end(r, k, WS_CLASS);
            lemma_run_end(r, k1 + 1, ATTR_NAME);
        }
        if !(k1 < r.len() && attr_start(r[k1])) {
            Some(k1)
        } else if k1 == k {
            None
        } else {
            let k2 = run_end(r, k1 + 1, ATTR_NAME);
            let w = run_end(r, k2, WS_CLASS);
            proof {
                lemma_run_end(r, k2, WS_CLASS);
                lemma_run_end(r, w + 1, WS_CLASS);
            }
            if w < r.len() && r[w] == 0x3d {
                let w2 = run_end(r, w + 1, WS_CLASS);
                proof {
                    lemma_run_end(r, w2, UNQUOTED);
                }
                if w2 >= r.len() {
                    None
                } else if r[w2] == 0x22 || r[w2] == 0x27 {
                    let c = first_byte_from(r, w2 + 1, r[w2]);
                    if c < r.len() {
                        proof {
                            if exists|g: int| #[trigger] is_first_byte(r, w2 + 1, r[w2], g) {
                                let g = choose|g: int| #[trigger] is_first_byte(r, w2 + 1, r[w2], g);
                                assert(g >= w2 + 1);
                            }
                        }
                        attrs_end(r, c + 1)
                    } else {
                        None
                    }
                } else {
                    let e = run_end(r, w2, UNQUOTED);
                    if e == w2 {
                        None
                    } else {
                        attrs_end(r, e)
                    }
                }
            } else {
                attrs_end(r, k2)
            }
        }
    }
}

/// The length of the open tag at the start of `r` (`<`, a letter, the rest
/// of the name, attributes, whitespace, an optional `/`, and `>`).
pub open spec fn open_tag_len(r: Seq<u8>) -> Option<int> {
    match attrs_end(r, run_end(r, 2, TAG_NAME)) {
        Some(k) => {
            let k3 = run_end(r, k, WS_CLASS);
            let k4 = if k3 < r.len() && r[k3] == 0x2f {
                k3 + 1
            } else {
                k3
            };
            if k4 < r.len() && r[k4] == 0x3e {
                Some(k4 + 1)
            } else {
                None
            }
        },
        None => None,
    }
}

/// The length of the closing tag at the start of `r` (`</`, a letter, the
/// rest of the name, whitespace, `>`).
pub open spec fn close_tag_len(r: Seq<u8>) -> Option<int> {
    if 2 < r.len() && is_alpha_spec(r[2]) {
        let k = run_end(r, run_end(r, 3, TAG_NAME), WS_CLASS);
        if k < r.len() && r[k] == 0x3e {
            Some(k + 1)
        } else {
            None
        }
    } else {
        None
    }
}

/// `r` starts with `p`.
pub open spec fn starts_spec(r: Seq<u8>, p: Seq<u8>) -> bool {
    p.len() <= r.len() && r.subrange(0, p.len() as int) == p
}

/// The bytes of `<!--`, `-->`, `<![CDATA[`, `]]>`, `?>`.
pub const COMMENT_OPEN: [u8; 4] = [0x3c, 0x21, 0x2d, 0x2d];
pub const COMMENT_CLOSE: [u8; 3] = [0x2d, 0x2d, 0x3e];
pub const CDATA_OPEN: [u8; 9] = [0x3c, 0x21, 0x5b, 0x43, 0x44, 0x41, 0x54, 0x41, 0x5b];
pub const CDATA_CLOSE: [u8; 3] = [0x5d, 0x5d, 0x3e];
pub const PI_CLOSE: [u8; 2] = [0x3f, 0x3e];

/// The length of the construct that ends with the first `close` found in
/// `r` from `from` on.
pub open spec fn until_close(r: Seq<u8>, from: int, close: Seq<u8>) -> Option<int> {
    match first_occurrence(r.subrange(from, r.len() as int), close) {
        Some(p) => Some(from + p + close.len()),
        None => None,
    }
}

/// The length of the raw inline HTML construct at the start of `r`, if any:
/// a comment, CDATA section, declaration, processing instruction, closing
/// tag or open tag.
pub open spec fn raw_html_len(r: Seq<u8>) -> Option<int> {
    if starts_spec(r, COMMENT_OPEN@) {
        if r.len() >= 5 && r[4] == 0x3e {
            Some(5)
        } else if r.len() >= 6 && r[4] == 0x2d && r[5] == 0x3e {
            Some(6)
        } else {
            until_close(r, 4, COMMENT_CLOSE@)
        }
    } else if starts_spec(r, CDATA_OPEN@) {
        until_close(r, 9, CDATA_CLOSE@)
    } else if r.len() >= 3 && r[0] == 0x3c && r[1] == 0x21 && is_alpha_spec(r[2]) {
        let g = first_byte_from(r, 2, 0x3e);
        if g < r.len() {
            Some(g + 1)
        } else {
            None
        }
    } else if r.len() >= 2 && r[0] == 0x3c && r[1] == 0x3f {
        until_close(r, 2, PI_CLOSE@)
    } else if r.len() >= 2 && r[0] == 0x3c && r[1] == 0x2f {
        close_tag_len(r)
    } else if r.len() >= 2 && is_alpha_spec(r[1]) {
        open_tag_len(r)
    } else {
        None
    }
}

/// Find `close` in `r` from `from` on; the construct's length.
fn find_close(r: &[u8], from: usize, close: &[u8]) -> (res: Option<usize>)
    requires
        from <= r@.len(),
    ensures
        res matches Some(e) ==> until_close(r@, from as int, close@) == Some(e as int),
        res is None ==> until_close(r@, from as int, close@) is None,
        res matches Some(e) ==> from + close@.len() <= e <= r@.len(),
{
    let n = r.len();
    let rest = tail(r, from);
    proof {
        assert(rest@ =~= r@.subrange(from as int, r@.len() as int));
    }
    match find_sub(rest, close) {
        Some(p) => Some(from + p + close.len()),
        None => None,
    }
}

/// Where the attribute list of an open tag at `k` ends.
#[verifier::rlimit(30)]
fn attrs_end_exec(r: &[u8], k: usize) -> (res: Option<usize>)
    requires
        k <= r@.len(),
    ensures
        res matches Some(e) ==> attrs_end(r@, k as int) == Some(e as int) && e <= r@.len(),
        res is None ==> attrs_end(r@, k as int) is None,
{
    let n = r.len();
    let mut k = k;
    let ghost k_in = k as int;
    loop
        invariant
            k <= n,
            n == r@.len(),
            attrs_end(r@, k as int) == attrs_end(r@, k_in),
        decreases n - k,
    {
        let k1 = skip_class(r, k, WS_CLASS);
        if !(k1 < n && (is_alpha(r[k1]) || r[k1] == 0x5f || r[k1] == 0x3a)) {
            return Some(k1);
        }
        if k1 == k {
            return None;
        }
        let k2 = skip_class(r, k1 + 1, ATTR_NAME);
        let w = skip_class(r, k2, WS_CLASS);
        if w < n && r[w] == 0x3d {
            let w2 = skip_class(r, w + 1, WS_CLASS);
            if w2 >= n {
                return None;
            }
            let q = r[w2];
            if q == 0x22 || q == 0x27 {
                let from = tail(r, w2 + 1);
                let found = crate::scan::memchr1(from, q);
                proof {
                    assert(from@ =~= r@.subrange(w2 + 1, n as int));
                    lemma_first_byte(r@, w2 + 1, q, found);
                }
                match found {
                    Some(p) => {
                        k = w2 + 1 + p + 1;
                    },
                    None => {
                        return None;
                    },
                }
            } else {
                let e = skip_class(r, w2, UNQUOTED);
                if e == w2 {
                    return None;
                }
                k = e;
            }
        } else {
            k = k2;
        }
    }
}

/// Try to match a raw inline HTML construct (tag, comment, processing
/// instruction, declaration, or CDATA) at `b[i]` (`<`), returning the index
/// just past it. The match is emitted verbatim by the caller.
#[verifier::rlimit(30)]
pub fn try_raw_html(b: &[u8], i: usize) -> (res: Option<usize>)
    requires
        i < b@.len(),
    ensures
        res matches Some(e) ==> i < e <= b@.len() && raw_html_len(b@.subrange(i as int, b@.len() as int))
            == Some(e - i),
        res is None ==> raw_html_len(b@.subrange(i as int, b@.len() as int)) is None,
{
    let len = b.len();
    let r = tail(b, i);
    let n = r.len();
    proof {
        assert(r@ =~= b@.subrange(i as int, b@.len() as int));
    }
    // Comment: <!-->, <!--->, or <!-- text-not-containing--> -->
    if starts_at(r, 0, COMMENT_OPEN.as_slice()) {
        if n >= 5 && r[4] == 0x3e {
            return Some(i + 5);
        }
        if n >= 6 && r[4] == 0x2d && r[5] == 0x3e {
            return Some(i + 6);
        }
        return match find_close(r, 4, COMMENT_CLOSE.as_slice()) {
            Some(e) => Some(i + e),
            None => None,
        };
    }
    // CDATA.
    if starts_at(r, 0, CDATA_OPEN.as_slice()) {
        return match find_close(r, 9, CDATA_CLOSE.as_slice()) {
            Some(e) => Some(i + e),
            None => None,
        };
    }
    // Declaration: <! + ASCII letter ... >
    if n >= 3 && r[0] == 0x3c && r[1] == 0x21 && is_alpha(r[2]) {
        let from = tail(r, 2);
        let found = crate::scan::memchr1(from, 0x3e);
        proof {
            assert(from@ =~= r@.subrange(2, n as int));
            lemma_first_byte(r@, 2, 0x3e, found);
        }
        return match found {
            Some(p) => Some(i + 2 + p + 1),
            None => None,
        };
    }
    // Processing instruction.
    if n >= 2 && r[0] == 0x3c && r[1] == 0x3f {
        return match find_close(r, 2, PI_CLOSE.as_slice()) {
            Some(e) => Some(i + e),
            None => None,
        };
    }
    // Closing tag: </name optional-ws >
    if n >= 2 && r[0] == 0x3c && r[1] == 0x2f {
        if !(2 < n && is_alpha(r[2])) {
            return None;
        }
        let k = skip_class(r, 3, TAG_NAME);
        let k = skip_class(r, k, WS_CLASS);
        return if k < n && r[k] == 0x3e {
            Some(i + k + 1)
        } else {
            None
        };
    }
    // Open tag: <name attrs* optional-ws /?>
    if n >= 2 && is_alpha(r[1]) {
        let k = skip_class(r, 2, TAG_NAME);
        let k = match attrs_end_exec(r, k) {
            Some(k) => k,
            None => return None,
        };
        let mut k = skip_class(r, k, WS_CLASS);
        if k < n && r[k] == 0x2f {
            k += 1;
        }
        return if k < n && r[k] == 0x3e {
            Some(i + k + 1)
        } else {
            None
        };
    }
    None
}

/// The length of the complete open or closing tag at the start of `r`:
/// raw HTML that is not a comment, processing instruction, declaration or
/// CDATA section.
pub open spec fn tag_len_spec(r: Seq<u8>) -> Option<int> {
    if r.len() >= 2 && r[0] == 0x3c && (r[1] == 0x21 || r[1] == 0x3f) {
        None
    } else {
        raw_html_len(r)
    }
}

/// Length of a complete open or closing HTML tag at the start of `rest`
/// (which begins with `<`); comments, processing instructions, declarations
/// and CDATA do not count.
pub fn raw_tag_len(rest: &[u8]) -> (r: Option<usize>)
    ensures
        r matches Some(e) ==> 0 < e <= rest@.len() && tag_len_spec(rest@) == Some(e as int),
        r is None ==> tag_len_spec(rest@) is None,
{
    if rest.len() == 0 {
        return None;
    }
    let found = try_raw_html(rest, 0);
    proof {
        assert(rest@.subrange(0, rest@.len() as int) =~= rest@);
    }
    match found {
        Some(end) => {
            if rest.len() >= 2 && rest[0] == 0x3c && (rest[1] == 0x21 || rest[1] == 0x3f) {
                None
            } else {
                Some(end)
            }
        },
        None => None,
    }
}

/// Skip spaces and tabs starting at `i`.
pub fn skip_spaces(b: &[u8], i: usize) -> (r: usize)
    ensures
        r >= i,
        i <= b@.len() ==> r <= b@.len(),
        i > b@.len() ==> r == i,
        forall|k: int| i <= k < r ==> #[trigger] b@[k] == 0x20 || b@[k] == 0x09,
        r < b@.len() ==> !(b@[r as int] == 0x20 || b@[r as int] == 0x09),
        r == run_end(b@, i as int, SP_TAB_CLASS),
{
    let mut j = i;
    while j < b.len() && (b[j] == 0x20 || b[j] == 0x09)
        invariant
            i <= j,
            i <= b@.len() ==> j <= b@.len(),
            i > b@.len() ==> j == i,
            forall|k: int| i <= k < j ==> #[trigger] b@[k] == 0x20 || b@[k] == 0x09,
            run_end(b@, j as int, SP_TAB_CLASS) == run_end(b@, i as int, SP_TAB_CLASS),
        decreases b.len() - j,
    {
        j += 1;
    }
    j
}

/// Skip spaces, tabs, and newlines starting at `i`.
pub fn skip_ws(b: &[u8], i: usize) -> (r: usize)
    ensures
        r >= i,
        i <= b@.len() ==> r <= b@.len(),
        i > b@.len() ==> r == i,
        forall|k: int| i <= k < r ==> #[trigger] b@[k] == 0x20 || b@[k] == 0x09 || b@[k] == 0x0a,
        r < b@.len() ==> !(b@[r as int] == 0x20 || b@[r as int] == 0x09 || b@[r as int] == 0x0a),
        r == run_end(b@, i as int, WS_CLASS),
{
    let mut j = i;
    while j < b.len() && is_html_ws(b[j])
        invariant
            i <= j,
            i <= b@.len() ==> j <= b@.len(),
            i > b@.len() ==> j == i,
            forall|k: int| i <= k < j ==> #[trigger] b@[k] == 0x20 || b@[k] == 0x09 || b@[k] == 0x0a,
            run_end(b@, j as int, WS_CLASS) == run_end(b@, i as int, WS_CLASS),
        decreases b.len() - j,
    {
        j += 1;
    }
    j
}

} // verus!
