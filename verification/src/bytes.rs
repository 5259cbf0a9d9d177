//! Byte-slice helpers shared by the block and inline parsers: clamped
//! sub-slicing, bounded reads, appends, ASCII classes and trimming.

use vstd::prelude::*;
use vstd::slice::slice_subrange;
use vstd::string::StringSliceAdditionalSpecFns;

verus! {

/// Lower end of the clamped range `[a, b)` over a slice of length `len`.
pub open spec fn clamp_lo(len: int, a: int) -> int {
    if a < len { a } else { len }
}

/// Upper end of the clamped range `[a, b)` over a slice of length `len`.
pub open spec fn clamp_hi(len: int, a: int, b: int) -> int {
    let lo = clamp_lo(len, a);
    let hi = if b < len { b } else { len };
    if hi < lo { lo } else { hi }
}

/// `s[a..b]`, with both ends clamped to the slice (an inverted range is empty).
pub fn slice(s: &[u8], a: usize, b: usize) -> (r: &[u8])
    ensures
        r@ == s@.subrange(clamp_lo(s@.len() as int, a as int), clamp_hi(s@.len() as int, a as int, b as int)),
{
    let lo = if a < s.len() { a } else { s.len() };
    let hi0 = if b < s.len() { b } else { s.len() };
    let hi = if hi0 < lo { lo } else { hi0 };
    slice_subrange(s, lo, hi)
}

/// `s[a..]`, clamped.
pub fn tail(s: &[u8], a: usize) -> (r: &[u8])
    ensures
        r@ == s@.subrange(clamp_lo(s@.len() as int, a as int), s@.len() as int),
{
    slice(s, a, s.len())
}

/// The byte at `i`, if any.
pub fn get(s: &[u8], i: usize) -> (r: Option<u8>)
    ensures
        i < s@.len() ==> r == Some(s@[i as int]),
        i >= s@.len() ==> r is None,
{
    if i < s.len() {
        Some(s[i])
    } else {
        None
    }
}

/// Is the byte at `i` equal to `c`?
pub fn at_is(s: &[u8], i: usize, c: u8) -> (r: bool)
    ensures
        r == (i < s@.len() && s@[i as int] == c),
{
    i < s.len() && s[i] == c
}

/// Append all of `s` to `out`.
pub fn append(out: &mut Vec<u8>, s: &[u8])
    ensures
        final(out)@ == old(out)@ + s@,
{
    let mut i: usize = 0;
    while i < s.len()
        invariant
            i <= s.len(),
            out@ == old(out)@ + s@.subrange(0, i as int),
        decreases s.len() - i,
    {
        out.push(s[i]);
        i += 1;
        assert(s@.subrange(0, i as int) == s@.subrange(0, i - 1) + seq![s@[i - 1]]);
    }
    assert(s@.subrange(0, s@.len() as int) == s@);
}

/// Append the UTF-8 bytes of `s` to `out`.
pub fn append_str(out: &mut Vec<u8>, s: &str)
    ensures
        final(out)@ == old(out)@ + s.spec_bytes(),
{
    append(out, s.as_bytes());
}

/// Is `b` a space or a tab?
pub fn is_sp_tab(b: u8) -> (r: bool)
    ensures
        r == (b == 0x20 || b == 0x09),
{
    b == 0x20 || b == 0x09
}

pub open spec fn is_alpha_spec(b: u8) -> bool {
    (0x41 <= b <= 0x5a) || (0x61 <= b <= 0x7a)
}

pub open spec fn is_digit_spec(b: u8) -> bool {
    0x30 <= b <= 0x39
}

pub open spec fn is_alnum_spec(b: u8) -> bool {
    is_alpha_spec(b) || is_digit_spec(b)
}

/// CommonMark ASCII punctuation: ``!"#$%&'()*+,-./:;<=>?@[\]^_`{|}~``.
pub open spec fn is_punct_spec(b: u8) -> bool {
    (0x21 <= b <= 0x2f) || (0x3a <= b <= 0x40) || (0x5b <= b <= 0x60) || (0x7b <= b <= 0x7e)
}

pub fn is_alpha(b: u8) -> (r: bool)
    ensures
        r == is_alpha_spec(b),
{
    (0x41 <= b && b <= 0x5a) || (0x61 <= b && b <= 0x7a)
}

pub fn is_digit(b: u8) -> (r: bool)
    ensures
        r == is_digit_spec(b),
{
    0x30 <= b && b <= 0x39
}

pub fn is_alnum(b: u8) -> (r: bool)
    ensures
        r == is_alnum_spec(b),
{
    is_alpha(b) || is_digit(b)
}

/// CommonMark ASCII punctuation (the only bytes a backslash may escape).
pub fn is_ascii_punct(b: u8) -> (r: bool)
    ensures
        r == is_punct_spec(b),
{
    (0x21 <= b && b <= 0x2f) || (0x3a <= b && b <= 0x40) || (0x5b <= b && b <= 0x60) || (0x7b
        <= b && b <= 0x7e)
}

pub open spec fn lower_spec(b: u8) -> u8 {
    if 0x41 <= b <= 0x5a {
        (b + 0x20) as u8
    } else {
        b
    }
}

/// ASCII lowercase of one byte.
pub fn to_lower(b: u8) -> (r: u8)
    ensures
        r == lower_spec(b),
{
    if 0x41 <= b && b <= 0x5a {
        b + 0x20
    } else {
        b
    }
}

/// ASCII whitespace as `u8::is_ascii_whitespace` defines it (space, tab,
/// newline, form feed, carriage return).
pub open spec fn is_ascii_ws_spec(b: u8) -> bool {
    b == 0x20 || b == 0x09 || b == 0x0a || b == 0x0c || b == 0x0d
}

pub fn is_ascii_ws(b: u8) -> (r: bool)
    ensures
        r == is_ascii_ws_spec(b),
{
    b == 0x20 || b == 0x09 || b == 0x0a || b == 0x0c || b == 0x0d
}

/// Byte classes used for trimming.
pub open spec fn in_class_spec(b: u8, class: u8) -> bool {
    if class == 0 {
        b == 0x20
    } else if class == 1 {
        b == 0x20 || b == 0x09
    } else if class == 2 {
        b == 0x20 || b == 0x09 || b == 0x0a
    } else if class == 3 {
        b == 0x0a
    } else if class == 4 {
        b == 0x23
    } else if class == 5 {
        is_ascii_ws_spec(b)
    } else {
        b == 0x2d
    }
}

/// Trim classes: spaces only.
pub const SP: u8 = 0;
/// Spaces and tabs.
pub const SP_TAB: u8 = 1;
/// Spaces, tabs, and newlines.
pub const WS_NL: u8 = 2;
/// Newlines only.
pub const NL: u8 = 3;
/// `#` only.
pub const HASH: u8 = 4;
/// ASCII whitespace.
pub const ASCII_WS: u8 = 5;
/// `-` only.
pub const DASH: u8 = 6;

pub fn in_class(b: u8, class: u8) -> (r: bool)
    ensures
        r == in_class_spec(b, class),
{
    if class == 0 {
        b == 0x20
    } else if class == 1 {
        b == 0x20 || b == 0x09
    } else if class == 2 {
        b == 0x20 || b == 0x09 || b == 0x0a
    } else if class == 3 {
        b == 0x0a
    } else if class == 4 {
        b == 0x23
    } else if class == 5 {
        is_ascii_ws(b)
    } else {
        b == 0x2d
    }
}

/// Number of leading bytes of `s` in `class`.
pub fn lead(s: &[u8], class: u8) -> (n: usize)
    ensures
        n <= s@.len(),
        forall|k: int| 0 <= k < n ==> in_class_spec(#[trigger] s@[k], class),
        n < s@.len() ==> !in_class_spec(s@[n as int], class),
{
    let mut i: usize = 0;
    while i < s.len() && in_class(s[i], class)
        invariant
            i <= s.len(),
            forall|k: int| 0 <= k < i ==> in_class_spec(#[trigger] s@[k], class),
        decreases s.len() - i,
    {
        i += 1;
    }
    i
}

/// Number of trailing bytes of `s` in `class`.
pub fn trail(s: &[u8], class: u8) -> (n: usize)
    ensures
        n <= s@.len(),
        forall|k: int| s@.len() - n <= k < s@.len() ==> in_class_spec(#[trigger] s@[k], class),
        n < s@.len() ==> !in_class_spec(s@[s@.len() - n - 1], class),
{
    let mut e: usize = s.len();
    while e > 0 && in_class(s[e - 1], class)
        invariant
            e <= s.len(),
            forall|k: int| e <= k < s@.len() ==> in_class_spec(#[trigger] s@[k], class),
        decreases e,
    {
        e -= 1;
    }
    s.len() - e
}

/// `[a, b)` is what remains of `s` once bytes of `class` are trimmed from
/// both ends.
pub open spec fn trim_bounds(s: Seq<u8>, class: u8, a: int, b: int) -> bool {
    &&& 0 <= a <= b <= s.len()
    &&& forall|k: int| 0 <= k < a ==> in_class_spec(#[trigger] s[k], class)
    &&& forall|k: int| b <= k < s.len() ==> in_class_spec(#[trigger] s[k], class)
    &&& a < b ==> !in_class_spec(s[a], class) && !in_class_spec(s[b - 1], class)
}

/// Number of leading bytes of `s` in `class`.
pub open spec fn lead_count(s: Seq<u8>, class: u8) -> int
    decreases s.len(),
{
    if s.len() > 0 && in_class_spec(s[0], class) {
        1 + lead_count(s.subrange(1, s.len() as int), class)
    } else {
        0
    }
}

/// `s` with leading and trailing bytes of `class` removed.
pub open spec fn trim_spec(s: Seq<u8>, class: u8) -> Seq<u8> {
    trim_end_spec(s.subrange(lead_count(s, class), s.len() as int), class)
}

/// A cut of `s` that starts on a byte outside `class`, with only bytes of
/// `class` before it, leaves out exactly the leading bytes of `class`.
pub proof fn lemma_lead_count(s: Seq<u8>, class: u8, m: int)
    requires
        0 <= m <= s.len(),
        m < s.len() ==> !in_class_spec(s[m], class),
        forall|k: int| 0 <= k < m ==> in_class_spec(#[trigger] s[k], class),
    ensures
        lead_count(s, class) == m,
    decreases s.len(),
{
    if m > 0 {
        let t = s.subrange(1, s.len() as int);
        assert(in_class_spec(s[0], class));
        assert forall|k: int| 0 <= k < m - 1 implies in_class_spec(#[trigger] t[k], class) by {
            assert(t[k] == s[k + 1]);
        }
        if m - 1 < t.len() {
            assert(t[m - 1] == s[m]);
        }
        lemma_lead_count(t, class, m - 1);
    }
}

/// `s` with leading and trailing bytes of `class` removed.
pub fn trim(s: &[u8], class: u8) -> (r: &[u8])
    ensures
        r@ == trim_spec(s@, class),
        r@.len() <= s@.len(),
        exists|a: int, b: int| trim_bounds(s@, class, a, b) && r@ == s@.subrange(a, b),
{
    let a = lead(s, class);
    let rest = tail(s, a);
    let b = trail(rest, class);
    let r = slice(rest, 0, rest.len() - b);
    proof {
        lemma_lead_count(s@, class, a as int);
        lemma_trail_count(rest@, class, rest@.len() - b);
        let e = s@.len() - b;
        assert(rest@ == s@.subrange(a as int, s@.len() as int));
        assert forall|k: int| e <= k < s@.len() implies in_class_spec(#[trigger] s@[k], class) by {
            assert(s@[k] == rest@[k - a]);
        }
        if a < e {
            assert(s@[e - 1] == rest@[rest@.len() - b - 1]);
        }
        assert(r@ == s@.subrange(a as int, e));
        assert(trim_bounds(s@, class, a as int, e));
    }
    r
}

/// Number of trailing bytes of `s` in `class`.
pub open spec fn trail_count(s: Seq<u8>, class: u8) -> int
    decreases s.len(),
{
    if s.len() > 0 && in_class_spec(s.last(), class) {
        1 + trail_count(s.drop_last(), class)
    } else {
        0
    }
}

/// `s` with trailing bytes of `class` removed.
pub open spec fn trim_end_spec(s: Seq<u8>, class: u8) -> Seq<u8> {
    s.subrange(0, s.len() - trail_count(s, class))
}

/// A cut of `s` that ends on a byte outside `class`, with only bytes of
/// `class` after it, leaves out exactly the trailing bytes of `class`.
pub proof fn lemma_trail_count(s: Seq<u8>, class: u8, m: int)
    requires
        0 <= m <= s.len(),
        m > 0 ==> !in_class_spec(s[m - 1], class),
        forall|k: int| m <= k < s.len() ==> in_class_spec(#[trigger] s[k], class),
    ensures
        trail_count(s, class) == s.len() - m,
    decreases s.len(),
{
    if s.len() > m {
        assert(in_class_spec(s.last(), class));
        let t = s.drop_last();
        assert forall|k: int| m <= k < t.len() implies in_class_spec(#[trigger] t[k], class) by {
            assert(t[k] == s[k]);
        }
        if m > 0 {
            assert(t[m - 1] == s[m - 1]);
        }
        lemma_trail_count(t, class, m);
    } else if s.len() > 0 {
        assert(s.last() == s[m - 1]);
    }
}

/// `s` with trailing bytes of `class` removed.
pub fn trim_end(s: &[u8], class: u8) -> (r: &[u8])
    ensures
        r@ == trim_end_spec(s@, class),
        r@.len() <= s@.len(),
        r@ == s@.subrange(0, r@.len() as int),
        r@.len() > 0 ==> !in_class_spec(r@.last(), class),
        forall|k: int| r@.len() <= k < s@.len() ==> in_class_spec(#[trigger] s@[k], class),
{
    let b = trail(s, class);
    let r = slice(s, 0, s.len() - b);
    proof {
        lemma_trail_count(s@, class, s@.len() - b);
    }
    r
}

/// Does every byte of `s` fall in `class`?
pub fn all_in(s: &[u8], class: u8) -> (r: bool)
    ensures
        r == (forall|k: int| 0 <= k < s@.len() ==> in_class_spec(#[trigger] s@[k], class)),
{
    let n = lead(s, class);
    n == s.len()
}

/// Length of the run of `c` starting at `i` (0 when `i` is past the end).
pub fn run_len(s: &[u8], i: usize, c: u8) -> (n: usize)
    ensures
        i <= s@.len() ==> i + n <= s@.len(),
        i > s@.len() ==> n == 0,
        forall|k: int| i <= k < i + n ==> #[trigger] s@[k] == c,
        i + n < s@.len() ==> s@[i + n] != c,
{
    if i > s.len() {
        return 0;
    }
    let mut j: usize = i;
    while j < s.len() && s[j] == c
        invariant
            i <= j <= s.len(),
            forall|k: int| i <= k < j ==> #[trigger] s@[k] == c,
        decreases s.len() - j,
    {
        j += 1;
    }
    j - i
}

/// Does `s` contain the byte `c`?
pub fn contains(s: &[u8], c: u8) -> (r: bool)
    ensures
        r == s@.contains(c),
{
    let mut i: usize = 0;
    while i < s.len()
        invariant
            i <= s.len(),
            forall|k: int| 0 <= k < i ==> s@[k] != c,
        decreases s.len() - i,
    {
        if s[i] == c {
            return true;
        }
        i += 1;
    }
    false
}

/// Does `s` start with `p` at offset `i`?
pub fn starts_at(s: &[u8], i: usize, p: &[u8]) -> (r: bool)
    ensures
        r == (i <= s@.len() && i + p@.len() <= s@.len() && s@.subrange(i as int, i + p@.len())
            == p@),
{
    if i > s.len() || p.len() > s.len() - i {
        return false;
    }
    let mut k: usize = 0;
    while k < p.len()
        invariant
            i + p@.len() <= s@.len(),
            i + p.len() <= s.len(),
            k <= p.len(),
            forall|j: int| 0 <= j < k ==> s@[i + j] == p@[j],
        decreases p.len() - k,
    {
        if s[i + k] != p[k] {
            assert(s@.subrange(i as int, i + p@.len())[k as int] != p@[k as int]);
            return false;
        }
        k += 1;
    }
    assert(s@.subrange(i as int, i + p@.len()) =~= p@);
    true
}

/// Does `s` start with the bytes of `p`?
pub fn starts_with_str(s: &[u8], p: &str) -> (r: bool)
    ensures
        r == (p.spec_bytes().len() <= s@.len() && s@.subrange(0, p.spec_bytes().len() as int)
            == p.spec_bytes()),
{
    starts_at(s, 0, p.as_bytes())
}

/// `p` occurs in `s` at `i` ignoring ASCII case.
pub open spec fn nocase_at(s: Seq<u8>, i: int, p: Seq<u8>) -> bool {
    &&& 0 <= i
    &&& i + p.len() <= s.len()
    &&& forall|k: int| 0 <= k < p.len() ==> lower_spec(#[trigger] s[i + k]) == lower_spec(p[k])
}

/// Case-insensitive (ASCII) comparison of `s[i..i + p.len()]` with `p`.
pub fn starts_at_nocase(s: &[u8], i: usize, p: &[u8]) -> (r: bool)
    ensures
        r == nocase_at(s@, i as int, p@),
{
    if i > s.len() || p.len() > s.len() - i {
        return false;
    }
    let mut k: usize = 0;
    while k < p.len()
        invariant
            i + p@.len() <= s@.len(),
            i + p.len() <= s.len(),
            k <= p.len(),
            forall|j: int| 0 <= j < k ==> lower_spec(#[trigger] s@[i + j]) == lower_spec(p@[j]),
        decreases p.len() - k,
    {
        if to_lower(s[i + k]) != to_lower(p[k]) {
            assert(!nocase_at(s@, i as int, p@)) by {
                let kk = k as int;
                assert(lower_spec(s@[i + kk]) != lower_spec(p@[kk]));
            }
            return false;
        }
        k += 1;
    }
    true
}

/// Does `s` equal `p` ignoring ASCII case?
pub fn eq_nocase(s: &[u8], p: &[u8]) -> (r: bool)
    ensures
        r == (s@.len() == p@.len() && nocase_at(s@, 0, p@)),
{
    s.len() == p.len() && starts_at_nocase(s, 0, p)
}

/// `needle` occurs in `hay` at `p`.
pub open spec fn occurs_at(hay: Seq<u8>, needle: Seq<u8>, p: int) -> bool {
    0 <= p && p + needle.len() <= hay.len() && hay.subrange(p, p + needle.len()) == needle
}

/// `g` is the first index at or after `i` where `s` holds `c`.
pub open spec fn is_first_byte(s: Seq<u8>, i: int, c: u8, g: int) -> bool {
    &&& i <= g < s.len()
    &&& s[g] == c
    &&& forall|h: int| i <= h < g ==> #[trigger] s[h] != c
}

/// The first index at or after `i` where `s` holds `c`, or the length of
/// `s` when there is none.
pub open spec fn first_byte_from(s: Seq<u8>, i: int, c: u8) -> int {
    if exists|g: int| is_first_byte(s, i, c, g) {
        choose|g: int| is_first_byte(s, i, c, g)
    } else {
        s.len() as int
    }
}

/// `p` is the first occurrence of `needle` in `hay`.
pub open spec fn is_first_occurrence(hay: Seq<u8>, needle: Seq<u8>, p: int) -> bool {
    &&& occurs_at(hay, needle, p)
    &&& forall|q: int| 0 <= q < p ==> !#[trigger] occurs_at(hay, needle, q)
}

/// The text of `s` up to its first newline (all of `s` without one).
pub open spec fn line_prefix(s: Seq<u8>) -> Seq<u8> {
    s.subrange(0, first_byte_from(s, 0, 0x0a))
}

/// With no `c` in `s[i..j]`, the first `c` from `i` on is at `j` when `s[j]`
/// is one, and past `j` otherwise.
pub proof fn lemma_first_byte_after(s: Seq<u8>, i: int, c: u8, j: int)
    requires
        0 <= i <= j <= s.len(),
        forall|k: int| i <= k < j ==> #[trigger] s[k] != c,
    ensures
        first_byte_from(s, i, c) >= j,
        first_byte_from(s, i, c) <= s.len(),
        j < s.len() && s[j] == c ==> first_byte_from(s, i, c) == j,
        j < s.len() && s[j] != c ==> first_byte_from(s, i, c) > j,
{
    if exists|g: int| is_first_byte(s, i, c, g) {
        let g = choose|g: int| is_first_byte(s, i, c, g);
        if g < j {
            assert(s[g] != c);
        }
        if j < s.len() && s[j] == c && g > j {
            assert(s[j] != c);
        }
    } else {
        if j < s.len() && s[j] == c {
            assert(is_first_byte(s, i, c, j));
        }
    }
}

/// `memchr1` on `s[i..]` gives `first_byte_from(s, i, c)`.
pub proof fn lemma_first_byte(s: Seq<u8>, i: int, c: u8, r: Option<usize>)
    requires
        0 <= i <= s.len(),
        crate::scan::first_where(s.subrange(i, s.len() as int), |x: u8| x == c, r),
    ensures
        first_byte_from(s, i, c) == match r {
            Some(p) => i + p,
            None => s.len() as int,
        },
{
    let t = s.subrange(i, s.len() as int);
    match r {
        Some(p) => {
            let g0 = i + p;
            assert(t[p as int] == s[g0]);
            assert forall|h: int| i <= h < g0 implies #[trigger] s[h] != c by {
                assert(t[h - i] == s[h]);
                assert(!((|x: u8| x == c)(t[h - i])));
            }
            assert(is_first_byte(s, i, c, g0));
            let g = choose|g: int| is_first_byte(s, i, c, g);
            assert(g == g0) by {
                if g < g0 {
                    assert(s[g] != c);
                } else if g > g0 {
                    assert(s[g0] != c);
                }
            }
        },
        None => {
            assert forall|g: int| !is_first_byte(s, i, c, g) by {
                if i <= g < s.len() {
                    assert(t[g - i] == s[g]);
                    assert(!((|x: u8| x == c)(t[g - i])));
                }
            }
        },
    }
}

/// The index of the first occurrence of `needle` in `hay`, if any.
pub open spec fn first_occurrence(hay: Seq<u8>, needle: Seq<u8>) -> Option<int> {
    if exists|p: int| is_first_occurrence(hay, needle, p) {
        Some(choose|p: int| is_first_occurrence(hay, needle, p))
    } else {
        None
    }
}

/// The first occurrence is the one that `first_occurrence` names.
pub proof fn lemma_first_occurrence(hay: Seq<u8>, needle: Seq<u8>, p: int)
    requires
        is_first_occurrence(hay, needle, p),
    ensures
        first_occurrence(hay, needle) == Some(p),
{
    let c = choose|c: int| is_first_occurrence(hay, needle, c);
    assert(c == p) by {
        if c < p {
            assert(!occurs_at(hay, needle, c));
        } else if c > p {
            assert(!occurs_at(hay, needle, p));
        }
    }
}

/// Index of the first occurrence of `needle` in `hay`.
pub fn find_sub(hay: &[u8], needle: &[u8]) -> (r: Option<usize>)
    ensures
        r matches Some(p) ==> occurs_at(hay@, needle@, p as int) && forall|q: int|
            0 <= q < p ==> !#[trigger] occurs_at(hay@, needle@, q),
        r is None ==> forall|q: int| !#[trigger] occurs_at(hay@, needle@, q),
        r matches Some(p) ==> first_occurrence(hay@, needle@) == Some(p as int),
        r is None ==> first_occurrence(hay@, needle@) is None,
{
    if needle.len() > hay.len() {
        proof {
            assert forall|p: int| !is_first_occurrence(hay@, needle@, p) by {
                assert(!occurs_at(hay@, needle@, p));
            }
        }
        return None;
    }
    let last = hay.len() - needle.len();
    let mut i: usize = 0;
    while i <= last
        invariant
            needle@.len() <= hay@.len(),
            last == hay.len() - needle.len(),
            i <= last + 1,
            forall|q: int| 0 <= q < i ==> !#[trigger] occurs_at(hay@, needle@, q),
        decreases last + 1 - i,
    {
        if starts_at(hay, i, needle) {
            proof {
                lemma_first_occurrence(hay@, needle@, i as int);
            }
            return Some(i);
        }
        if i == last {
            proof {
                assert forall|p: int| !is_first_occurrence(hay@, needle@, p) by {
                    assert(!occurs_at(hay@, needle@, p));
                }
            }
            return None;
        }
        i += 1;
    }
    None
}

/// Does `hay` contain `needle` as a contiguous run?
pub fn contains_sub(hay: &[u8], needle: &[u8]) -> (r: bool)
    ensures
        r == exists|q: int| occurs_at(hay@, needle@, q),
{
    match find_sub(hay, needle) {
        Some(p) => {
            assert(occurs_at(hay@, needle@, p as int));
            true
        },
        None => false,
    }
}

/// A copy of `s`.
pub fn to_vec(s: &[u8]) -> (r: Vec<u8>)
    ensures
        r@ == s@,
{
    let mut v: Vec<u8> = Vec::new();
    append(&mut v, s);
    v
}

} // verus!
