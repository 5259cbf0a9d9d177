//! Byte search over a haystack: the first position of a byte drawn from a
//! small set. Every finder is a single forward scan whose result is exactly
//! the first matching index (or `None` when no byte of the haystack matches).

use vstd::prelude::*;

verus! {

/// `r` is the first index of `hay` whose byte satisfies `f`, or `None` when
/// no byte does.
pub open spec fn first_where(hay: Seq<u8>, f: spec_fn(u8) -> bool, r: Option<usize>) -> bool {
    match r {
        Some(p) => p < hay.len() && f(hay[p as int]) && forall|k: int| 0 <= k < p ==> !f(#[trigger] hay[k]),
        None => forall|k: int| 0 <= k < hay.len() ==> !f(#[trigger] hay[k]),
    }
}

/// Bytes an HTML text escape rewrites: `&` `<` `>` `"`.
pub open spec fn is_escape_spec(b: u8) -> bool {
    b == 0x26 || b == 0x3c || b == 0x3e || b == 0x22
}

/// Inline triggers: `\` `` ` `` `&` `<` `\n` `*` `_` `[` `]` `!`.
pub open spec fn is_inline_spec(b: u8) -> bool {
    b == 0x5c || b == 0x60 || b == 0x26 || b == 0x3c || b == 0x0a || b == 0x2a || b == 0x5f
        || b == 0x5b || b == 0x5d || b == 0x21
}

/// Triggers of the emphasis/link-free stream: `\` `` ` `` `&` `<` `\n`.
pub open spec fn is_stream_spec(b: u8) -> bool {
    b == 0x5c || b == 0x60 || b == 0x26 || b == 0x3c || b == 0x0a
}

/// Emphasis/link openers `*` `_` `[`.
pub open spec fn is_emph_spec(b: u8) -> bool {
    b == 0x2a || b == 0x5f || b == 0x5b
}

/// The extended-autolink triggers `@` `w` `W` `:`.
pub open spec fn is_autolink_trigger_spec(b: u8) -> bool {
    b == 0x40 || b == 0x77 || b == 0x57 || b == 0x3a
}

/// Which finder a scan uses: the plain inline set, optionally widened by the
/// strikethrough delimiter `~` and by the extended-autolink triggers.
pub open spec fn inline_set_spec(b: u8, strike: bool, autolink: bool) -> bool {
    is_inline_spec(b) || (strike && b == 0x7e) || (autolink && is_autolink_trigger_spec(b))
}

pub open spec fn stream_set_spec(b: u8, autolink: bool) -> bool {
    is_stream_spec(b) || (autolink && is_autolink_trigger_spec(b))
}

pub open spec fn emph_set_spec(b: u8, strike: bool) -> bool {
    is_emph_spec(b) || (strike && b == 0x7e)
}

/// Index of the first byte of `hay` equal to `a`.
pub fn memchr1(hay: &[u8], a: u8) -> (r: Option<usize>)
    ensures
        first_where(hay@, |x: u8| x == a, r),
{
    let mut i: usize = 0;
    while i < hay.len()
        invariant
            i <= hay.len(),
            forall|k: int| 0 <= k < i ==> hay@[k] != a,
        decreases hay.len() - i,
    {
        if hay[i] == a {
            return Some(i);
        }
        i += 1;
    }
    None
}

/// Index of the first byte of `hay` equal to `a`, `b`, or `c`.
pub fn memchr3(hay: &[u8], a: u8, b: u8, c: u8) -> (r: Option<usize>)
    ensures
        first_where(hay@, |x: u8| x == a || x == b || x == c, r),
{
    let mut i: usize = 0;
    while i < hay.len()
        invariant
            i <= hay.len(),
            forall|k: int| 0 <= k < i ==> !(hay@[k] == a || hay@[k] == b || hay@[k] == c),
        decreases hay.len() - i,
    {
        let x = hay[i];
        if x == a || x == b || x == c {
            return Some(i);
        }
        i += 1;
    }
    None
}

/// Index of the first byte of `hay` equal to `a`, `b`, `c`, or `d`.
pub fn memchr4(hay: &[u8], a: u8, b: u8, c: u8, d: u8) -> (r: Option<usize>)
    ensures
        first_where(hay@, |x: u8| x == a || x == b || x == c || x == d, r),
{
    let mut i: usize = 0;
    while i < hay.len()
        invariant
            i <= hay.len(),
            forall|k: int|
                0 <= k < i ==> !(hay@[k] == a || hay@[k] == b || hay@[k] == c || hay@[k] == d),
        decreases hay.len() - i,
    {
        let x = hay[i];
        if x == a || x == b || x == c || x == d {
            return Some(i);
        }
        i += 1;
    }
    None
}

/// Is `b` one of the HTML text specials (`&` `<` `>` `"`)?
pub fn is_escape(b: u8) -> (r: bool)
    ensures
        r == is_escape_spec(b),
{
    b == 0x26 || b == 0x3c || b == 0x3e || b == 0x22
}

/// Index of the first HTML text special in `hay`.
pub fn find_escape(hay: &[u8]) -> (r: Option<usize>)
    ensures
        first_where(hay@, |x: u8| is_escape_spec(x), r),
{
    let mut i: usize = 0;
    while i < hay.len()
        invariant
            i <= hay.len(),
            forall|k: int| 0 <= k < i ==> !is_escape_spec(hay@[k]),
        decreases hay.len() - i,
    {
        if is_escape(hay[i]) {
            return Some(i);
        }
        i += 1;
    }
    None
}

/// Membership in the inline trigger set, optionally widened.
pub fn in_inline_set(b: u8, strike: bool, autolink: bool) -> (r: bool)
    ensures
        r == inline_set_spec(b, strike, autolink),
{
    matches!(b, 0x5c | 0x60 | 0x26 | 0x3c | 0x0a | 0x2a | 0x5f | 0x5b | 0x5d | 0x21)
        || (strike && b == 0x7e)
        || (autolink && matches!(b, 0x40 | 0x77 | 0x57 | 0x3a))
}

/// Membership in the stream trigger set, optionally widened.
pub fn in_stream_set(b: u8, autolink: bool) -> (r: bool)
    ensures
        r == stream_set_spec(b, autolink),
{
    matches!(b, 0x5c | 0x60 | 0x26 | 0x3c | 0x0a) || (autolink && matches!(
        b,
        0x40 | 0x77 | 0x57 | 0x3a
    ))
}

/// Membership in the emphasis-opener set, optionally widened by `~`.
pub fn in_emph_set(b: u8, strike: bool) -> (r: bool)
    ensures
        r == emph_set_spec(b, strike),
{
    matches!(b, 0x2a | 0x5f | 0x5b) || (strike && b == 0x7e)
}

/// Index of the first inline trigger (widened as asked) in `hay`.
pub fn find_inline_with(hay: &[u8], strike: bool, autolink: bool) -> (r: Option<usize>)
    ensures
        first_where(hay@, |x: u8| inline_set_spec(x, strike, autolink), r),
{
    let mut i: usize = 0;
    while i < hay.len()
        invariant
            i <= hay.len(),
            forall|k: int| 0 <= k < i ==> !inline_set_spec(hay@[k], strike, autolink),
        decreases hay.len() - i,
    {
        if in_inline_set(hay[i], strike, autolink) {
            return Some(i);
        }
        i += 1;
    }
    None
}

/// Index of the first stream trigger (widened as asked) in `hay`.
pub fn find_stream_with(hay: &[u8], autolink: bool) -> (r: Option<usize>)
    ensures
        first_where(hay@, |x: u8| stream_set_spec(x, autolink), r),
{
    let mut i: usize = 0;
    while i < hay.len()
        invariant
            i <= hay.len(),
            forall|k: int| 0 <= k < i ==> !stream_set_spec(hay@[k], autolink),
        decreases hay.len() - i,
    {
        if in_stream_set(hay[i], autolink) {
            return Some(i);
        }
        i += 1;
    }
    None
}

/// Index of the first emphasis/link opener (widened as asked) in `hay`.
pub fn find_emph_with(hay: &[u8], strike: bool) -> (r: Option<usize>)
    ensures
        first_where(hay@, |x: u8| emph_set_spec(x, strike), r),
{
    let mut i: usize = 0;
    while i < hay.len()
        invariant
            i <= hay.len(),
            forall|k: int| 0 <= k < i ==> !emph_set_spec(hay@[k], strike),
        decreases hay.len() - i,
    {
        if in_emph_set(hay[i], strike) {
            return Some(i);
        }
        i += 1;
    }
    None
}

/// Index of the first inline trigger in `hay`.
pub fn find_inline(hay: &[u8]) -> (r: Option<usize>)
    ensures
        first_where(hay@, |x: u8| is_inline_spec(x), r),
{
    let r = find_inline_with(hay, false, false);
    assert(forall|x: u8| inline_set_spec(x, false, false) == is_inline_spec(x));
    r
}

/// Index of the first stream trigger in `hay`.
pub fn find_stream(hay: &[u8]) -> (r: Option<usize>)
    ensures
        first_where(hay@, |x: u8| is_stream_spec(x), r),
{
    let r = find_stream_with(hay, false);
    assert(forall|x: u8| stream_set_spec(x, false) == is_stream_spec(x));
    r
}

/// Index of the first emphasis/link opener in `hay`.
pub fn find_emph(hay: &[u8]) -> (r: Option<usize>)
    ensures
        first_where(hay@, |x: u8| is_emph_spec(x), r),
{
    let r = find_emph_with(hay, false);
    assert(forall|x: u8| emph_set_spec(x, false) == is_emph_spec(x));
    r
}

} // verus!
