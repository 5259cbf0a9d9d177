#![verifier::loop_isolation(false)]
//! GFM extended autolinks (bare `www.`, `http(s)://`, and email addresses),
//! and the tag stripping that derives image alt text.

use vstd::prelude::*;
use crate::lines::count_byte;
use crate::bytes::{
    is_alnum_spec, append, append_str, contains, find_sub, first_byte_from, is_alnum, is_first_byte, is_first_occurrence,
    lemma_first_byte, occurs_at, slice, starts_at, starts_with_str, tail,
};
use crate::escape::{esc_text, escape_href, escape_html_bytes, href_text};
use vstd::string::StringSliceAdditionalSpecFns;

verus! {

/// Bytes after which a GFM extended autolink may begin: space, tab,
/// newline, `*`, `_`, `~`, `(`.
pub open spec fn al_boundary_byte(c: u8) -> bool {
    c == 0x20 || c == 0x09 || c == 0x0a || c == 0x2a || c == 0x5f || c == 0x7e || c == 0x28
}

/// A GFM extended autolink may begin at text start or just after whitespace
/// or one of `*`, `_`, `~`, `(`.
pub fn al_boundary(b: &[u8], i: usize) -> (r: bool)
    requires
        i <= b@.len(),
    ensures
        r == (i == 0 || al_boundary_byte(b@[i - 1])),
{
    if i == 0 {
        return true;
    }
    let c = b[i - 1];
    c == 0x20 || c == 0x09 || c == 0x0a || c == 0x2a || c == 0x5f || c == 0x7e || c == 0x28
}

/// Count of `c` in `b[start..end]`.
fn count_in(b: &[u8], start: usize, end: usize, c: u8) -> (n: usize)
    requires
        start <= end <= b@.len(),
    ensures
        n == count_byte(b@.subrange(start as int, end as int), c),
        n <= end - start,
{
    let mut n: usize = 0;
    let mut k = start;
    while k < end
        invariant
            start <= k <= end,
            end <= b@.len(),
            n <= k - start,
            n == count_byte(b@.subrange(start as int, k as int), c),
        decreases end - k,
    {
        proof {
            assert(b@.subrange(start as int, k + 1).drop_last() =~= b@.subrange(start as int, k as int));
        }
        if b[k] == c {
            n += 1;
        }
        k += 1;
    }
    n
}

/// Punctuation trimmed off the end of an extended autolink: `?!.,:*_~`.
pub open spec fn url_trail_punct(c: u8) -> bool {
    c == 0x3f || c == 0x21 || c == 0x2e || c == 0x2c || c == 0x3a || c == 0x2a || c == 0x5f || c == 0x7e
}

/// Going back from `j`, no further than `lo`, past ASCII letters and digits.
pub open spec fn alnum_back(b: Seq<u8>, lo: int, j: int) -> int
    decreases j - lo,
{
    if j > lo && is_alnum_spec(b[j - 1]) {
        alnum_back(b, lo, j - 1)
    } else {
        j
    }
}

/// The end of the autolink `b[start..end]` once trailing punctuation, an
/// unbalanced `)` and a trailing entity reference `&name;` are trimmed,
/// repeatedly.
pub open spec fn trim_url_spec(b: Seq<u8>, start: int, end: int) -> int
    decreases end - start,
{
    if end <= start {
        end
    } else {
        let c = b[end - 1];
        if url_trail_punct(c) {
            trim_url_spec(b, start, end - 1)
        } else if c == 0x29 {
            let span = b.subrange(start, end);
            if count_byte(span, 0x29) > count_byte(span, 0x28) {
                trim_url_spec(b, start, end - 1)
            } else {
                end
            }
        } else if c == 0x3b {
            let j = alnum_back(b, start, end - 1);
            if start < j <= end - 1 && b[j - 1] == 0x26 {
                trim_url_spec(b, start, j - 1)
            } else {
                end
            }
        } else {
            end
        }
    }
}

/// Trim trailing punctuation off a matched autolink (GFM §6.9): `?!.,:*_~`,
/// an unbalanced `)`, and a trailing entity reference `&…;`.
pub fn gfm_trim_url(b: &[u8], start: usize, end0: usize) -> (r: usize)
    requires
        start <= end0 <= b@.len(),
    ensures
        r == trim_url_spec(b@, start as int, end0 as int),
        start <= r <= end0,
{
    let mut end = end0;
    while end > start
        invariant
            start <= end <= end0,
            end0 <= b@.len(),
            trim_url_spec(b@, start as int, end as int) == trim_url_spec(b@, start as int, end0 as int),
        decreases end,
    {
        let c = b[end - 1];
        if c == 0x3f || c == 0x21 || c == 0x2e || c == 0x2c || c == 0x3a || c == 0x2a || c == 0x5f
            || c == 0x7e {
            end -= 1;
        } else if c == 0x29 {
            let opens = count_in(b, start, end, 0x28);
            let closes = count_in(b, start, end, 0x29);
            if closes > opens {
                end -= 1;
            } else {
                break;
            }
        } else if c == 0x3b {
            let mut j = end - 1;
            while j > start && is_alnum(b[j - 1])
                invariant
                    start <= j < end,
                    end <= b@.len(),
                    alnum_back(b@, start as int, j as int) == alnum_back(b@, start as int, end - 1),
                decreases j,
            {
                j -= 1;
            }
            if j > start && b[j - 1] == 0x26 {
                end = j - 1;
            } else {
                break;
            }
        } else {
            break;
        }
    }
    end
}

/// The bytes of `https://`, `www.` and `https`.
pub const HTTPS_PREFIX: [u8; 8] = [0x68, 0x74, 0x74, 0x70, 0x73, 0x3a, 0x2f, 0x2f];
pub const WWW_PREFIX: [u8; 4] = [0x77, 0x77, 0x77, 0x2e];
pub const HTTPS: [u8; 5] = [0x68, 0x74, 0x74, 0x70, 0x73];

/// A byte of an extended autolink's domain: a letter, a digit, `-`, `_`
/// or `.`.
pub open spec fn domain_byte(c: u8) -> bool {
    is_alnum_spec(c) || c == 0x2d || c == 0x5f || c == 0x2e
}

/// A byte that ends an extended autolink's path: whitespace or `<`.
pub open spec fn path_stop(c: u8) -> bool {
    c == 0x20 || c == 0x09 || c == 0x0a || c == 0x0d || c == 0x3c
}

/// A byte of an email autolink's local part: a letter, a digit, `.`, `_`,
/// `+` or `-`.
pub open spec fn email_local_byte(c: u8) -> bool {
    is_alnum_spec(c) || c == 0x2e || c == 0x5f || c == 0x2b || c == 0x2d
}

/// The first index from `k` on whose byte is not a domain byte (class 0)
/// or is a path stop (class 1); else the length.
pub open spec fn fwd_end(b: Seq<u8>, k: int, cls: int) -> int
    decreases b.len() - k,
{
    if 0 <= k < b.len() && (if cls == 0 {
        domain_byte(b[k])
    } else {
        !path_stop(b[k])
    }) {
        fwd_end(b, k + 1, cls)
    } else {
        k
    }
}

/// Where a `www.`/`http(s)://` autolink that starts at `start` ends: past
/// the scheme, a domain of letters, digits, `-`, `_` and at least one `.`,
/// then a path up to whitespace or `<`, then trailing punctuation trimmed;
/// the trimmed link must keep a `.` past the scheme.
pub open spec fn url_scan_spec(b: Seq<u8>, start: int) -> Option<int> {
    let scan = if occurs_at(b, HTTP_PREFIX@, start) {
        start + 7
    } else if occurs_at(b, HTTPS_PREFIX@, start) {
        start + 8
    } else if occurs_at(b, WWW_PREFIX@, start) {
        start + 4
    } else {
        -1
    };
    let i = fwd_end(b, scan, 0);
    let end = trim_url_spec(b, start, fwd_end(b, i, 1));
    if scan < 0 || i == scan || !b.subrange(scan, i).contains(0x2e) {
        None
    } else if end > scan && b.subrange(scan, end).contains(0x2e) {
        Some(end)
    } else {
        None
    }
}

/// If a `www.` / `http(s)://` autolink starts at `b[start]`, its end.
#[verifier::rlimit(30)]
pub fn gfm_scan_url(b: &[u8], start: usize) -> (r: Option<usize>)
    requires
        start <= b@.len(),
    ensures
        r matches Some(e) ==> start < e <= b@.len() && url_scan_spec(b@, start as int) == Some(e as int),
        r is None ==> url_scan_spec(b@, start as int) is None,
{
    let len = b.len();
    let scan = if starts_at(b, start, HTTP_PREFIX.as_slice()) {
        start + 7
    } else if starts_at(b, start, HTTPS_PREFIX.as_slice()) {
        start + 8
    } else if starts_at(b, start, WWW_PREFIX.as_slice()) {
        start + 4
    } else {
        return None;
    };
    // Domain: dot-separated labels of [A-Za-z0-9_-]; needs at least one dot.
    let mut i = scan;
    let mut dots: usize = 0;
    while i < len
        invariant
            scan <= i <= len,
            len == b@.len(),
            fwd_end(b@, i as int, 0) == fwd_end(b@, scan as int, 0),
            dots <= i - scan,
            (dots > 0) == b@.subrange(scan as int, i as int).contains(0x2e),
        decreases len - i,
    {
        let c = b[i];
        proof {
            let prev = b@.subrange(scan as int, i as int);
            let next = b@.subrange(scan as int, i + 1);
            assert(next =~= prev.push(c));
            if c == 0x2e {
                assert(next[next.len() - 1] == 0x2e);
            }
            if prev.contains(0x2e) {
                let w = choose|w: int| 0 <= w < prev.len() && prev[w] == 0x2e;
                assert(next[w] == 0x2e);
            }
            if next.contains(0x2e) && c != 0x2e {
                let w = choose|w: int| 0 <= w < next.len() && next[w] == 0x2e;
                assert(prev[w] == 0x2e);
            }
        }
        if c == 0x2e {
            if dots < usize::MAX {
                dots += 1;
            }
        } else if is_alnum(c) || c == 0x2d || c == 0x5f {
        } else {
            break;
        }
        i += 1;
    }
    if i == scan || dots == 0 {
        return None;
    }
    // Path: up to whitespace or `<`.
    let mut end = i;
    while end < len && b[end] != 0x20 && b[end] != 0x09 && b[end] != 0x0a && b[end] != 0x0d
        && b[end] != 0x3c
        invariant
            i <= end <= len,
            len == b@.len(),
            fwd_end(b@, end as int, 1) == fwd_end(b@, i as int, 1),
        decreases len - end,
    {
        end += 1;
    }
    let end = gfm_trim_url(b, start, end);
    let rest = slice(b, scan, end);
    proof {
        if end > scan {
            assert(rest@ =~= b@.subrange(scan as int, end as int));
        }
    }
    if end > scan && contains(rest, 0x2e) {
        Some(end)
    } else {
        None
    }
}

/// The start of the `http`/`https` scheme before the `:` at `i` that opens
/// `://`, when it sits at an autolink boundary.
pub open spec fn colon_scheme_start(b: Seq<u8>, i: int) -> Option<int> {
    if !(b.len() - i > 2 && b[i + 1] == 0x2f && b[i + 2] == 0x2f) {
        None
    } else {
        let start = if i >= 5 && occurs_at(b, HTTPS@, i - 5) {
            i - 5
        } else if i >= 4 && occurs_at(b, HTTP@, i - 4) {
            i - 4
        } else {
            -1
        };
        if start >= 0 && (start == 0 || al_boundary_byte(b[start - 1])) {
            Some(start)
        } else {
            None
        }
    }
}

/// At a `:` opening `://`, if a preceding `http`/`https` scheme sits at an
/// autolink boundary, the URL's `(start, end)`.
pub fn gfm_scan_url_at_colon(b: &[u8], i: usize) -> (r: Option<(usize, usize)>)
    requires
        i < b@.len(),
    ensures
        r matches Some((s, e)) ==> s <= i < e <= b@.len() && colon_scheme_start(b@, i as int) == Some(
            s as int,
        ) && url_scan_spec(b@, s as int) == Some(e as int),
        r is None ==> match colon_scheme_start(b@, i as int) {
            Some(s) => match url_scan_spec(b@, s) {
                Some(e) => e <= i,
                None => true,
            },
            None => true,
        },
{
    let len = b.len();
    if !(len - i > 2 && b[i + 1] == 0x2f && b[i + 2] == 0x2f) {
        return None;
    }
    let start = if i >= 5 && starts_at(b, i - 5, HTTPS.as_slice()) {
        i - 5
    } else if i >= 4 && starts_at(b, i - 4, HTTP.as_slice()) {
        i - 4
    } else {
        return None;
    };
    if !al_boundary(b, start) {
        return None;
    }
    match gfm_scan_url(b, start) {
        Some(end) => {
            if end > i {
                Some((start, end))
            } else {
                None
            }
        },
        None => None,
    }
}

/// Going back from `j`, no further than `lo`, past bytes that are not
/// ASCII letters or digits.
pub open spec fn non_alnum_back(b: Seq<u8>, lo: int, j: int) -> int
    decreases j - lo,
{
    if j > lo && !is_alnum_spec(b[j - 1]) {
        non_alnum_back(b, lo, j - 1)
    } else {
        j
    }
}

/// Going back from `j` past email local-part bytes.
pub open spec fn local_back(b: Seq<u8>, j: int) -> int
    decreases j,
{
    if j > 0 && email_local_byte(b[j - 1]) {
        local_back(b, j - 1)
    } else {
        j
    }
}

/// The bare email autolink around the `@` at `at`: the local part runs back
/// over letters, digits, `.`, `_`, `+`, `-` to an autolink boundary and is
/// not empty; the domain runs over letters, digits, `.`, `-`, `_`, less
/// any trailing bytes that are not letters or digits, and holds a `.`.
pub open spec fn email_scan_spec(b: Seq<u8>, at: int) -> Option<(int, int)> {
    let s = local_back(b, at);
    let i = fwd_end(b, at + 1, 0);
    let e = non_alnum_back(b, at + 1, i);
    if s == at || !(s == 0 || al_boundary_byte(b[s - 1])) {
        None
    } else if e > at + 1 && b.subrange(at + 1, e).contains(0x2e) {
        Some((s, e))
    } else {
        None
    }
}

/// If a bare email autolink has its `@` at `b[at]`, the address's `(start,
/// end)`. The local part must sit at an autolink boundary.
#[verifier::rlimit(30)]
pub fn gfm_scan_email(b: &[u8], at: usize) -> (r: Option<(usize, usize)>)
    requires
        at < b@.len(),
    ensures
        r matches Some((s, e)) ==> s < at < e <= b@.len() && email_scan_spec(b@, at as int) == Some((s as int, e as int)),
        r is None ==> email_scan_spec(b@, at as int) is None,
{
    let len = b.len();
    let mut s = at;
    while s > 0 && (is_alnum(b[s - 1]) || b[s - 1] == 0x2e || b[s - 1] == 0x5f || b[s - 1] == 0x2b
        || b[s - 1] == 0x2d)
        invariant
            s <= at,
            at < len,
            len == b@.len(),
            local_back(b@, s as int) == local_back(b@, at as int),
        decreases s,
    {
        s -= 1;
    }
    if s == at || !al_boundary(b, s) {
        return None;
    }
    let mut i = at + 1;
    let dstart = i;
    while i < len && (b[i] == 0x2e || b[i] == 0x2d || b[i] == 0x5f || is_alnum(b[i]))
        invariant
            dstart <= i <= len,
            len == b@.len(),
            fwd_end(b@, i as int, 0) == fwd_end(b@, dstart as int, 0),
        decreases len - i,
    {
        i += 1;
    }
    let mut e = i;
    while e > dstart && !is_alnum(b[e - 1])
        invariant
            dstart <= e <= i,
            i <= len,
            len == b@.len(),
            non_alnum_back(b@, dstart as int, e as int) == non_alnum_back(b@, dstart as int, i as int),
        decreases e,
    {
        e -= 1;
    }
    if e > dstart && contains(slice(b, dstart, e), 0x2e) {
        Some((s, e))
    } else {
        None
    }
}

/// `b[start..end]`, clamped.
pub open spec fn span(b: Seq<u8>, start: usize, end: usize) -> Seq<u8> {
    b.subrange(
        crate::bytes::clamp_lo(b.len() as int, start as int),
        crate::bytes::clamp_hi(b.len() as int, start as int, end as int),
    )
}

/// The `http://` prefix a `www.` link's href gets.
pub open spec fn url_prefix(text: Seq<u8>) -> Seq<u8> {
    if text.len() >= 4 && text.subrange(0, 4) == seq![0x68u8, 0x74, 0x74, 0x70] {
        Seq::empty()
    } else {
        seq![0x68u8, 0x74, 0x74, 0x70, 0x3a, 0x2f, 0x2f]
    }
}

/// Emit a `www.`/`http(s)://` autolink as `<a href="…">…</a>` (a `www.` link
/// gets an `http://` href prefix; the visible text is verbatim).
pub fn emit_url(b: &[u8], start: usize, end: usize, out: &mut Vec<u8>)
    ensures
        final(out)@ == old(out)@ + "<a href=\"".spec_bytes() + url_prefix(span(b@, start, end))
            + href_text(span(b@, start, end)) + "\">".spec_bytes() + esc_text(span(b@, start, end))
            + "</a>".spec_bytes(),
{
    let text = slice(b, start, end);
    append_str(out, "<a href=\"");
    let has_scheme = starts_at(text, 0, HTTP.as_slice());
    if !has_scheme {
        append(out, HTTP_PREFIX.as_slice());
    }
    proof {
        assert(HTTP@ =~= seq![0x68u8, 0x74, 0x74, 0x70]);
        assert(HTTP_PREFIX@ =~= seq![0x68u8, 0x74, 0x74, 0x70, 0x3a, 0x2f, 0x2f]);
    }
    escape_href(text, out);
    append_str(out, "\">");
    escape_html_bytes(text, out);
    append_str(out, "</a>");
}

/// The bytes of `http`.
pub const HTTP: [u8; 4] = [0x68, 0x74, 0x74, 0x70];

/// The bytes of `http://`.
pub const HTTP_PREFIX: [u8; 7] = [0x68, 0x74, 0x74, 0x70, 0x3a, 0x2f, 0x2f];

/// Emit a bare email autolink as `<a href="mailto:…">…</a>`.
pub fn emit_email(b: &[u8], start: usize, end: usize, out: &mut Vec<u8>)
    ensures
        final(out)@ == old(out)@ + "<a href=\"mailto:".spec_bytes() + href_text(span(b@, start, end))
            + "\">".spec_bytes() + esc_text(span(b@, start, end)) + "</a>".spec_bytes(),
{
    let email = slice(b, start, end);
    append_str(out, "<a href=\"mailto:");
    escape_href(email, out);
    append_str(out, "\">");
    escape_html_bytes(email, out);
    append_str(out, "</a>");
}

/// The bytes of `<img`.
pub const IMG_OPEN: [u8; 4] = [0x3c, 0x69, 0x6d, 0x67];

/// The bytes of `alt="`.
pub const ALT_OPEN: [u8; 5] = [0x61, 0x6c, 0x74, 0x3d, 0x22];

/// What a tag contributes to alt text: for an `<img` tag, the value of its
/// first `alt="…"` attribute when the closing quote is present; else nothing.
pub open spec fn img_alt(tag: Seq<u8>) -> Seq<u8> {
    if tag.len() >= 4 && tag.subrange(0, 4) == IMG_OPEN@ {
        let rest = tag.subrange(4, tag.len() as int);
        if exists|p: int| is_first_occurrence(rest, ALT_OPEN@, p) {
            let p = choose|p: int| is_first_occurrence(rest, ALT_OPEN@, p);
            let after = rest.subrange(p + 5, rest.len() as int);
            let q = first_byte_from(after, 0, 0x22);
            if q < after.len() {
                after.subrange(0, q)
            } else {
                Seq::empty()
            }
        } else {
            Seq::empty()
        }
    } else {
        Seq::empty()
    }
}

/// Where the tag opened by the `<` at `i` ends: just past its first `>`, or
/// at the end of `s`.
pub open spec fn tag_close(s: Seq<u8>, i: int) -> int {
    let g = first_byte_from(s, i, 0x3e);
    if g < s.len() {
        g + 1
    } else {
        s.len() as int
    }
}

/// The alt text of `s` from `i` on: bytes outside tags are kept, each tag
/// gives way to what [`img_alt`] takes from it.
pub open spec fn strip_from(s: Seq<u8>, i: int) -> Seq<u8>
    decreases s.len() - i,
{
    if i < 0 || i >= s.len() {
        Seq::empty()
    } else if s[i] == 0x3c {
        img_alt(s.subrange(i, tag_close(s, i))) + strip_from(s, tag_close(s, i))
    } else {
        seq![s[i]] + strip_from(s, i + 1)
    }
}

/// Remove `<...>` tag spans from rendered HTML to derive image alt text; a
/// nested `<img>` contributes its own `alt` attribute.
#[verifier::rlimit(30)]
pub fn strip_tags(s: &[u8]) -> (r: Vec<u8>)
    ensures
        r@ == strip_from(s@, 0),
{
    let len = s.len();
    let mut out: Vec<u8> = Vec::new();
    let mut i: usize = 0;
    while i < len
        invariant
            i <= len,
            len == s@.len(),
            out@ + strip_from(s@, i as int) == strip_from(s@, 0),
        decreases len - i,
    {
        let ghost prev = out@;
        if s[i] == 0x3c {
            let from = tail(s, i);
            let found = crate::scan::memchr1(from, 0x3e);
            proof {
                assert(from@ =~= s@.subrange(i as int, len as int));
                lemma_first_byte(s@, i as int, 0x3e, found);
            }
            let end = match found {
                Some(p) => i + p + 1,
                None => len,
            };
            let tag = slice(s, i, end);
            proof {
                assert(end == tag_close(s@, i as int));
                assert(tag@ =~= s@.subrange(i as int, end as int));
            }
            let mut piece: Vec<u8> = Vec::new();
            if starts_at(tag, 0, IMG_OPEN.as_slice()) {
                let rest = tail(tag, 4);
                match find_sub(rest, ALT_OPEN.as_slice()) {
                    Some(ap) => {
                        let after = tail(rest, ap + 5);
                        let fq = crate::scan::memchr1(after, 0x22);
                        proof {
                            assert(is_first_occurrence(rest@, ALT_OPEN@, ap as int));
                            let p = choose|p: int| is_first_occurrence(rest@, ALT_OPEN@, p);
                            assert(p == ap) by {
                                if p < ap {
                                    assert(!occurs_at(rest@, ALT_OPEN@, p));
                                } else if p > ap {
                                    assert(!occurs_at(rest@, ALT_OPEN@, ap as int));
                                }
                            }
                            assert(after@.subrange(0, after@.len() as int) =~= after@);
                            lemma_first_byte(after@, 0, 0x22, fq);
                        }
                        match fq {
                            Some(q) => append(&mut piece, slice(after, 0, q)),
                            None => {},
                        }
                    },
                    None => {
                        proof {
                            assert forall|p: int| !is_first_occurrence(rest@, ALT_OPEN@, p) by {
                                assert(!occurs_at(rest@, ALT_OPEN@, p));
                            }
                        }
                    },
                }
            }
            proof {
                assert(piece@ =~= img_alt(tag@));
            }
            append(&mut out, piece.as_slice());
            proof {
                assert(out@ + strip_from(s@, end as int) =~= prev + strip_from(s@, i as int));
            }
            i = end;
        } else {
            out.push(s[i]);
            proof {
                assert(out@ + strip_from(s@, i + 1) =~= prev + strip_from(s@, i as int));
            }
            i += 1;
        }
    }
    proof {
        assert(out@ =~= out@ + strip_from(s@, len as int));
    }
    out
}

} // verus!
