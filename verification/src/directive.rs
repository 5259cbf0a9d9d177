#![verifier::loop_isolation(false)]
//! Directive headers (the remark-directive grammar): `name`, an optional
//! `[label]`, and optional `{attributes}` — the part after the leading
//! colon(s) of a text, leaf, or container directive.
//!
//! Attributes: `#id` sets `id` (last wins), `.cls` accumulates into `class`
//! (space-joined), and `key`, `key=value`, `key="value"` set arbitrary pairs
//! (last wins). Keys keep their first-occurrence order.

use vstd::prelude::*;
use crate::bytes::{append, is_alnum, is_ascii_ws, is_ascii_ws_spec, slice, to_vec};

verus! {

/// A parsed directive header; ranges index the input slice.
pub struct Header {
    pub name_start: usize,
    pub name_end: usize,
    /// Content range of `[label]`, brackets excluded.
    pub label: Option<(usize, usize)>,
    /// Attributes in first-occurrence key order.
    pub attrs: Vec<(Vec<u8>, Vec<u8>)>,
    /// Bytes consumed: name, label and attributes.
    pub consumed: usize,
}

pub open spec fn is_name_byte_spec(b: u8) -> bool {
    crate::bytes::is_alnum_spec(b) || b == 0x2d || b == 0x5f
}

fn is_name_byte(b: u8) -> (r: bool)
    ensures
        r == is_name_byte_spec(b),
{
    is_alnum(b) || b == 0x2d || b == 0x5f
}

/// The scan for the `]` matching the `[` at `open`, at `i` with `depth`
/// brackets open: a backslash skips the byte after it, `[` opens, and the
/// `]` that brings the depth back to zero past `open` closes.
pub open spec fn label_scan(s: Seq<u8>, open: int, i: int, depth: int) -> Option<int>
    decreases s.len() - i,
{
    if i < 0 || i >= s.len() {
        None
    } else if s[i] == 0x5c {
        if i + 1 >= s.len() {
            None
        } else {
            label_scan(s, open, i + 2, depth)
        }
    } else if s[i] == 0x5b {
        label_scan(s, open, i + 1, depth + 1)
    } else if s[i] == 0x5d {
        let d = if depth > 0 {
            depth - 1
        } else {
            0
        };
        if d == 0 && i > open {
            Some(i)
        } else {
            label_scan(s, open, i + 1, d)
        }
    } else {
        label_scan(s, open, i + 1, depth)
    }
}

/// Index of the `]` matching the `[` at `open`, skipping backslash-escaped
/// bytes and counting nested brackets.
pub fn label_end(s: &[u8], open: usize) -> (r: Option<usize>)
    requires
        open < s@.len(),
        s@[open as int] == 0x5b,
    ensures
        r matches Some(e) ==> open < e < s@.len() && s@[e as int] == 0x5d,
        r matches Some(e) ==> label_scan(s@, open as int, open as int, 0) == Some(e as int),
        r is None ==> label_scan(s@, open as int, open as int, 0) is None,
{
    let n = s.len();
    let mut depth: usize = 0;
    let mut i = open;
    while i < n
        invariant
            open <= i,
            n == s@.len(),
            depth <= i - open,
            i == open ==> depth == 0,
            label_scan(s@, open as int, i as int, depth as int) == label_scan(s@, open as int, open as int, 0),
        decreases n - i,
    {
        let c = s[i];
        if c == 0x5c {
            i += 1;
        } else if c == 0x5b {
            depth += 1;
        } else if c == 0x5d {
            if depth > 0 {
                depth -= 1;
            }
            if depth == 0 && i > open {
                return Some(i);
            }
        }
        if i < n {
            i += 1;
        }
    }
    None
}

/// The scan for the `}` closing an attribute list, at `i`, inside the
/// quote `quote` (or none when it is zero): a quote opens a string, the
/// same quote closes it, and a `}` outside strings closes the list.
pub open spec fn attr_scan(s: Seq<u8>, i: int, quote: u8) -> Option<int>
    decreases s.len() - i,
{
    if i < 0 || i >= s.len() {
        None
    } else if quote != 0 {
        attr_scan(s, i + 1, if s[i] == quote { 0 } else { quote })
    } else if s[i] == 0x22 || s[i] == 0x27 {
        attr_scan(s, i + 1, s[i])
    } else if s[i] == 0x7d {
        Some(i)
    } else {
        attr_scan(s, i + 1, 0)
    }
}

/// Index of the `}` closing the `{` at `open`; a `}` inside a quoted string
/// does not close.
pub fn attr_end(s: &[u8], open: usize) -> (r: Option<usize>)
    requires
        open < s@.len(),
    ensures
        r matches Some(e) ==> open < e < s@.len() && s@[e as int] == 0x7d,
        r matches Some(e) ==> attr_scan(s@, open + 1, 0) == Some(e as int),
        r is None ==> attr_scan(s@, open + 1, 0) is None,
{
    let n = s.len();
    let mut i = open + 1;
    let mut quote: u8 = 0;
    while i < n
        invariant
            open < i,
            n == s@.len(),
            attr_scan(s@, i as int, quote) == attr_scan(s@, open + 1, 0),
        decreases n - i,
    {
        let b = s[i];
        if quote != 0 {
            if b == quote {
                quote = 0;
            }
        } else if b == 0x22 || b == 0x27 {
            quote = b;
        } else if b == 0x7d {
            return Some(i);
        }
        i += 1;
    }
    None
}

/// Position of `key` among the attribute keys.
pub open spec fn key_at(attrs: Seq<(Vec<u8>, Vec<u8>)>, key: Seq<u8>, j: int) -> bool {
    0 <= j < attrs.len() && attrs[j].0@ == key && forall|k: int|
        0 <= k < j ==> (#[trigger] attrs[k]).0@ != key
}

fn bytes_eq(a: &[u8], b: &[u8]) -> (r: bool)
    ensures
        r == (a@ == b@),
{
    if a.len() != b.len() {
        return false;
    }
    let mut k: usize = 0;
    while k < a.len()
        invariant
            a@.len() == b@.len(),
            k <= a@.len(),
            forall|j: int| 0 <= j < k ==> a@[j] == b@[j],
        decreases a.len() - k,
    {
        if a[k] != b[k] {
            return false;
        }
        k += 1;
    }
    assert(a@ =~= b@);
    true
}

/// The bytes of `class`.
pub open spec fn class_key() -> Seq<u8> {
    seq![0x63u8, 0x6c, 0x61, 0x73, 0x73]
}

fn is_class_key(key: &[u8]) -> (r: bool)
    ensures
        r == (key@ == class_key()),
{
    let r = key.len() == 5 && key[0] == 0x63 && key[1] == 0x6c && key[2] == 0x61 && key[3] == 0x73
        && key[4] == 0x73;
    proof {
        if r {
            assert(key@ =~= class_key());
        }
    }
    r
}

/// No key occurs twice.
pub open spec fn keys_unique(attrs: Seq<(Vec<u8>, Vec<u8>)>) -> bool {
    forall|i: int, j: int|
        0 <= i < j < attrs.len() ==> (#[trigger] attrs[i]).0@ != (#[trigger] attrs[j]).0@
}

/// The attributes as plain byte strings.
pub open spec fn attrs_view(a: Seq<(Vec<u8>, Vec<u8>)>) -> Seq<(Seq<u8>, Seq<u8>)> {
    a.map_values(|p: (Vec<u8>, Vec<u8>)| (p.0@, p.1@))
}

/// The index of the first attribute from `j` on whose key is `key`, or the
/// length when there is none.
pub open spec fn key_index(a: Seq<(Seq<u8>, Seq<u8>)>, key: Seq<u8>, j: int) -> int
    decreases a.len() - j,
{
    if j < 0 || j >= a.len() {
        a.len() as int
    } else if a[j].0 == key {
        j
    } else {
        key_index(a, key, j + 1)
    }
}

/// `a` with `(key, value)` set: an existing `class` accumulates
/// (space-joined), any other existing key is replaced, and a new key
/// appends.
pub open spec fn set_attr_spec(a: Seq<(Seq<u8>, Seq<u8>)>, key: Seq<u8>, value: Seq<u8>) -> Seq<
    (Seq<u8>, Seq<u8>),
> {
    let j = key_index(a, key, 0);
    if j < a.len() {
        a.update(
            j,
            (
                key,
                if key == class_key() {
                    a[j].1 + seq![0x20u8] + value
                } else {
                    value
                },
            ),
        )
    } else {
        a.push((key, value))
    }
}

/// Insert `(key, value)`: an existing `class` accumulates (space-joined),
/// any other existing key is replaced (last wins), and a new key appends.
#[verifier::rlimit(30)]
pub fn set_attr(attrs: &mut Vec<(Vec<u8>, Vec<u8>)>, key: &[u8], value: Vec<u8>)
    ensures
        attrs_view(final(attrs)@) == set_attr_spec(attrs_view(old(attrs)@), key@, value@),
        (exists|j: int| key_at(old(attrs)@, key@, j)) ==> final(attrs)@.len() == old(attrs)@.len()
            && forall|j: int|
            key_at(old(attrs)@, key@, j) ==> final(attrs)@[j].0@ == key@ && final(attrs)@[j].1@
                == if key@ == class_key() {
                old(attrs)@[j].1@ + seq![0x20u8] + value@
            } else {
                value@
            } && forall|k: int| 0 <= k < old(attrs)@.len() && k != j ==> #[trigger] final(attrs)@[k] == old(attrs)@[k],
        !(exists|j: int| key_at(old(attrs)@, key@, j)) ==> final(attrs)@.len() == old(attrs)@.len() + 1
            && final(attrs)@[old(attrs)@.len() as int].0@ == key@ && final(attrs)@[old(attrs)@.len() as int].1@
            == value@ && forall|k: int| 0 <= k < old(attrs)@.len() ==> #[trigger] final(attrs)@[k] == old(attrs)@[k],
        keys_unique(old(attrs)@) ==> keys_unique(final(attrs)@),
{
    let n = attrs.len();
    let mut j: usize = 0;
    while j < n
        invariant
            j <= n == attrs@.len(),
            attrs@ == old(attrs)@,
            forall|k: int| 0 <= k < j ==> (#[trigger] attrs@[k]).0@ != key@,
            key_index(attrs_view(old(attrs)@), key@, j as int) == key_index(attrs_view(old(attrs)@), key@, 0),
        decreases n - j,
    {
        proof {
            assert(attrs_view(old(attrs)@)[j as int] == (old(attrs)@[j as int].0@, old(attrs)@[j as int].1@));
        }
        if bytes_eq(attrs[j].0.as_slice(), key) {
            let is_class = is_class_key(key);
            proof {
                assert(key_at(old(attrs)@, key@, j as int));
                assert forall|j2: int| key_at(old(attrs)@, key@, j2) implies j2 == j by {
                    if j2 < j {
                        assert(old(attrs)@[j2].0@ != key@);
                    } else if j2 > j {
                        assert(old(attrs)@[j as int].0@ != key@);
                    }
                }
            }
            let k = attrs[j].0.clone();
            let ghost value_view = value@;
            let v = if is_class {
                let mut joined = attrs[j].1.clone();
                proof {
                    assert(joined@ =~= old(attrs)@[j as int].1@);
                }
                joined.push(0x20);
                append(&mut joined, value.as_slice());
                joined
            } else {
                value
            };
            proof {
                assert(k@ == key@);
                assert(key_index(attrs_view(old(attrs)@), key@, j as int) == j);
                assert(v@ == if key@ == class_key() {
                    old(attrs)@[j as int].1@ + seq![0x20u8] + value_view
                } else {
                    value_view
                });
            }
            attrs.set(j, (k, v));
            proof {
                assert(attrs_view(attrs@) =~= set_attr_spec(attrs_view(old(attrs)@), key@, value_view));
                assert forall|a: int, b: int|
                    0 <= a < b < attrs@.len() && keys_unique(old(attrs)@) implies (#[trigger] attrs@[a]).0@
                    != (#[trigger] attrs@[b]).0@ by {
                    assert(attrs@[a].0@ == old(attrs)@[a].0@);
                    assert(attrs@[b].0@ == old(attrs)@[b].0@);
                }
            }
            return;
        }
        j += 1;
    }
    proof {
        assert(key_index(attrs_view(old(attrs)@), key@, n as int) == n);
    }
    let ghost value_view = value@;
    attrs.push((to_vec(key), value));
    proof {
        assert(attrs_view(attrs@) =~= set_attr_spec(attrs_view(old(attrs)@), key@, value_view));
        assert forall|a: int, b: int|
            0 <= a < b < attrs@.len() && keys_unique(old(attrs)@) implies (#[trigger] attrs@[a]).0@
            != (#[trigger] attrs@[b]).0@ by {
            if b == n {
                assert(old(attrs)@[a].0@ != key@);
            } else {
                assert(attrs@[a] == old(attrs)@[a]);
                assert(attrs@[b] == old(attrs)@[b]);
            }
        }
    }
}

/// The bytes of `s[a..b]` as an owned value.
fn owned(s: &[u8], a: usize, b: usize) -> (r: Vec<u8>)
    ensures
        r@ == s@.subrange(
            crate::bytes::clamp_lo(s@.len() as int, a as int),
            crate::bytes::clamp_hi(s@.len() as int, a as int, b as int),
        ),
{
    to_vec(slice(s, a, b))
}

/// The bytes of `id` and `class`.
pub const ID_KEY: [u8; 2] = [0x69, 0x64];
pub const CLASS_KEY: [u8; 5] = [0x63, 0x6c, 0x61, 0x73, 0x73];

/// The first index from `k` on that holds ASCII whitespace (`stop_eq` also
/// stops at `=`), or the length.
pub open spec fn token_end(s: Seq<u8>, k: int, stop_eq: bool) -> int
    decreases s.len() - k,
{
    if 0 <= k < s.len() && !is_ascii_ws_spec(s[k]) && !(stop_eq && s[k] == 0x3d) {
        token_end(s, k + 1, stop_eq)
    } else {
        k
    }
}

/// The first index from `k` on that holds `q`, or the length.
pub open spec fn quote_end(s: Seq<u8>, k: int, q: u8) -> int
    decreases s.len() - k,
{
    if 0 <= k < s.len() && s[k] != q {
        quote_end(s, k + 1, q)
    } else {
        k
    }
}

/// The attributes `a` after the tokens of `s` from `i` on are set in turn:
/// `#x` sets `id`, `.x` adds to `class`, `key=value` (the value unquoted or
/// in `"` or `'` quotes) and a bare `key` (empty value) set `key`;
/// whitespace separates tokens and a stray `=` is skipped.
pub open spec fn attrs_scan(s: Seq<u8>, i: int, a: Seq<(Seq<u8>, Seq<u8>)>) -> Seq<(Seq<u8>, Seq<u8>)>
    decreases s.len() - i,
{
    if i < 0 || i >= s.len() {
        a
    } else if is_ascii_ws_spec(s[i]) {
        attrs_scan(s, i + 1, a)
    } else if s[i] == 0x23 || s[i] == 0x2e {
        let e = token_end(s, i + 1, false);
        let key = if s[i] == 0x23 {
            ID_KEY@
        } else {
            class_key()
        };
        proof {
            lemma_token_end(s, i + 1, false);
        }
        attrs_scan(s, e, set_attr_spec(a, key, s.subrange(i + 1, e)))
    } else {
        let ke = token_end(s, i, true);
        proof {
            lemma_token_end(s, i, true);
        }
        if ke == i {
            attrs_scan(s, i + 1, a)
        } else {
            let key = s.subrange(i, ke);
            if ke < s.len() && s[ke] == 0x3d {
                let v0 = ke + 1;
                if v0 < s.len() && (s[v0] == 0x22 || s[v0] == 0x27) {
                    let ve = quote_end(s, v0 + 1, s[v0]);
                    proof {
                        lemma_quote_end(s, v0 + 1, s[v0]);
                    }
                    let next = if ve < s.len() {
                        ve + 1
                    } else {
                        ve
                    };
                    attrs_scan(s, next, set_attr_spec(a, key, s.subrange(v0 + 1, ve)))
                } else {
                    let ve = token_end(s, v0, false);
                    proof {
                        lemma_token_end(s, v0, false);
                    }
                    attrs_scan(s, ve, set_attr_spec(a, key, s.subrange(v0, ve)))
                }
            } else {
                attrs_scan(s, ke, set_attr_spec(a, key, Seq::empty()))
            }
        }
    }
}

/// `token_end` stays between its start and the length.
pub proof fn lemma_token_end(s: Seq<u8>, k: int, stop_eq: bool)
    ensures
        0 <= k <= s.len() ==> k <= token_end(s, k, stop_eq) <= s.len(),
        token_end(s, k, stop_eq) >= k,
    decreases s.len() - k,
{
    if 0 <= k < s.len() && !is_ascii_ws_spec(s[k]) && !(stop_eq && s[k] == 0x3d) {
        lemma_token_end(s, k + 1, stop_eq);
    }
}

/// `quote_end` stays between its start and the length.
pub proof fn lemma_quote_end(s: Seq<u8>, k: int, q: u8)
    ensures
        0 <= k <= s.len() ==> k <= quote_end(s, k, q) <= s.len(),
        quote_end(s, k, q) >= k,
    decreases s.len() - k,
{
    if 0 <= k < s.len() && s[k] != q {
        lemma_quote_end(s, k + 1, q);
    }
}

/// Tokenize the inside of `{…}` into attribute pairs. Every key stays
/// unique.
#[verifier::rlimit(30)]
pub fn parse_attrs(s: &[u8], attrs: &mut Vec<(Vec<u8>, Vec<u8>)>)
    ensures
        attrs_view(final(attrs)@) == attrs_scan(s@, 0, attrs_view(old(attrs)@)),
        keys_unique(old(attrs)@) ==> keys_unique(final(attrs)@),
{
    let n = s.len();
    let mut i: usize = 0;
    proof {
        assert(CLASS_KEY@ =~= class_key());
    }
    while i < n
        invariant
            i <= n == s@.len(),
            keys_unique(old(attrs)@) ==> keys_unique(attrs@),
            attrs_scan(s@, i as int, attrs_view(attrs@)) == attrs_scan(s@, 0, attrs_view(old(attrs)@)),
            CLASS_KEY@ == class_key(),
        decreases n - i,
    {
        // Skip separators.
        if is_ascii_ws(s[i]) {
            i += 1;
            continue;
        }
        let c = s[i];
        if c == 0x23 || c == 0x2e {
            let start = i + 1;
            i = start;
            while i < n && !is_ascii_ws(s[i])
                invariant
                    start <= i <= n,
                    n == s@.len(),
                    token_end(s@, i as int, false) == token_end(s@, start as int, false),
                decreases n - i,
            {
                i += 1;
            }
            let key: &[u8] = if c == 0x23 { ID_KEY.as_slice() } else { CLASS_KEY.as_slice() };
            set_attr(attrs, key, owned(s, start, i));
        } else {
            // key, key=value, or key="value"/'value'.
            let kstart = i;
            while i < n && s[i] != 0x3d && !is_ascii_ws(s[i])
                invariant
                    kstart <= i <= n,
                    n == s@.len(),
                    token_end(s@, i as int, true) == token_end(s@, kstart as int, true),
                decreases n - i,
            {
                i += 1;
            }
            if i == kstart {
                i += 1;
                continue;
            }
            let key = owned(s, kstart, i);
            if i < n && s[i] == 0x3d {
                i += 1;
                let value = if i < n && (s[i] == 0x22 || s[i] == 0x27) {
                    let q = s[i];
                    i += 1;
                    let vstart = i;
                    while i < n && s[i] != q
                        invariant
                            vstart <= i <= n,
                            n == s@.len(),
                            quote_end(s@, i as int, q) == quote_end(s@, vstart as int, q),
                        decreases n - i,
                    {
                        i += 1;
                    }
                    let v = owned(s, vstart, i);
                    if i < n {
                        i += 1;
                    }
                    v
                } else {
                    let vstart = i;
                    while i < n && !is_ascii_ws(s[i])
                        invariant
                            vstart <= i <= n,
                            n == s@.len(),
                            token_end(s@, i as int, false) == token_end(s@, vstart as int, false),
                        decreases n - i,
                    {
                        i += 1;
                    }
                    owned(s, vstart, i)
                };
                set_attr(attrs, key.as_slice(), value);
            } else {
                set_attr(attrs, key.as_slice(), Vec::new());
            }
        }
    }
}

/// The end of the run of name bytes of `s` from `k`.
pub open spec fn name_end_spec(s: Seq<u8>, k: int) -> int
    decreases s.len() - k,
{
    if 0 <= k < s.len() && is_name_byte_spec(s[k]) {
        name_end_spec(s, k + 1)
    } else {
        k
    }
}

/// The `[label]` at `i`, if one closes: its content range, and where the
/// header goes on.
pub open spec fn header_label(s: Seq<u8>, i: int) -> (Option<(int, int)>, int) {
    if 0 <= i < s.len() && s[i] == 0x5b {
        match label_scan(s, i, i, 0) {
            Some(e) => (Some((i + 1, e)), e + 1),
            None => (None, i),
        }
    } else {
        (None, i)
    }
}

/// The `{attributes}` at `i`, if the list closes: the attributes, and where
/// the header ends.
pub open spec fn header_attrs(s: Seq<u8>, i: int) -> (Seq<(Seq<u8>, Seq<u8>)>, int) {
    if 0 <= i < s.len() && s[i] == 0x7b {
        match attr_scan(s, i + 1, 0) {
            Some(e) => (attrs_scan(s.subrange(i + 1, e), 0, Seq::empty()), e + 1),
            None => (Seq::empty(), i),
        }
    } else {
        (Seq::empty(), i)
    }
}

/// Parse a directive header from `s`, which starts just after the leading
/// colon(s). `None` when there is no name.
#[verifier::rlimit(30)]
pub fn parse_header(s: &[u8]) -> (r: Option<Header>)
    ensures
        r matches Some(h) ==> ({
            let (label, after_label) = header_label(s@, h.name_end as int);
            let (attrs, after_attrs) = header_attrs(s@, after_label);
            &&& h.name_end == name_end_spec(s@, 0)
            &&& h.label == match label {
                Some((a, b)) => Some((a as usize, b as usize)),
                None => None,
            }
            &&& attrs_view(h.attrs@) == attrs
            &&& h.consumed == after_attrs
        }),
        r matches Some(h) ==> keys_unique(h.attrs@),
        r matches Some(h) ==> h.name_start == 0 && 0 < h.name_end <= h.consumed <= s@.len() && (
        forall|k: int| 0 <= k < h.name_end ==> is_name_byte_spec(#[trigger] s@[k])) && (h.label
            matches Some((a, b)) ==> h.name_end < a <= b < s@.len() && s@[a - 1] == 0x5b && s@[b as int]
            == 0x5d),
        r is None <==> (s@.len() == 0 || !is_name_byte_spec(s@[0])),
{
    let n = s.len();
    let mut i: usize = 0;
    while i < n && is_name_byte(s[i])
        invariant
            i <= n == s@.len(),
            forall|k: int| 0 <= k < i ==> is_name_byte_spec(#[trigger] s@[k]),
            name_end_spec(s@, i as int) == name_end_spec(s@, 0),
        decreases n - i,
    {
        i += 1;
    }
    if i == 0 {
        return None;
    }
    let name_end = i;
    // Optional `[label]`.
    let mut label: Option<(usize, usize)> = None;
    if i < n && s[i] == 0x5b {
        match label_end(s, i) {
            Some(end) => {
                label = Some((i + 1, end));
                i = end + 1;
            },
            None => {},
        }
    }
    // Optional `{attributes}`.
    let mut attrs: Vec<(Vec<u8>, Vec<u8>)> = Vec::new();
    if i < n && s[i] == 0x7b {
        match attr_end(s, i) {
            Some(end) => {
                let inner = slice(s, i + 1, end);
                proof {
                    assert(inner@ =~= s@.subrange(i + 1, end as int));
                    assert(attrs_view(attrs@) =~= Seq::<(Seq<u8>, Seq<u8>)>::empty());
                }
                parse_attrs(inner, &mut attrs);
                i = end + 1;
            },
            None => {},
        }
    }
    Some(Header { name_start: 0, name_end, label, attrs, consumed: i })
}

} // verus!
