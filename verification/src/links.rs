#![verifier::loop_isolation(false)]
//! Link syntax: label normalization, bracketed labels, destinations,
//! titles, inline link tails, and reference definitions.

use vstd::prelude::*;
use vstd::utf8::is_scalar;
use crate::bytes::{append, lower_spec, slice, tail, to_lower, to_vec};
use crate::chars::{char_at, decode_spec, is_unicode_ws, is_unicode_ws_spec, seq_len, seq_len_spec};
use crate::std_calls::{char_from_u32, char_lowercase, unicode_lowercase};
use crate::syntax::{run_end, skip_spaces, skip_ws, SP_TAB_CLASS, WS_CLASS};

verus! {

/// Byte `k` of a normalized label: ASCII, not uppercase, not a control
/// whitespace, and no second space in a row.
pub open spec fn normalized_byte(s: Seq<u8>, k: int) -> bool {
    &&& s[k] <= 0x7f
    &&& !(0x41 <= s[k] <= 0x5a)
    &&& !(0x09 <= s[k] <= 0x0d)
    &&& (s[k] == 0x20 && k > 0 ==> s[k - 1] != 0x20)
}

/// `s` is already a normalized label: trimmed, single-spaced, lowercase
/// ASCII.
pub open spec fn normalized_spec(s: Seq<u8>) -> bool {
    &&& (s.len() > 0 ==> s[0] != 0x20 && s.last() != 0x20)
    &&& forall|k: int| 0 <= k < s.len() ==> #[trigger] normalized_byte(s, k)
}

/// Is `s` already a normalized label (trimmed, single-spaced, lowercase
/// ASCII)?
pub fn already_normalized(s: &[u8]) -> (r: bool)
    ensures
        r == normalized_spec(s@),
{
    if s.len() > 0 && (s[0] == 0x20 || s[s.len() - 1] == 0x20) {
        return false;
    }
    let mut prev_space = false;
    let mut k: usize = 0;
    while k < s.len()
        invariant
            k <= s@.len(),
            prev_space == (k > 0 && s@[k - 1] == 0x20),
            forall|j: int| 0 <= j < k ==> #[trigger] normalized_byte(s@, j),
        decreases s.len() - k,
    {
        let b = s[k];
        if b == 0x20 {
            if prev_space {
                assert(!normalized_byte(s@, k as int));
                return false;
            }
            prev_space = true;
        } else if 0x41 <= b && b <= 0x5a {
            assert(!normalized_byte(s@, k as int));
            return false;
        } else if 0x09 <= b && b <= 0x0d {
            assert(!normalized_byte(s@, k as int));
            return false;
        } else if b <= 0x7f {
            prev_space = false;
        } else {
            assert(!normalized_byte(s@, k as int));
            return false;
        }
        k += 1;
    }
    true
}

/// The number of bytes that the character at `i` takes: its UTF-8 sequence
/// length, cut short by the end of `s`.
pub open spec fn step_at(s: Seq<u8>, i: int) -> int {
    let n = seq_len_spec(s[i]);
    if n <= s.len() - i {
        n
    } else {
        s.len() - i
    }
}

/// The code point at `i`; a sequence cut short by the end of `s` reads as
/// its leading byte.
pub open spec fn cp_at(s: Seq<u8>, i: int) -> u32 {
    let n = seq_len_spec(s[i]);
    if i + n <= s.len() {
        decode_spec(s, i, n)
    } else {
        s[i] as u32
    }
}

/// The case fold of the character at `i`: ASCII is lowercased, a scalar
/// value is lowercased by Unicode (`ß` becoming `ss`), and anything else is
/// kept as its bytes.
pub open spec fn fold_at(s: Seq<u8>, i: int) -> Seq<u8> {
    if s[i] < 0x80 {
        seq![lower_spec(s[i])]
    } else if is_scalar(cp_at(s, i)) {
        let c = cp_at(s, i) as char;
        if unicode_lowercase(c) == seq![0xC3u8, 0x9F] {
            seq![0x73u8, 0x73]
        } else {
            unicode_lowercase(c)
        }
    } else {
        s.subrange(i, i + step_at(s, i))
    }
}

/// The normalized form of `s` from `i` on, given whether a non-space
/// character has been seen (`started`) and whether whitespace has been seen
/// since the last one (`pending`): leading and trailing whitespace is
/// dropped, each inner run of it becomes one space, every other character is
/// case folded.
pub open spec fn norm_from(s: Seq<u8>, i: int, started: bool, pending: bool) -> Seq<u8>
    decreases s.len() - i,
{
    if i < 0 || i >= s.len() {
        Seq::empty()
    } else if is_unicode_ws_spec(cp_at(s, i)) {
        norm_from(s, i + step_at(s, i), started, pending || started)
    } else {
        (if pending {
            seq![0x20u8]
        } else {
            Seq::empty()
        }) + fold_at(s, i) + norm_from(s, i + step_at(s, i), true, false)
    }
}

/// The normalized form of a label.
pub open spec fn normalized_label(s: Seq<u8>) -> Seq<u8> {
    norm_from(s, 0, false, false)
}

/// Append the normalized form of `s` (trim, collapse whitespace runs to one
/// space, case-fold by lowercasing with `ß` → `ss`) to `out`.
#[verifier::rlimit(30)]
pub fn normalize_label_append(s: &[u8], out: &mut Vec<u8>)
    ensures
        final(out)@ == old(out)@ + normalized_label(s@),
{
    let len = s.len();
    let mut i: usize = 0;
    let mut started = false;
    let mut pending = false;
    while i < len
        invariant
            i <= len,
            len == s@.len(),
            out@ + norm_from(s@, i as int, started, pending) == old(out)@ + normalized_label(s@),
        decreases len - i,
    {
        let ghost prev = out@;
        let b = s[i];
        let n0 = seq_len(b);
        let n = if n0 <= len - i { n0 } else { len - i };
        let cp = match char_at(s, i) {
            Some(c) => c,
            None => b as u32,
        };
        proof {
            assert(n == step_at(s@, i as int));
            assert(cp == cp_at(s@, i as int));
        }
        if is_unicode_ws(cp) {
            if started {
                pending = true;
            }
        } else {
            if pending {
                out.push(0x20);
                pending = false;
            }
            let ghost mid = out@;
            started = true;
            if b < 0x80 {
                out.push(to_lower(b));
            } else {
                match char_from_u32(cp) {
                    Some(c) => {
                        proof {
                            vstd::utf8::char_u32_cast(c, cp);
                        }
                        let lc = char_lowercase(c);
                        if lc.len() == 2 && lc[0] == 0xC3 && lc[1] == 0x9F {
                            proof {
                                assert(lc@ =~= seq![0xC3u8, 0x9F]);
                            }
                            out.push(0x73);
                            out.push(0x73);
                        } else {
                            proof {
                                if lc@ == seq![0xC3u8, 0x9F] {
                                    assert(lc@[0] == 0xC3 && lc@[1] == 0x9F);
                                }
                            }
                            append(out, lc.as_slice());
                        }
                    },
                    None => {
                        append(out, slice(s, i, i + n));
                    },
                }
            }
            proof {
                assert(out@ =~= mid + fold_at(s@, i as int));
            }
        }
        i += n;
    }
    proof {
        assert(out@ =~= out@ + norm_from(s@, len as int, started, pending));
    }
}

/// Normalizing the rest of an already-normalized label gives it back: a
/// pending space is emitted before the next character.
proof fn lemma_norm_from_normalized(s: Seq<u8>, i: int)
    requires
        normalized_spec(s),
        0 <= i <= s.len(),
    ensures
        norm_from(s, i, i > 0, i > 0 && s[i - 1] == 0x20) == (if i > 0 && s[i - 1] == 0x20 {
            seq![0x20u8]
        } else {
            Seq::empty()
        }) + s.subrange(i, s.len() as int),
    decreases s.len() - i,
{
    if i < s.len() {
        assert(normalized_byte(s, i));
        assert(step_at(s, i) == 1);
        assert(cp_at(s, i) == s[i] as u32);
        lemma_norm_from_normalized(s, i + 1);
        if s[i] == 0x20 {
            assert(i > 0);
            assert(s[i - 1] != 0x20);
            assert(i + 1 < s.len());
            assert(s.subrange(i, s.len() as int) =~= seq![0x20u8] + s.subrange(i + 1, s.len() as int));
        } else {
            assert(fold_at(s, i) == seq![s[i]]);
            assert(s.subrange(i, s.len() as int) =~= seq![s[i]] + s.subrange(i + 1, s.len() as int));
            if i > 0 && s[i - 1] == 0x20 {
                assert((seq![0x20u8] + seq![s[i]]) + s.subrange(i + 1, s.len() as int) =~= seq![0x20u8] + s.subrange(i, s.len() as int));
            } else {
                assert(Seq::<u8>::empty() + seq![s[i]] + s.subrange(i + 1, s.len() as int) =~= s.subrange(i, s.len() as int));
            }
        }
    } else {
        if i > 0 {
            assert(s[i - 1] != 0x20);
        }
        assert(s.subrange(i, s.len() as int) =~= Seq::<u8>::empty());
    }
}

/// Normalization law: an already-normalized label is its own normal form.
pub proof fn lemma_normalized_fixed_point(s: Seq<u8>)
    requires
        normalized_spec(s),
    ensures
        normalized_label(s) == s,
{
    lemma_norm_from_normalized(s, 0);
    assert(Seq::<u8>::empty() + s.subrange(0, s.len() as int) =~= s);
}

/// Normalize a link label: trim, collapse internal whitespace, case-fold.
/// An already-normalized label comes back unchanged.
pub fn normalize_label(s: &[u8]) -> (r: Vec<u8>)
    ensures
        r@ == normalized_label(s@),
        normalized_spec(s@) ==> r@ == s@,
{
    if already_normalized(s) {
        proof {
            lemma_normalized_fixed_point(s@);
        }
        return to_vec(s);
    }
    let mut out: Vec<u8> = Vec::new();
    normalize_label_append(s, &mut out);
    proof {
        assert(out@ =~= Seq::<u8>::empty() + normalized_label(s@));
    }
    out
}

/// The byte at `p` is a backslash that escapes the byte after it.
pub open spec fn escapes_next(b: Seq<u8>, p: int) -> bool {
    b[p] == 0x5c && p + 1 < b.len()
}

/// A scan from `s` reads the byte at `m` as a byte of its own: it is not
/// the byte after an escaping backslash.
pub open spec fn scan_pos(b: Seq<u8>, s: int, m: int) -> bool
    decreases m - s,
{
    if m <= s {
        m == s
    } else {
        (scan_pos(b, s, m - 1) && !escapes_next(b, m - 1)) || (m - 2 >= s && scan_pos(b, s, m - 2)
            && escapes_next(b, m - 2))
    }
}

/// An escaping backslash hides the byte after it from the scan.
pub proof fn lemma_escaped_skipped(b: Seq<u8>, s: int, m: int)
    requires
        scan_pos(b, s, m),
        escapes_next(b, m),
    ensures
        !scan_pos(b, s, m + 1),
    decreases m - s,
{
    if m > s && m - 1 >= s && scan_pos(b, s, m - 1) && escapes_next(b, m - 1) {
        lemma_escaped_skipped(b, s, m - 1);
    }
}

/// `b[e]` is the `]` that closes the label opened by the `[` at `i`: it is
/// the first byte read by the scan that is a bracket, and it lies within a
/// thousand bytes of the `[`.
pub open spec fn label_close(b: Seq<u8>, i: int, e: int) -> bool {
    &&& i + 1 <= e < b.len()
    &&& e <= i + 1000
    &&& scan_pos(b, i + 1, e)
    &&& b[e] == 0x5d
    &&& forall|p: int| i + 1 <= p < e && #[trigger] scan_pos(b, i + 1, p) ==> b[p] != 0x5d && b[p] != 0x5b
}

/// Read a `[label]` starting at `b[i]` (`[`). Returns the label range and
/// the index past the `]`. Nested unescaped brackets are disallowed, and so
/// are labels past a thousand bytes.
pub fn read_bracket_label(b: &[u8], i: usize) -> (r: Option<(usize, usize, usize)>)
    requires
        i < b@.len(),
    ensures
        r is Some <==> exists|e: int| label_close(b@, i as int, e),
        r matches Some((s, e, n)) ==> s == i + 1 && n == e + 1 && label_close(b@, i as int, e as int),
        r matches Some((s, e, n)) ==> label_spec(b@, i as int) == Some((s as int, e as int, n as int)),
        r is None ==> label_spec(b@, i as int) is None,
{
    let len = b.len();
    let mut j = i + 1;
    while j < len
        invariant
            i + 1 <= j <= len,
            j <= i + 1000,
            len == b@.len(),
            scan_pos(b@, i + 1, j as int),
            forall|p: int| i + 1 <= p < j && #[trigger] scan_pos(b@, i + 1, p) ==> b@[p] != 0x5d && b@[p] != 0x5b,
        decreases len + 1 - j,
    {
        let c = b[j];
        if c == 0x5c && j + 1 < len {
            proof {
                lemma_escaped_skipped(b@, i + 1, j as int);
            }
            j += 2;
        } else if c == 0x5d {
            proof {
                assert(label_close(b@, i as int, j as int));
                let e2 = choose|e: int| label_close(b@, i as int, e);
                lemma_label_close_unique(b@, i as int, e2, j as int);
            }
            return Some((i + 1, j, j + 1));
        } else if c == 0x5b {
            proof {
                assert forall|e: int| !label_close(b@, i as int, e) by {
                    if label_close(b@, i as int, e) && e > j {
                        assert(scan_pos(b@, i + 1, j as int));
                    }
                }
            }
            return None;
        } else {
            j += 1;
        }
        if j - i > 1000 {
            proof {
                assert forall|e: int| !label_close(b@, i as int, e) by {
                    if label_close(b@, i as int, e) {
                        assert(scan_pos(b@, i + 1, e));
                    }
                }
            }
            return None;
        }
    }
    proof {
        assert forall|e: int| !label_close(b@, i as int, e) by {
            if label_close(b@, i as int, e) {
                assert(scan_pos(b@, i + 1, e));
            }
        }
    }
    None
}

/// `b[k]` closes the angle-bracketed destination opened at `j`: it is the
/// first `>` read by the scan, and no line ending or `<` is read before it.
pub open spec fn angle_close(b: Seq<u8>, j: int, k: int) -> bool {
    &&& j + 1 <= k < b.len()
    &&& scan_pos(b, j + 1, k)
    &&& b[k] == 0x3e
    &&& forall|p: int| j + 1 <= p < k && #[trigger] scan_pos(b, j + 1, p) ==> b[p] != 0x3e && b[p]
        != 0x0a && b[p] != 0x3c
}

/// How a byte read by the scan changes the parenthesis depth.
pub open spec fn paren_delta(c: u8) -> int {
    if c == 0x28 {
        1
    } else if c == 0x29 {
        -1
    } else {
        0
    }
}

/// The parenthesis depth of a bare destination starting at `s`, before the
/// byte at `k`: unescaped `(` minus unescaped `)`.
pub open spec fn depth_at(b: Seq<u8>, s: int, k: int) -> int
    decreases k - s,
{
    if k <= s {
        0
    } else {
        depth_at(b, s, k - 1) + (if scan_pos(b, s, k - 1) {
            paren_delta(b[k - 1])
        } else {
            0
        })
    }
}

/// A bare destination stops at a space or control byte, or at a `)` that
/// is not matched inside it.
pub open spec fn bare_stop(b: Seq<u8>, p: int, depth: int) -> bool {
    b[p] <= 0x20 || (b[p] == 0x29 && depth == 0)
}

/// `k` is where the bare destination starting at `j` ends: the first byte
/// read by the scan at which it stops, or the end of `b`.
pub open spec fn bare_end(b: Seq<u8>, j: int, k: int) -> bool {
    &&& j <= k <= b.len()
    &&& scan_pos(b, j, k)
    &&& (k == b.len() || bare_stop(b, k, depth_at(b, j, k)))
    &&& forall|p: int| j <= p < k && #[trigger] scan_pos(b, j, p) ==> !bare_stop(b, p, depth_at(b, j, p))
}

/// Parse a link destination at `b[j]`. Returns `(start, end, next, angle)`:
/// the destination's range, the index after it, and whether it was
/// angle-bracketed. Empty bare destinations are allowed; a bare one must
/// have balanced parentheses.
#[verifier::rlimit(30)]
pub fn parse_dest(b: &[u8], j: usize) -> (r: Option<(usize, usize, usize, bool)>)
    requires
        j <= b@.len(),
    ensures
        j < b@.len() && b@[j as int] == 0x3c ==> (r is Some <==> exists|k: int| angle_close(b@, j as int, k))
            && (r matches Some((s, e, n, a)) ==> s == j + 1 && n == e + 1 && a && angle_close(b@, j as int, e as int)),
        !(j < b@.len() && b@[j as int] == 0x3c) ==> (r is Some <==> exists|k: int| #[trigger] bare_end(b@, j as int, k)
            && depth_at(b@, j as int, k) == 0) && (r matches Some((s, e, n, a)) ==> s == j && e == n && !a
            && bare_end(b@, j as int, e as int) && depth_at(b@, j as int, e as int) == 0),
        r matches Some((s, e, n, a)) ==> j <= s <= e <= n <= b@.len(),
        r matches Some((s, e, n, a)) ==> dest_spec(b@, j as int) == Some((s as int, e as int, n as int, a)),
        r is None ==> dest_spec(b@, j as int) is None,
{
    let len = b.len();
    if j < len && b[j] == 0x3c {
        let s = j + 1;
        let mut k = s;
        loop
            invariant
                s <= k <= len,
                s == j + 1,
                len == b@.len(),
                scan_pos(b@, s as int, k as int),
                forall|p: int| s <= p < k && #[trigger] scan_pos(b@, s as int, p) ==> b@[p] != 0x3e && b@[p]
                    != 0x0a && b@[p] != 0x3c,
            decreases len - k,
        {
            if k >= len {
                proof {
                    assert forall|e: int| !angle_close(b@, j as int, e) by {
                        if angle_close(b@, j as int, e) {
                            assert(scan_pos(b@, s as int, e));
                        }
                    }
                }
                return None;
            }
            let c = b[k];
            if c == 0x0a || c == 0x3c {
                proof {
                    assert forall|e: int| !angle_close(b@, j as int, e) by {
                        if angle_close(b@, j as int, e) && e > k {
                            assert(scan_pos(b@, s as int, k as int));
                        }
                    }
                }
                return None;
            } else if c == 0x5c && k + 1 < len {
                proof {
                    lemma_escaped_skipped(b@, s as int, k as int);
                }
                k += 2;
            } else if c == 0x3e {
                proof {
                    assert(angle_close(b@, j as int, k as int));
                    let k2 = choose|k2: int| angle_close(b@, j as int, k2);
                    lemma_angle_close_unique(b@, j as int, k2, k as int);
                }
                return Some((s, k, k + 1, true));
            } else {
                k += 1;
            }
        }
    } else {
        let s = j;
        let mut k = j;
        let mut depth: usize = 0;
        while k < len
            invariant
                s <= k <= len,
                s == j,
                len == b@.len(),
                scan_pos(b@, s as int, k as int),
                depth == depth_at(b@, s as int, k as int),
                depth <= k - s,
                forall|p: int| s <= p < k && #[trigger] scan_pos(b@, s as int, p) ==> !bare_stop(b@, p, depth_at(b@, s as int, p)),
            decreases len - k,
        {
            let c = b[k];
            proof {
                assert(depth_at(b@, s as int, k + 1) == depth_at(b@, s as int, k as int) + paren_delta(c));
            }
            if c == 0x5c && k + 1 < len {
                proof {
                    lemma_escaped_skipped(b@, s as int, k as int);
                    assert(depth_at(b@, s as int, k + 2) == depth_at(b@, s as int, k + 1));
                }
                k += 2;
            } else if c == 0x28 {
                if depth == usize::MAX {
                    return None;
                }
                depth += 1;
                k += 1;
            } else if c == 0x29 {
                if depth == 0 {
                    break;
                }
                depth -= 1;
                k += 1;
            } else if c == 0x20 || c == 0x09 || c == 0x0a || c < 0x20 {
                break;
            } else {
                k += 1;
            }
        }
        proof {
            assert(bare_end(b@, j as int, k as int));
            assert forall|k2: int| #[trigger] bare_end(b@, j as int, k2) implies k2 == k by {
                if k2 < k {
                    assert(scan_pos(b@, s as int, k2));
                } else if k2 > k {
                    assert(scan_pos(b@, s as int, k as int));
                }
            }
        }
        if depth != 0 {
            return None;
        }
        proof {
            let k2 = choose|k2: int| #[trigger] bare_end(b@, j as int, k2) && depth_at(b@, j as int, k2) == 0;
            lemma_bare_end_unique(b@, j as int, k2, k as int);
        }
        Some((s, k, k, false))
    }
}

/// The byte that closes a title opened by `q`.
pub open spec fn title_closer(q: u8) -> u8 {
    if q == 0x28 {
        0x29
    } else {
        q
    }
}

/// `b[k]` closes the title opened at `j` by `q`: it is the first byte read
/// by the scan that is the closer, and no `(` is read before it in a title
/// opened by `(`.
pub open spec fn title_close(b: Seq<u8>, j: int, q: u8, k: int) -> bool {
    &&& j + 1 <= k < b.len()
    &&& scan_pos(b, j + 1, k)
    &&& b[k] == title_closer(q)
    &&& forall|p: int| j + 1 <= p < k && #[trigger] scan_pos(b, j + 1, p) ==> b[p] != title_closer(q)
        && !(q == 0x28 && b[p] == 0x28)
}

/// A byte that opens a title: `"`, `'` or `(`.
pub open spec fn title_opener(q: u8) -> bool {
    q == 0x22 || q == 0x27 || q == 0x28
}

/// Parse a link title at `b[j]` (`"`, `'`, or `(`). Returns the title's
/// range and the index past the closing delimiter.
pub fn parse_title(b: &[u8], j: usize) -> (r: Option<(usize, usize, usize)>)
    ensures
        r is Some <==> j < b@.len() && title_opener(b@[j as int]) && exists|k: int| title_close(b@, j as int, b@[j as int], k),
        r matches Some((s, e, n)) ==> s == j + 1 && n == e + 1 && title_close(b@, j as int, b@[j as int], e as int),
        r matches Some((s, e, n)) ==> title_spec(b@, j as int) == Some((s as int, e as int, n as int)),
        r is None ==> title_spec(b@, j as int) is None,
{
    let len = b.len();
    if j >= len {
        return None;
    }
    let q = b[j];
    if q != 0x22 && q != 0x27 && q != 0x28 {
        return None;
    }
    let close = if q == 0x28 { 0x29 } else { q };
    let s = j + 1;
    let mut k = s;
    loop
        invariant
            s <= k <= len,
            s == j + 1,
            len == b@.len(),
            q == b@[j as int],
            close == title_closer(q),
            scan_pos(b@, s as int, k as int),
            forall|p: int| s <= p < k && #[trigger] scan_pos(b@, s as int, p) ==> b@[p] != close && !(q == 0x28 && b@[p] == 0x28),
        decreases len - k,
    {
        if k >= len {
            proof {
                assert forall|e: int| !title_close(b@, j as int, q, e) by {
                    if title_close(b@, j as int, q, e) {
                        assert(scan_pos(b@, s as int, e));
                    }
                }
            }
            return None;
        }
        let c = b[k];
        if c == 0x5c && k + 1 < len {
            proof {
                lemma_escaped_skipped(b@, s as int, k as int);
            }
            k += 2;
        } else if c == 0x28 && q == 0x28 {
            proof {
                assert forall|e: int| !title_close(b@, j as int, q, e) by {
                    if title_close(b@, j as int, q, e) && e > k {
                        assert(scan_pos(b@, s as int, k as int));
                    }
                }
            }
            return None;
        } else if c == close {
            proof {
                assert(title_close(b@, j as int, q, k as int));
                let k2 = choose|k2: int| title_close(b@, j as int, b@[j as int], k2);
                lemma_title_close_unique(b@, j as int, q, k2, k as int);
            }
            return Some((s, k, k + 1));
        } else {
            k += 1;
        }
    }
}

/// Parse an inline link tail `(dest "title")` starting at `b[i]` (`(`).
/// Returns the destination range, the optional title range, and the index
/// past the `)`.
pub fn parse_inline_paren(b: &[u8], i: usize) -> (r: Option<((usize, usize), Option<(usize, usize)>, usize)>)
    requires
        i < b@.len(),
    ensures
        r matches Some((d, t, n)) ==> i < n <= b@.len() && d.0 <= d.1 <= b@.len() && (t matches Some(tt) ==> tt.0 <= tt.1 <= b@.len()),
        r matches Some((d, t, n)) ==> inline_paren_spec(b@, i as int) == Some(
            (
                (d.0 as int, d.1 as int),
                match t {
                    Some(tt) => Some((tt.0 as int, tt.1 as int)),
                    None => None,
                },
                n as int,
            ),
        ),
        r is None ==> inline_paren_spec(b@, i as int) is None,
{
    let len = b.len();
    let mut j = skip_ws(b, i + 1);
    let (ds, de, dj) = match parse_dest(b, j) {
        Some((s, e, n, _)) => (s, e, n),
        None => return None,
    };
    let before = dj;
    j = skip_ws(b, dj);
    let mut title: Option<(usize, usize)> = None;
    if j > before {
        match parse_title(b, j) {
            Some((ts, te, tj)) => {
                j = tj;
                title = Some((ts, te));
            },
            None => {
                j = before;
            },
        }
    } else {
        j = before;
    }
    j = skip_ws(b, j);
    if !(j < len && b[j] == 0x29) {
        return None;
    }
    Some(((ds, de), title, j + 1))
}

/// `b[j..k]` holds only spaces and tabs.
pub open spec fn blank_run(b: Seq<u8>, j: int, k: int) -> bool {
    &&& 0 <= j <= k <= b.len()
    &&& forall|m: int| j <= m < k ==> #[trigger] b[m] == 0x20 || b[m] == 0x09
}

/// A space or a tab.
pub open spec fn sp_tab(c: u8) -> bool {
    c == 0x20 || c == 0x09
}

/// Skip spaces/tabs and at most one line ending (then more spaces/tabs).
pub fn ref_spnl(b: &[u8], j: usize) -> (r: usize)
    ensures
        r >= j,
        j <= b@.len() ==> r <= b@.len(),
        j > b@.len() ==> r == j,
        j <= b@.len() ==> (blank_run(b@, j as int, r as int) || exists|k: int|
            j <= k < r && b@[k] == 0x0a && blank_run(b@, j as int, k) && blank_run(b@, k + 1, r as int)),
        r < b@.len() ==> !sp_tab(b@[r as int]),
        r < b@.len() && b@[r as int] == 0x0a ==> exists|k: int| j <= k < r && b@[k] == 0x0a,
        r == spnl_spec(b@, j as int),
{
    let k = skip_spaces(b, j);
    if k < b.len() && b[k] == 0x0a {
        let r = skip_spaces(b, k + 1);
        proof {
            assert(blank_run(b@, j as int, k as int));
            assert(blank_run(b@, k + 1, r as int));
        }
        r
    } else {
        proof {
            if j <= b@.len() {
                assert(blank_run(b@, j as int, k as int));
            }
        }
        k
    }
}

/// If the rest of the line at `j` is blank, the index past its newline.
pub fn ref_line_end(b: &[u8], j: usize) -> (r: Option<usize>)
    ensures
        r is Some <==> exists|k: int| #[trigger] blank_run(b@, j as int, k) && (k == b@.len() || b@[k] == 0x0a),
        r matches Some(e) ==> (e == b@.len() && blank_run(b@, j as int, e as int)) || (0 < e
            <= b@.len() && b@[e - 1] == 0x0a && blank_run(b@, j as int, e - 1)),
        r matches Some(e) ==> line_end_spec(b@, j as int) == Some(e as int),
        r is None ==> line_end_spec(b@, j as int) is None,
{
    let k = skip_spaces(b, j);
    proof {
        assert forall|k2: int| blank_run(b@, j as int, k2) && (k2 == b@.len() || b@[k2] == 0x0a)
            implies k2 == k by {
            if k2 < k {
                assert(b@[k2] == 0x20 || b@[k2] == 0x09);
            } else if k2 > k {
                assert(b@[k as int] == 0x20 || b@[k as int] == 0x09);
            }
        }
    }
    if k >= b.len() {
        if j <= b.len() {
            let ghost w = k as int;
            assert(blank_run(b@, j as int, w) && (w == b@.len() || b@[w] == 0x0a));
            assert(exists|k2: int| #[trigger] blank_run(b@, j as int, k2) && (k2 == b@.len() || b@[k2] == 0x0a));
            Some(k)
        } else {
            assert forall|k2: int| !(blank_run(b@, j as int, k2) && (k2 == b@.len() || b@[k2] == 0x0a)) by {}
            None
        }
    } else if b[k] == 0x0a {
        let ghost w = k as int;
        assert(blank_run(b@, j as int, w) && (w == b@.len() || b@[w] == 0x0a));
        assert(exists|k2: int| #[trigger] blank_run(b@, j as int, k2) && (k2 == b@.len() || b@[k2] == 0x0a));
        Some(k + 1)
    } else {
        assert forall|k2: int| !(blank_run(b@, j as int, k2) && (k2 == b@.len() || b@[k2] == 0x0a)) by {
            if blank_run(b@, j as int, k2) && (k2 == b@.len() || b@[k2] == 0x0a) {
                assert(k2 == k);
            }
        }
        None
    }
}

/// The label that the `[` at `i` opens: its range and the index past `]`.
pub open spec fn label_spec(b: Seq<u8>, i: int) -> Option<(int, int, int)> {
    if exists|e: int| label_close(b, i, e) {
        let e = choose|e: int| label_close(b, i, e);
        Some((i + 1, e, e + 1))
    } else {
        None
    }
}

/// The title that the byte at `j` opens: its range and the index past the
/// closing delimiter.
pub open spec fn title_spec(b: Seq<u8>, j: int) -> Option<(int, int, int)> {
    if 0 <= j < b.len() && title_opener(b[j]) && exists|k: int| title_close(b, j, b[j], k) {
        let k = choose|k: int| title_close(b, j, b[j], k);
        Some((j + 1, k, k + 1))
    } else {
        None
    }
}

/// The link destination at `j`: its range, the index after it, and whether
/// it is angle-bracketed.
pub open spec fn dest_spec(b: Seq<u8>, j: int) -> Option<(int, int, int, bool)> {
    if 0 <= j < b.len() && b[j] == 0x3c {
        if exists|k: int| angle_close(b, j, k) {
            let k = choose|k: int| angle_close(b, j, k);
            Some((j + 1, k, k + 1, true))
        } else {
            None
        }
    } else if exists|k: int| #[trigger] bare_end(b, j, k) && depth_at(b, j, k) == 0 {
        let k = choose|k: int| #[trigger] bare_end(b, j, k) && depth_at(b, j, k) == 0;
        Some((j, k, k, false))
    } else {
        None
    }
}

/// Skip spaces and tabs, at most one newline, then spaces and tabs.
pub open spec fn spnl_spec(b: Seq<u8>, j: int) -> int {
    let k = run_end(b, j, SP_TAB_CLASS);
    if k < b.len() && b[k] == 0x0a {
        run_end(b, k + 1, SP_TAB_CLASS)
    } else {
        k
    }
}

/// If the rest of the line at `j` is blank, the index past its newline (or
/// the end of `b`).
pub open spec fn line_end_spec(b: Seq<u8>, j: int) -> Option<int> {
    let k = run_end(b, j, SP_TAB_CLASS);
    if k >= b.len() {
        if j <= b.len() {
            Some(k)
        } else {
            None
        }
    } else if b[k] == 0x0a {
        Some(k + 1)
    } else {
        None
    }
}

/// The inline link tail `(dest "title")` whose `(` is at `i`: the
/// destination range, the title range, and the index past `)`.
pub open spec fn inline_paren_spec(b: Seq<u8>, i: int) -> Option<((int, int), Option<(int, int)>, int)> {
    match dest_spec(b, run_end(b, i + 1, WS_CLASS)) {
        Some((ds, de, dj, angle)) => {
            let j2 = run_end(b, dj, WS_CLASS);
            let (title, j) = if j2 > dj {
                match title_spec(b, j2) {
                    Some((ts, te, tj)) => (Some((ts, te)), tj),
                    None => (None, dj),
                }
            } else {
                (None, dj)
            };
            let j3 = run_end(b, j, WS_CLASS);
            if j3 < b.len() && b[j3] == 0x29 {
                Some(((ds, de), title, j3 + 1))
            } else {
                None
            }
        },
        None => None,
    }
}

/// Up to three spaces from `start`.
pub open spec fn indent3_end(b: Seq<u8>, start: int) -> int {
    if start < b.len() && b[start] == 0x20 {
        if start + 1 < b.len() && b[start + 1] == 0x20 {
            if start + 2 < b.len() && b[start + 2] == 0x20 {
                start + 3
            } else {
                start + 2
            }
        } else {
            start + 1
        }
    } else {
        start
    }
}

/// The reference definition `[label]: dest "title"` that starts at
/// `start`: up to three spaces, a label whose normal form is not empty, a
/// colon, a destination (empty only in angle brackets) after optional
/// whitespace with at most one newline, an optional title after such
/// whitespace, and nothing but spaces and tabs to the end of the line. A
/// title followed by other text is dropped if the line ended after the
/// destination.
pub open spec fn ref_def_spec(b: Seq<u8>, start: int) -> Option<RefDefSpan> {
    let j = indent3_end(b, start);
    if !(j < b.len() && b[j] == 0x5b) {
        None
    } else {
        match label_spec(b, j) {
            None => None,
            Some((ls, le, after)) => {
                if !(after < b.len() && b[after] == 0x3a) || normalized_label(b.subrange(ls, le)).len() == 0 {
                    None
                } else {
                    match dest_spec(b, spnl_spec(b, after + 1)) {
                        None => None,
                        Some((ds, de, dj, angle)) => {
                            if de == ds && !angle {
                                None
                            } else {
                                let jt = spnl_spec(b, dj);
                                let (title, after_title) = if jt > dj {
                                    match title_spec(b, jt) {
                                        Some((ts, te, tj)) => (Some((ts as usize, te as usize)), tj),
                                        None => (None, dj),
                                    }
                                } else {
                                    (None, dj)
                                };
                                match line_end_spec(b, after_title) {
                                    Some(end) => Some(
                                        RefDefSpan {
                                            end: end as usize,
                                            label: (ls as usize, le as usize),
                                            dest: (ds as usize, de as usize),
                                            title,
                                            bracket: j as usize,
                                            content_end: after_title as usize,
                                        },
                                    ),
                                    None => if title is Some {
                                        match line_end_spec(b, dj) {
                                            Some(end) => Some(
                                                RefDefSpan {
                                                    end: end as usize,
                                                    label: (ls as usize, le as usize),
                                                    dest: (ds as usize, de as usize),
                                                    title: None,
                                                    bracket: j as usize,
                                                    content_end: dj as usize,
                                                },
                                            ),
                                            None => None,
                                        }
                                    } else {
                                        None
                                    },
                                }
                            }
                        },
                    }
                }
            },
        }
    }
}

/// Two closing brackets of one label are the same.
proof fn lemma_label_close_unique(b: Seq<u8>, i: int, e1: int, e2: int)
    requires
        label_close(b, i, e1),
        label_close(b, i, e2),
    ensures
        e1 == e2,
{
    if e1 < e2 {
        assert(scan_pos(b, i + 1, e1));
    } else if e2 < e1 {
        assert(scan_pos(b, i + 1, e2));
    }
}

/// Two closing delimiters of one title are the same.
proof fn lemma_title_close_unique(b: Seq<u8>, j: int, q: u8, k1: int, k2: int)
    requires
        title_close(b, j, q, k1),
        title_close(b, j, q, k2),
    ensures
        k1 == k2,
{
    if k1 < k2 {
        assert(scan_pos(b, j + 1, k1));
    } else if k2 < k1 {
        assert(scan_pos(b, j + 1, k2));
    }
}

/// Two closing `>` of one destination are the same.
proof fn lemma_angle_close_unique(b: Seq<u8>, j: int, k1: int, k2: int)
    requires
        angle_close(b, j, k1),
        angle_close(b, j, k2),
    ensures
        k1 == k2,
{
    if k1 < k2 {
        assert(scan_pos(b, j + 1, k1));
    } else if k2 < k1 {
        assert(scan_pos(b, j + 1, k2));
    }
}

/// Two ends of one bare destination are the same.
proof fn lemma_bare_end_unique(b: Seq<u8>, j: int, k1: int, k2: int)
    requires
        bare_end(b, j, k1),
        bare_end(b, j, k2),
    ensures
        k1 == k2,
{
    if k1 < k2 {
        assert(scan_pos(b, j, k1));
    } else if k2 < k1 {
        assert(scan_pos(b, j, k2));
    }
}

/// A parsed link reference definition: the end of its text, its label,
/// destination and optional title ranges, and (for source positions) the
/// `[` and the end of its last significant byte.
pub struct RefDefSpan {
    pub end: usize,
    pub label: (usize, usize),
    pub dest: (usize, usize),
    pub title: Option<(usize, usize)>,
    pub bracket: usize,
    pub content_end: usize,
}

/// Parse one link reference definition starting at `b[start]`.
#[verifier::rlimit(30)]
pub fn parse_ref_def(b: &[u8], start: usize) -> (r: Option<RefDefSpan>)
    requires
        start <= b@.len(),
    ensures
        r matches Some(d) ==> start < d.end <= b@.len() && d.label.0 <= d.label.1 <= b@.len()
            && d.dest.0 <= d.dest.1 <= b@.len() && (d.title matches Some(t) ==> t.0 <= t.1
            <= b@.len()),
        r == ref_def_spec(b@, start as int),
{
    let len = b.len();
    let mut j = start;
    if j < len && b[j] == 0x20 {
        j += 1;
        if j < len && b[j] == 0x20 {
            j += 1;
            if j < len && b[j] == 0x20 {
                j += 1;
            }
        }
    }
    if !(j < len && b[j] == 0x5b) {
        return None;
    }
    let bracket = j;
    let (ls, le, after) = match read_bracket_label(b, j) {
        Some(x) => x,
        None => return None,
    };
    if !(after < len && b[after] == 0x3a) {
        return None;
    }
    if normalize_label(slice(b, ls, le)).len() == 0 {
        return None;
    }
    j = ref_spnl(b, after + 1);
    let (ds, de, dj, angle) = match parse_dest(b, j) {
        Some(x) => x,
        None => return None,
    };
    if de == ds && !angle {
        return None;
    }
    let jt = ref_spnl(b, dj);
    let mut title: Option<(usize, usize)> = None;
    let mut after_title = dj;
    if jt > dj {
        match parse_title(b, jt) {
            Some((ts, te, tj)) => {
                title = Some((ts, te));
                after_title = tj;
            },
            None => {},
        }
    }
    match ref_line_end(b, after_title) {
        Some(end) => {
            return Some(
                RefDefSpan {
                    end,
                    label: (ls, le),
                    dest: (ds, de),
                    title,
                    bracket,
                    content_end: after_title,
                },
            );
        },
        None => {},
    }
    // A trailing-junk title invalidates only the title, not the whole def.
    if title.is_some() {
        match ref_line_end(b, dj) {
            Some(end) => {
                return Some(
                    RefDefSpan {
                        end,
                        label: (ls, le),
                        dest: (ds, de),
                        title: None,
                        bracket,
                        content_end: dj,
                    },
                );
            },
            None => {},
        }
    }
    None
}

/// A reference definition as raw byte strings: label, destination, title.
pub type RawDef = (Vec<u8>, Vec<u8>, Option<Vec<u8>>);

/// The reference definitions that follow one another from `pos` on, as far
/// as they go.
pub open spec fn ref_defs_from(text: Seq<u8>, pos: int) -> Seq<RefDefSpan>
    decreases text.len() - pos,
{
    match ref_def_spec(text, pos) {
        Some(d) => if pos < d.end <= text.len() {
            seq![d] + ref_defs_from(text, d.end as int)
        } else {
            Seq::empty()
        },
        None => Seq::empty(),
    }
}

/// Where the run of reference definitions from `pos` on ends.
pub open spec fn ref_defs_end(text: Seq<u8>, pos: int) -> int
    decreases text.len() - pos,
{
    match ref_def_spec(text, pos) {
        Some(d) => if pos < d.end <= text.len() {
            ref_defs_end(text, d.end as int)
        } else {
            pos
        },
        None => pos,
    }
}

/// `raw` holds the label, destination and title text of `d`.
pub open spec fn raw_def_of(text: Seq<u8>, d: RefDefSpan, raw: RawDef) -> bool {
    &&& raw.0@ == text.subrange(d.label.0 as int, d.label.1 as int)
    &&& raw.1@ == text.subrange(d.dest.0 as int, d.dest.1 as int)
    &&& match d.title {
        Some(t) => raw.2 matches Some(v) && v@ == text.subrange(t.0 as int, t.1 as int),
        None => raw.2 is None,
    }
}

/// Extract leading link reference definitions from a paragraph's text.
/// Returns the offset where the remaining paragraph begins and the
/// definitions as `(raw label, raw destination, raw title)`.
#[verifier::rlimit(30)]
pub fn take_ref_defs(text: &[u8]) -> (r: (usize, Vec<RawDef>))
    ensures
        r.0 <= text@.len(),
        r.0 == ref_defs_end(text@, 0),
        r.1@.len() == ref_defs_from(text@, 0).len(),
        forall|k: int| 0 <= k < r.1@.len() ==> raw_def_of(text@, #[trigger] ref_defs_from(text@, 0)[k], r.1@[k]),
{
    let mut pos: usize = 0;
    let mut defs: Vec<RawDef> = Vec::new();
    loop
        invariant
            pos <= text@.len(),
            ref_defs_end(text@, pos as int) == ref_defs_end(text@, 0),
            defs@.len() + ref_defs_from(text@, pos as int).len() == ref_defs_from(text@, 0).len(),
            forall|k: int| 0 <= k < defs@.len() ==> raw_def_of(text@, #[trigger] ref_defs_from(text@, 0)[k], defs@[k]),
            forall|k: int| 0 <= k < ref_defs_from(text@, pos as int).len() ==> #[trigger] ref_defs_from(text@, pos as int)[k]
                == ref_defs_from(text@, 0)[defs@.len() + k],
        decreases text@.len() - pos,
    {
        match parse_ref_def(text, pos) {
            Some(d) => {
                let title = match d.title {
                    Some((s, e)) => Some(to_vec(slice(text, s, e))),
                    None => None,
                };
                let raw = (to_vec(slice(text, d.label.0, d.label.1)), to_vec(slice(text, d.dest.0, d.dest.1)), title);
                proof {
                    let rest = ref_defs_from(text@, d.end as int);
                    assert(ref_defs_from(text@, pos as int) == seq![d] + rest);
                    assert(ref_defs_from(text@, pos as int)[0] == d);
                    assert(raw_def_of(text@, d, raw));
                    assert forall|k: int| 0 <= k < rest.len() implies #[trigger] rest[k] == ref_defs_from(text@, 0)[defs@.len() + 1 + k] by {
                        assert(rest[k] == ref_defs_from(text@, pos as int)[k + 1]);
                    }
                }
                defs.push(raw);
                pos = d.end;
            },
            None => break,
        }
    }
    (pos, defs)
}

/// The byte span `(start, end)` of each leading reference definition: start
/// at its `[`, end after its last significant byte.
pub fn take_ref_def_spans(text: &[u8]) -> (r: Vec<(usize, usize)>)
    ensures
        r@.len() == ref_defs_from(text@, 0).len(),
        forall|k: int| 0 <= k < r@.len() ==> #[trigger] r@[k] == (ref_defs_from(text@, 0)[k].bracket, ref_defs_from(
            text@,
            0,
        )[k].content_end),
{
    let mut pos: usize = 0;
    let mut spans: Vec<(usize, usize)> = Vec::new();
    loop
        invariant
            pos <= text@.len(),
            spans@.len() + ref_defs_from(text@, pos as int).len() == ref_defs_from(text@, 0).len(),
            forall|k: int| 0 <= k < spans@.len() ==> #[trigger] spans@[k] == (ref_defs_from(text@, 0)[k].bracket, ref_defs_from(
                text@,
                0,
            )[k].content_end),
            forall|k: int| 0 <= k < ref_defs_from(text@, pos as int).len() ==> #[trigger] ref_defs_from(text@, pos as int)[k]
                == ref_defs_from(text@, 0)[spans@.len() + k],
        decreases text@.len() - pos,
    {
        match parse_ref_def(text, pos) {
            Some(d) => {
                proof {
                    let rest = ref_defs_from(text@, d.end as int);
                    assert(ref_defs_from(text@, pos as int) == seq![d] + rest);
                    assert(ref_defs_from(text@, pos as int)[0] == d);
                    assert forall|k: int| 0 <= k < rest.len() implies #[trigger] rest[k] == ref_defs_from(text@, 0)[spans@.len() + 1 + k] by {
                        assert(rest[k] == ref_defs_from(text@, pos as int)[k + 1]);
                    }
                }
                spans.push((d.bracket, d.content_end));
                pos = d.end;
            },
            None => break,
        }
    }
    spans
}


/// A reference definition as plain values: label, destination, title.
pub type DefView = (Seq<u8>, Seq<u8>, Option<Seq<u8>>);

/// The definitions that lead `text`, as plain values.
pub open spec fn def_views(text: Seq<u8>) -> Seq<DefView> {
    ref_defs_from(text, 0).map_values(
        |d: RefDefSpan|
            (
                text.subrange(d.label.0 as int, d.label.1 as int),
                text.subrange(d.dest.0 as int, d.dest.1 as int),
                match d.title {
                    Some(t) => Some(text.subrange(t.0 as int, t.1 as int)),
                    None => None,
                },
            ),
    )
}

/// Raw definitions as plain values.
pub open spec fn raw_views(defs: Seq<RawDef>) -> Seq<DefView> {
    defs.map_values(|d: RawDef| (d.0@, d.1@, crate::refmap::opt_view(d.2)))
}

/// The destination and title of the first of `defs[..n]` whose label
/// normalizes to `key`.
pub open spec fn first_def(defs: Seq<DefView>, key: Seq<u8>, n: int) -> Option<(Seq<u8>, Option<Seq<u8>>)>
    decreases n,
{
    if n <= 0 {
        None
    } else {
        match first_def(defs, key, n - 1) {
            Some(v) => Some(v),
            None => if normalized_label(defs[n - 1].0) == key {
                Some((defs[n - 1].1, defs[n - 1].2))
            } else {
                None
            },
        }
    }
}

/// The raw definitions `take_ref_defs` gives are those of `text`.
pub proof fn lemma_take_ref_defs_views(text: Seq<u8>, defs: Seq<RawDef>)
    requires
        defs.len() == ref_defs_from(text, 0).len(),
        forall|k: int| 0 <= k < defs.len() ==> raw_def_of(text, #[trigger] ref_defs_from(text, 0)[k], defs[k]),
    ensures
        raw_views(defs) == def_views(text),
{
    assert forall|k: int| 0 <= k < defs.len() implies #[trigger] raw_views(defs)[k] == def_views(text)[k] by {
        let d = ref_defs_from(text, 0)[k];
        assert(raw_def_of(text, d, defs[k]));
        match d.title {
            Some(t) => {},
            None => {},
        }
    }
    assert(raw_views(defs) =~= def_views(text));
}

} // verus!
