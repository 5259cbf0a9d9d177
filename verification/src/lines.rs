#![verifier::loop_isolation(false)]
//! Line classifiers for the block parser: thematic breaks, ATX and setext
//! headings, code fences, frontmatter fences, table rows, and the trailing
//! normalizations of indented code and HTML blocks. Each works on the bytes
//! of one line (or one block's text) and has an exact specification.

use vstd::prelude::*;
use vstd::string::StringSliceAdditionalSpecFns;
use crate::links::{lemma_escaped_skipped, scan_pos};
use crate::bytes::{is_alpha_spec, nocase_at, slice, tail, trim, trim_bounds, trim_end, DASH, SP_TAB};

verus! {

/// Number of occurrences of `c` in `s`.
pub open spec fn count_byte(s: Seq<u8>, c: u8) -> nat
    decreases s.len(),
{
    if s.len() == 0 {
        0
    } else {
        count_byte(s.drop_last(), c) + if s.last() == c { 1nat } else { 0nat }
    }
}

pub open spec fn is_sp_tab(b: u8) -> bool {
    b == 0x20 || b == 0x09
}

/// `b` is one of the thematic-break markers `-`, `_`, `*`.
pub open spec fn is_break_marker(b: u8) -> bool {
    b == 0x2d || b == 0x5f || b == 0x2a
}

/// `s` holds no newline (a line as the block parser splits them).
pub open spec fn one_line(s: Seq<u8>) -> bool {
    forall|k: int| 0 <= k < s.len() ==> s[k] != 0x0a
}

/// A thematic break: spaces, tabs and at least three copies of one marker
/// (`-`, `_` or `*`), and nothing else.
pub open spec fn thematic_break_spec(s: Seq<u8>) -> bool {
    exists|m: u8|
        is_break_marker(m) && count_byte(s, m) >= 3 && forall|k: int|
            0 <= k < s.len() ==> is_sp_tab(#[trigger] s[k]) || s[k] == m
}

proof fn lemma_count_push(s: Seq<u8>, i: int, c: u8)
    requires
        0 <= i < s.len(),
    ensures
        count_byte(s.subrange(0, i + 1), c) == count_byte(s.subrange(0, i), c) + if s[i] == c {
            1nat
        } else {
            0nat
        },
{
    assert(s.subrange(0, i + 1).drop_last() =~= s.subrange(0, i));
}

proof fn lemma_count_none(s: Seq<u8>, c: u8)
    requires
        forall|k: int| 0 <= k < s.len() ==> s[k] != c,
    ensures
        count_byte(s, c) == 0,
    decreases s.len(),
{
    if s.len() > 0 {
        lemma_count_none(s.drop_last(), c);
    }
}

/// Is `rest` (a line from its first non-space byte) a thematic break? A
/// newline ends the line.
#[verifier::rlimit(30)]
pub fn is_thematic_break(rest: &[u8]) -> (r: bool)
    ensures
        r == thematic_break_spec(crate::bytes::line_prefix(rest@)),
        one_line(rest@) ==> r == thematic_break_spec(rest@),
{
    let n = rest.len();
    let mut ch: u8 = 0;
    let mut count: usize = 0;
    let mut i: usize = 0;
    let ghost mut first: int = 0;
    while i < n
        invariant
            i <= n == rest@.len(),
            ch == 0 ==> forall|k: int| 0 <= k < i ==> is_sp_tab(#[trigger] rest@[k]),
            ch != 0 ==> is_break_marker(ch) && forall|k: int|
                0 <= k < i ==> is_sp_tab(#[trigger] rest@[k]) || rest@[k] == ch,
            ch != 0 ==> 0 <= first < i && rest@[first] == ch,
            ch != 0 ==> count == count_byte(rest@.subrange(0, i as int), ch),
            ch == 0 ==> count == 0,
            count <= i,
        decreases n - i,
    {
        let b = rest[i];
        if b == 0x0a {
            break;
        }
        proof {
            if ch != 0 {
                lemma_count_push(rest@, i as int, ch);
            }
            assert forall|k: int| 0 <= k <= i implies #[trigger] rest@[k] != 0x0a by {
                if k < i {
                    if ch == 0 {
                        assert(is_sp_tab(rest@[k]));
                    } else {
                        assert(is_sp_tab(rest@[k]) || rest@[k] == ch);
                    }
                }
            }
            crate::bytes::lemma_first_byte_after(rest@, 0, 0x0a, i + 1);
        }
        let ghost p = crate::bytes::line_prefix(rest@);
        if b == 0x20 || b == 0x09 {
        } else if b == 0x2d || b == 0x5f || b == 0x2a {
            if ch == 0 {
                ch = b;
                proof {
                    first = i as int;
                    lemma_count_none(rest@.subrange(0, i as int), b);
                    lemma_count_push(rest@, i as int, b);
                }
            } else if b != ch {
                proof {
                    assert forall|m: u8| is_break_marker(m) implies !(forall|k: int|
                        0 <= k < p.len() ==> is_sp_tab(#[trigger] p[k]) || p[k] == m) by {
                        if m == b {
                            assert(p[first] == rest@[first]);
                            assert(!is_sp_tab(p[first]) && p[first] != m);
                        } else {
                            assert(p[i as int] == rest@[i as int]);
                            assert(!is_sp_tab(p[i as int]) && p[i as int] != m);
                        }
                    }
                    assert(!thematic_break_spec(rest@)) by {
                        assert(!is_sp_tab(rest@[first]) && !is_sp_tab(rest@[i as int]));
                    }
                }
                return false;
            }
            count += 1;
        } else {
            proof {
                assert forall|m: u8| is_break_marker(m) implies !(forall|k: int|
                    0 <= k < p.len() ==> is_sp_tab(#[trigger] p[k]) || p[k] == m) by {
                    assert(p[i as int] == rest@[i as int]);
                    assert(!is_sp_tab(p[i as int]) && p[i as int] != m);
                }
                assert forall|m: u8| is_break_marker(m) implies !(forall|k: int|
                    0 <= k < rest@.len() ==> is_sp_tab(#[trigger] rest@[k]) || rest@[k] == m) by {
                    assert(!is_sp_tab(rest@[i as int]) && rest@[i as int] != m);
                }
            }
            return false;
        }
        i += 1;
    }
    let ghost p = rest@.subrange(0, i as int);
    proof {
        assert forall|k: int| 0 <= k < i implies #[trigger] rest@[k] != 0x0a by {
            if ch == 0 {
                assert(is_sp_tab(rest@[k]));
            } else {
                assert(is_sp_tab(rest@[k]) || rest@[k] == ch);
            }
        }
        crate::bytes::lemma_first_byte_after(rest@, 0, 0x0a, i as int);
        assert(crate::bytes::line_prefix(rest@) == p);
        if ch == 0 {
            assert forall|m: u8| is_break_marker(m) implies count_byte(p, m) == 0 by {
                lemma_count_none(p, m);
            }
        } else {
            assert forall|m: u8|
                is_break_marker(m) && m != ch implies !(forall|k: int|
                    0 <= k < p.len() ==> is_sp_tab(#[trigger] p[k]) || p[k] == m) by {
                assert(p[first] == rest@[first]);
                assert(!is_sp_tab(p[first]) && p[first] != m);
            }
            assert forall|k: int| 0 <= k < p.len() implies is_sp_tab(#[trigger] p[k]) || p[k] == ch by {
                assert(p[k] == rest@[k]);
            }
        }
        if one_line(rest@) {
            if i < n {
                assert(rest@[i as int] != 0x0a);
            }
            assert(p =~= rest@);
        }
    }
    count >= 3
}

/// `s[i..]` starts with a run of exactly `n` copies of `c`.
pub open spec fn run_is(s: Seq<u8>, i: int, c: u8, n: int) -> bool {
    &&& 0 <= i && 0 <= n && i + n <= s.len()
    &&& forall|k: int| i <= k < i + n ==> #[trigger] s[k] == c
    &&& i + n < s.len() ==> s[i + n] != c
}

/// A maximal run has one length.
pub proof fn lemma_run_unique(s: Seq<u8>, i: int, c: u8, n: int, m: int)
    requires
        run_is(s, i, c, n),
        run_is(s, i, c, m),
    ensures
        n == m,
{
    if n < m {
        assert(s[i + n] == c);
        assert(false);
    } else if m < n {
        assert(s[i + m] == c);
        assert(false);
    }
}

/// Length of the run of `c` at `i` (`i` within the slice).
fn run_at(s: &[u8], i: usize, c: u8) -> (n: usize)
    requires
        i <= s@.len(),
    ensures
        run_is(s@, i as int, c, n as int),
{
    crate::bytes::run_len(s, i, c)
}

/// Every byte of `s` from `i` on is a space or tab, or one of the bytes
/// `a`, `b`.
pub open spec fn rest_in(s: Seq<u8>, i: int, a: u8, b: u8) -> bool {
    forall|k: int| i <= k < s.len() ==> is_sp_tab(#[trigger] s[k]) || s[k] == a || s[k] == b
}

fn rest_all_in(s: &[u8], i: usize, a: u8, b: u8) -> (r: bool)
    ensures
        r == rest_in(s@, i as int, a, b),
{
    let mut k = i;
    while k < s.len()
        invariant
            i <= k || k == i,
            forall|j: int| i <= j < k ==> is_sp_tab(#[trigger] s@[j]) || s@[j] == a || s@[j] == b,
        decreases s.len() - k,
    {
        let c = s[k];
        if !(c == 0x20 || c == 0x09 || c == a || c == b) {
            return false;
        }
        k += 1;
    }
    true
}

/// An opening code fence: a run of at least three backticks or tildes; a
/// backtick fence's info string holds no backtick.
pub open spec fn fence_spec(s: Seq<u8>, c: u8, n: int) -> bool {
    &&& s.len() > 0 && s[0] == c && (c == 0x60 || c == 0x7e)
    &&& run_is(s, 0, c, n) && n >= 3
    &&& c == 0x60 ==> forall|k: int| n <= k < s.len() ==> s[k] != 0x60
}

/// The fence character and run length when `rest` opens a code fence.
#[verifier::rlimit(30)]
pub fn fence_opener(rest: &[u8]) -> (r: Option<(u8, usize)>)
    ensures
        match r {
            Some((c, n)) => fence_spec(crate::bytes::line_prefix(rest@), c, n as int),
            None => forall|c: u8, n: int| !fence_spec(crate::bytes::line_prefix(rest@), c, n),
        },
        one_line(rest@) ==> match r {
            Some((c, n)) => fence_spec(rest@, c, n as int),
            None => forall|c: u8, n: int| !fence_spec(rest@, c, n),
        },
{
    let ghost p = crate::bytes::line_prefix(rest@);
    proof {
        if one_line(rest@) {
            crate::bytes::lemma_first_byte_after(rest@, 0, 0x0a, rest@.len() as int);
            assert(p =~= rest@);
        }
    }
    if rest.len() == 0 {
        proof {
            crate::bytes::lemma_first_byte_after(rest@, 0, 0x0a, 0);
        }
        return None;
    }
    let c = rest[0];
    if c != 0x60 && c != 0x7e {
        proof {
            crate::bytes::lemma_first_byte_after(rest@, 0, 0x0a, 0);
            if p.len() > 0 {
                assert(p[0] == rest@[0]);
            }
        }
        return None;
    }
    let len = run_at(rest, 0, c);
    let ghost lp = crate::bytes::first_byte_from(rest@, 0, 0x0a);
    proof {
        assert forall|k: int| 0 <= k < len implies #[trigger] rest@[k] != 0x0a by {
            assert(rest@[k] == c);
        }
        crate::bytes::lemma_first_byte_after(rest@, 0, 0x0a, len as int);
        assert(p.len() == lp);
        assert forall|k: int| 0 <= k < p.len() implies #[trigger] p[k] == rest@[k] by {}
        assert(run_is(p, 0, c, len as int)) by {
            if len < p.len() {
                assert(p[len as int] == rest@[len as int]);
            }
        }
    }
    if len < 3 {
        proof {
            assert forall|c2: u8, n: int| !fence_spec(p, c2, n) by {
                if fence_spec(p, c2, n) {
                    lemma_run_unique(p, 0, c, len as int, n);
                }
            }
            assert forall|c2: u8, n: int| !fence_spec(rest@, c2, n) by {
                if fence_spec(rest@, c2, n) {
                    lemma_run_unique(rest@, 0, c, len as int, n);
                }
            }
        }
        return None;
    }
    // Backtick info strings may not contain backticks.
    if c == 0x60 {
        let mut k = len;
        while k < rest.len() && rest[k] != 0x0a
            invariant
                len <= k <= rest@.len(),
                forall|j: int| len <= j < k ==> rest@[j] != 0x60,
                forall|j: int| 0 <= j < k ==> #[trigger] rest@[j] != 0x0a,
            decreases rest.len() - k,
        {
            if rest[k] == 0x60 {
                proof {
                    crate::bytes::lemma_first_byte_after(rest@, 0, 0x0a, k + 1);
                    assert(p[k as int] == rest@[k as int]);
                    assert forall|c2: u8, n: int| !fence_spec(p, c2, n) by {
                        if fence_spec(p, c2, n) {
                            lemma_run_unique(p, 0, c, len as int, n);
                        }
                    }
                    assert forall|c2: u8, n: int| !fence_spec(rest@, c2, n) by {
                        if fence_spec(rest@, c2, n) {
                            lemma_run_unique(rest@, 0, c, len as int, n);
                        }
                    }
                }
                return None;
            }
            k += 1;
        }
        proof {
            crate::bytes::lemma_first_byte_after(rest@, 0, 0x0a, k as int);
            assert(p.len() == k);
            assert forall|j: int| len <= j < p.len() implies p[j] != 0x60 by {
                assert(p[j] == rest@[j]);
            }
        }
    }
    Some((c, len))
}

/// A closing fence: a run of at least `len` copies of `c` at `from`, then
/// only spaces, tabs and newlines.
pub open spec fn closing_fence_spec(s: Seq<u8>, from: int, c: u8, len: int) -> bool {
    exists|n: int| run_is(s, from, c, n) && n >= len && rest_in(s, from + n, 0x0a, 0x0a)
}

pub fn is_closing_fence(line: &[u8], from: usize, fence_char: u8, fence_len: usize) -> (r: bool)
    requires
        from <= line@.len(),
    ensures
        r == closing_fence_spec(line@, from as int, fence_char, fence_len as int),
{
    let len = line.len();
    let run = run_at(line, from, fence_char);
    proof {
        assert forall|n: int| run_is(line@, from as int, fence_char, n) implies n == run by {
            lemma_run_unique(line@, from as int, fence_char, n, run as int);
        }
    }
    if run < fence_len {
        return false;
    }
    rest_all_in(line, from + run, 0x0a, 0x0a)
}

/// A container-directive closing fence: a run of at least `max(len, 3)`
/// colons, then only whitespace.
pub open spec fn colon_close_spec(s: Seq<u8>, from: int, len: int) -> bool {
    exists|n: int|
        run_is(s, from, 0x3a, n) && n >= len && n >= 3 && rest_in(s, from + n, 0x0d, 0x0a)
}

pub fn is_colon_close(line: &[u8], from: usize, fence_len: usize) -> (r: bool)
    requires
        from <= line@.len(),
    ensures
        r == colon_close_spec(line@, from as int, fence_len as int),
{
    let len = line.len();
    let run = run_at(line, from, 0x3a);
    proof {
        assert forall|n: int| run_is(line@, from as int, 0x3a, n) implies n == run by {
            lemma_run_unique(line@, from as int, 0x3a, n, run as int);
        }
    }
    let need = if fence_len > 3 { fence_len } else { 3 };
    if run < need {
        return false;
    }
    rest_all_in(line, from + run, 0x0d, 0x0a)
}

/// A frontmatter fence: exactly three `marker` bytes, then only spaces and
/// tabs.
pub open spec fn fm_fence_spec(s: Seq<u8>, marker: u8) -> bool {
    s.len() >= 3 && s[0] == marker && s[1] == marker && s[2] == marker && rest_in(s, 3, 0x20, 0x09)
}

pub fn is_fm_fence(line: &[u8], marker: u8) -> (r: bool)
    ensures
        r == fm_fence_spec(line@, marker),
{
    line.len() >= 3 && line[0] == marker && line[1] == marker && line[2] == marker
        && rest_all_in(line, 3, 0x20, 0x09)
}

/// `line` without one trailing carriage return.
pub fn trim_cr(line: &[u8]) -> (r: &[u8])
    ensures
        r@ == if line@.len() > 0 && line@.last() == 0x0d {
            line@.drop_last()
        } else {
            line@
        },
{
    let n = line.len();
    if n > 0 && line[n - 1] == 0x0d {
        slice(line, 0, n - 1)
    } else {
        line
    }
}

/// A setext underline: a run of `=` (level 1) or `-` (level 2), then only
/// spaces and tabs.
pub open spec fn setext_spec(s: Seq<u8>, level: u8) -> bool {
    let c: u8 = if level == 1 { 0x3d } else { 0x2d };
    (level == 1 || level == 2) && exists|e: int|
        0 < e <= s.len() && (forall|k: int| 0 <= k < e ==> #[trigger] s[k] == c) && rest_in(
            s,
            e,
            0x20,
            0x09,
        )
}

pub fn setext_level(rest: &[u8]) -> (r: Option<u8>)
    ensures
        match r {
            Some(l) => setext_spec(rest@, l),
            None => !setext_spec(rest@, 1) && !setext_spec(rest@, 2),
        },
{
    let n = rest.len();
    if n == 0 {
        return None;
    }
    let c = rest[0];
    if c != 0x3d && c != 0x2d {
        return None;
    }
    let run = run_at(rest, 0, c);
    let ok = rest_all_in(rest, run, 0x20, 0x09);
    proof {
        // Any witness `e` of the spec is the run itself.
        assert forall|e: int|
            0 < e <= n && (forall|k: int| 0 <= k < e ==> #[trigger] rest@[k] == c) && rest_in(
                rest@,
                e,
                0x20,
                0x09,
            ) implies e == run by {
            if e < run {
                assert(rest@[e] == c);
            } else if e > run {
                assert(rest@[run as int] == c);
            }
        }
    }
    if ok {
        Some(if c == 0x3d { 1 } else { 2 })
    } else {
        None
    }
}

/// Number of unescaped `|` in `s[k..]`, where `esc` says whether `s[k]` is
/// escaped by a preceding backslash.
pub open spec fn pipes_from(s: Seq<u8>, k: int, esc: bool) -> nat
    decreases s.len() - k,
{
    if k < 0 || k >= s.len() {
        0
    } else if esc {
        pipes_from(s, k + 1, false)
    } else if s[k] == 0x5c {
        pipes_from(s, k + 1, true)
    } else if s[k] == 0x7c {
        1 + pipes_from(s, k + 1, false)
    } else {
        pipes_from(s, k + 1, false)
    }
}

/// Cells of a trimmed table row: unescaped pipes plus one, less an empty cell
/// before a leading pipe and after a trailing one.
pub open spec fn cells_spec(t: Seq<u8>) -> int {
    if t.len() == 0 {
        0
    } else {
        1 + pipes_from(t, 0, false) - (if t[0] == 0x7c { 1int } else { 0int }) - (if t.last()
            == 0x7c && t.len() > 1 {
            1int
        } else {
            0int
        })
    }
}

proof fn lemma_pipes_bound(s: Seq<u8>, k: int, esc: bool)
    requires
        0 <= k <= s.len(),
    ensures
        pipes_from(s, k, esc) <= s.len() - k,
        k < s.len() && !esc && s[k] == 0x7c ==> pipes_from(s, k, esc) >= 1,
    decreases s.len() - k,
{
    if k < s.len() {
        lemma_pipes_bound(s, k + 1, false);
        lemma_pipes_bound(s, k + 1, true);
    }
}

/// Number of cells in a GFM table row.
pub fn count_cells(line: &[u8]) -> (n: usize)
    ensures
        exists|a: int, b: int|
            trim_bounds(line@, SP_TAB, a, b) && n as int == cells_spec(line@.subrange(a, b)),
{
    let t = trim(line, SP_TAB);
    let len = t.len();
    if len == 0 {
        return 0;
    }
    let mut pipes: usize = 0;
    let mut esc = false;
    let mut k: usize = 0;
    while k < len
        invariant
            k <= len == t@.len(),
            pipes + pipes_from(t@, k as int, esc) == pipes_from(t@, 0, false),
            pipes <= k,
        decreases len - k,
    {
        let b = t[k];
        if esc {
            esc = false;
        } else if b == 0x5c {
            esc = true;
        } else if b == 0x7c {
            pipes += 1;
        }
        k += 1;
    }
    let mut parts = pipes;
    proof {
        lemma_pipes_bound(t@, 0, false);
        lemma_pipes_bound(t@, 1, false);
        lemma_pipes_bound(t@, 1, true);
    }
    if t[0] != 0x7c {
        parts += 1;
    }
    if t[len - 1] == 0x7c && len > 1 {
        parts -= 1;
    }
    parts
}

/// Could a line whose first non-space byte is `c` begin a block other than a
/// paragraph? (`#` ATX, `>` quote, `` ` ``/`~` fence, `*+-_` thematic break or
/// list, `=`/`-` setext, `<` HTML, a digit for an ordered list.)
pub open spec fn maybe_special_spec(c: Option<u8>) -> bool {
    match c {
        Some(b) => b == 0x23 || b == 0x3e || b == 0x60 || b == 0x7e || b == 0x2a || b == 0x2b || b
            == 0x2d || b == 0x5f || b == 0x3d || b == 0x3c || (0x30 <= b <= 0x39),
        None => false,
    }
}

pub fn maybe_special(c: Option<u8>) -> (r: bool)
    ensures
        r == maybe_special_spec(c),
{
    match c {
        Some(b) => b == 0x23 || b == 0x3e || b == 0x60 || b == 0x7e || b == 0x2a || b == 0x2b || b
            == 0x2d || b == 0x5f || b == 0x3d || b == 0x3c || (0x30 <= b && b <= 0x39),
        None => false,
    }
}

/// The content of an ATX heading from the text after its opening `#`s:
/// trimmed of spaces and tabs, and without a closing run of `#`s that is
/// the whole text or follows a space or tab (with the spaces and tabs
/// before it).
pub open spec fn atx_content_spec(after: Seq<u8>) -> Seq<u8> {
    let c = crate::bytes::trim_spec(after, SP_TAB);
    let t = crate::bytes::trim_end_spec(c, crate::bytes::HASH);
    if t.len() == c.len() {
        c
    } else if t.len() == 0 {
        Seq::empty()
    } else if is_sp_tab(t.last()) {
        crate::bytes::trim_end_spec(t, SP_TAB)
    } else {
        c
    }
}

/// The text of an ATX heading line after its `#` markers: spaces and tabs are
/// trimmed, and a closing `#` sequence is dropped when it is preceded by a
/// space or tab (or is all there is).
pub fn atx_content(after: &[u8]) -> (r: &[u8])
    ensures
        r@ == atx_content_spec(after@),
        r@.len() <= after@.len(),
        r@.len() > 0 ==> !is_sp_tab(r@[0]) && !is_sp_tab(r@.last()),
{
    let c = trim(after, SP_TAB);
    let t = trim_end(c, crate::bytes::HASH);
    proof {
        let (a, e) = choose|a: int, e: int| trim_bounds(after@, SP_TAB, a, e) && c@ == after@.subrange(a, e);
        if c@.len() > 0 {
            assert(c@[0] == after@[a]);
            assert(c@.last() == after@[e - 1]);
        }
    }
    if t.len() == c.len() {
        c
    } else if t.len() == 0 {
        slice(c, 0, 0)
    } else if t[t.len() - 1] == 0x20 || t[t.len() - 1] == 0x09 {
        let u = trim_end(t, SP_TAB);
        proof {
            if u@.len() > 0 {
                assert(u@[0] == c@[0]);
                assert(!is_sp_tab(u@.last())) by {
                    assert(u@.last() == t@[u@.len() - 1]);
                }
            }
        }
        u
    } else {
        c
    }
}

/// If `line` is a GFM table delimiter row (cells of `:?-+:?`, with at least
/// one pipe), its column count.
pub fn delim_row_cols(line: &[u8]) -> (r: Option<usize>)
    ensures
        r == delim_row_spec(line@),
        r matches Some(n) ==> n >= 1 && line@.contains(0x7c),
{
    let t0 = trim(line, SP_TAB);
    if !crate::bytes::contains(t0, 0x7c) {
        return None;
    }
    proof {
        let (a, e) = choose|a: int, e: int| trim_bounds(line@, SP_TAB, a, e) && t0@ == line@.subrange(a, e);
        let k = choose|k: int| 0 <= k < t0@.len() && t0@[k] == 0x7c;
        assert(line@[a + k] == 0x7c);
    }
    let mut t = t0;
    if t.len() > 0 && t[0] == 0x7c {
        t = tail(t, 1);
    }
    if t.len() > 0 && t[t.len() - 1] == 0x7c {
        t = slice(t, 0, t.len() - 1);
    }
    proof {
        assert(t@ =~= strip_ends(t0@, 0x7c));
    }
    delim_cells(t)
}

/// The number of cells of `t` split at each `|`, when every cell is a
/// delimiter cell.
#[verifier::rlimit(30)]
fn delim_cells(t: &[u8]) -> (r: Option<usize>)
    ensures
        r == (if forall|i: int, j: int| #[trigger] is_cell(t@, i, j) ==> delim_cell_spec(t@.subrange(i, j)) {
            Some((count_byte(t@, 0x7c) + 1) as usize)
        } else {
            None
        }),
        r matches Some(n) ==> n >= 1,
{
    let len = t.len();
    let mut cols: usize = 0;
    let mut start: usize = 0;
    let mut k: usize = 0;
    while k < len
        invariant
            cols <= start,
            k <= len == t@.len(),
            start <= k,
            start == 0 || t@[start - 1] == 0x7c,
            forall|m: int| start <= m < k ==> #[trigger] t@[m] != 0x7c,
            cols == count_byte(t@.subrange(0, k as int), 0x7c),
            forall|i: int, j: int| #[trigger] is_cell(t@, i, j) && j < start ==> delim_cell_spec(t@.subrange(i, j)),
        decreases len - k,
    {
        proof {
            assert(t@.subrange(0, k + 1).drop_last() =~= t@.subrange(0, k as int));
        }
        if t[k] == 0x7c {
            let cell = slice(t, start, k);
            proof {
                assert(cell@ =~= t@.subrange(start as int, k as int));
                assert(is_cell(t@, start as int, k as int));
            }
            if !delim_cell_ok(cell) {
                return None;
            }
            proof {
                assert forall|i: int, j: int| #[trigger] is_cell(t@, i, j) && j < k + 1 implies delim_cell_spec(t@.subrange(i, j)) by {
                    if j >= start {
                        if j < k {
                            assert(t@[j] != 0x7c);
                        }
                        if i < start {
                            assert(t@[start - 1] == 0x7c);
                        }
                        if i > start {
                            assert(t@[i - 1] != 0x7c);
                        }
                    }
                }
            }
            cols += 1;
            start = k + 1;
        }
        k += 1;
    }
    let cell = slice(t, start, len);
    proof {
        assert(cell@ =~= t@.subrange(start as int, len as int));
        assert(is_cell(t@, start as int, len as int));
        assert(t@.subrange(0, len as int) =~= t@);
    }
    if !delim_cell_ok(cell) {
        return None;
    }
    proof {
        assert forall|i: int, j: int| #[trigger] is_cell(t@, i, j) implies delim_cell_spec(t@.subrange(i, j)) by {
            if j >= start {
                if j < len {
                    assert(t@[j] != 0x7c);
                }
                if i < start {
                    assert(t@[start - 1] == 0x7c);
                }
                if i > start {
                    assert(t@[i - 1] != 0x7c);
                }
            }
        }
    }
    Some(cols + 1)
}

/// One delimiter-row cell: optional colons around a non-empty run of `-`,
/// with spaces and tabs around it.
fn delim_cell_ok(cell: &[u8]) -> (r: bool)
    ensures
        r == delim_cell_spec(cell@),
        r ==> cell@.len() > 0,
{
    let t = trim(cell, SP_TAB);
    let mut inner = t;
    if inner.len() > 0 && inner[0] == 0x3a {
        inner = tail(inner, 1);
    }
    if inner.len() > 0 && inner[inner.len() - 1] == 0x3a {
        inner = slice(inner, 0, inner.len() - 1);
    }
    proof {
        assert(inner@ =~= strip_ends(t@, 0x3a));
    }
    inner.len() > 0 && crate::bytes::all_in(inner, DASH)
}

/// `s` without one leading and one trailing `c`, where present.
pub open spec fn strip_ends(s: Seq<u8>, c: u8) -> Seq<u8> {
    let s1 = if s.len() > 0 && s[0] == c {
        s.subrange(1, s.len() as int)
    } else {
        s
    };
    if s1.len() > 0 && s1.last() == c {
        s1.drop_last()
    } else {
        s1
    }
}

/// A delimiter-row cell: once trimmed of spaces and tabs and of one colon
/// at each end, a non-empty run of `-`.
pub open spec fn delim_cell_spec(cell: Seq<u8>) -> bool {
    let inner = strip_ends(crate::bytes::trim_spec(cell, SP_TAB), 0x3a);
    inner.len() > 0 && forall|k: int| 0 <= k < inner.len() ==> #[trigger] inner[k] == 0x2d
}

/// `t[i..j]` is a cell of `t`: a maximal run of bytes other than `|`.
pub open spec fn is_cell(t: Seq<u8>, i: int, j: int) -> bool {
    &&& 0 <= i <= j <= t.len()
    &&& (i == 0 || t[i - 1] == 0x7c)
    &&& (j == t.len() || t[j] == 0x7c)
    &&& forall|m: int| i <= m < j ==> #[trigger] t[m] != 0x7c
}

/// The column count of a table delimiter row: the line, trimmed of spaces
/// and tabs, holds a `|`; without one leading and one trailing `|`, it
/// splits at each `|` into cells that are all delimiter cells.
pub open spec fn delim_row_spec(line: Seq<u8>) -> Option<usize> {
    let t0 = crate::bytes::trim_spec(line, SP_TAB);
    let t = strip_ends(t0, 0x7c);
    if t0.contains(0x7c) && forall|i: int, j: int| #[trigger] is_cell(t, i, j) ==> delim_cell_spec(t.subrange(i, j)) {
        Some((count_byte(t, 0x7c) + 1) as usize)
    } else {
        None
    }
}

/// `s[r..]` is a run of newlines each followed by spaces (`(\n *)*`).
pub open spec fn html_tail_ok(s: Seq<u8>, r: int) -> bool {
    &&& 0 <= r <= s.len()
    &&& forall|k: int| r <= k < s.len() ==> #[trigger] s[k] == 0x0a || s[k] == 0x20
    &&& (r == s.len() || s[r] == 0x0a)
}

/// The end of an HTML block's text with its trailing line endings (and the
/// spaces after them) removed.
pub fn html_trim_end(s: &[u8]) -> (r: usize)
    ensures
        html_tail_ok(s@, r as int),
        forall|r2: int| 0 <= r2 < r ==> !html_tail_ok(s@, r2),
{
    let mut end = s.len();
    loop
        invariant
            html_tail_ok(s@, end as int),
            forall|r2: int| end <= r2 < s@.len() ==> #[trigger] s@[r2] == 0x0a || s@[r2] == 0x20,
        decreases end,
    {
        let mut e = end;
        while e > 0 && s[e - 1] == 0x20
            invariant
                e <= end,
                html_tail_ok(s@, end as int),
                forall|k: int| e <= k < end ==> s@[k] == 0x20,
            decreases e,
        {
            e -= 1;
        }
        if e > 0 && s[e - 1] == 0x0a {
            end = e - 1;
        } else {
            proof {
                assert forall|r2: int| 0 <= r2 < end implies !html_tail_ok(s@, r2) by {
                    if html_tail_ok(s@, r2) {
                        if r2 >= e {
                            assert(s@[r2] == 0x20);
                        } else {
                            assert(s@[e - 1] == 0x0a || s@[e - 1] == 0x20);
                        }
                    }
                }
            }
            break;
        }
    }
    end
}

/// A byte of a blank line: space, tab or newline.
pub open spec fn blankish(c: u8) -> bool {
    c == 0x20 || c == 0x09 || c == 0x0a
}

/// `r` ends the text of an indented code block: everything from `r` on is
/// blank, and `r` is `0` with nothing but blanks, or the end (past its
/// newline, or the end of `s`) of a line that holds a non-blank byte.
pub open spec fn code_end_ok(s: Seq<u8>, r: int) -> bool {
    &&& 0 <= r <= s.len()
    &&& forall|k: int| r <= k < s.len() ==> blankish(#[trigger] s[k])
    &&& (r == 0 ==> forall|k: int| 0 <= k < s.len() ==> blankish(#[trigger] s[k]))
    &&& (r > 0 ==> (r == s.len() || s[r - 1] == 0x0a) && exists|q: int|
        0 <= q < r && !blankish(#[trigger] s[q]) && forall|k: int| q < k < r - 1 ==> #[trigger] s[k] != 0x0a)
}

/// The end of an indented code block's text without its trailing blank
/// lines: just past the newline of its last non-blank line.
#[verifier::rlimit(30)]
pub fn code_indented_end(s: &[u8]) -> (r: usize)
    ensures
        code_end_ok(s@, r as int),
{
    let n = s.len();
    let mut keep: usize = 0;
    let mut start: usize = 0;
    let mut i: usize = 0;
    while i < n
        invariant
            start <= i <= n == s@.len(),
            keep <= start,
            start == 0 || s@[start - 1] == 0x0a,
            forall|k: int| start <= k < i ==> #[trigger] s@[k] != 0x0a,
            forall|k: int| keep <= k < start ==> blankish(#[trigger] s@[k]),
            keep == 0 ==> forall|k: int| 0 <= k < start ==> blankish(#[trigger] s@[k]),
            keep > 0 ==> s@[keep - 1] == 0x0a && exists|q: int|
                0 <= q < keep && !blankish(#[trigger] s@[q]) && forall|k: int| q < k < keep - 1 ==> #[trigger] s@[k] != 0x0a,
        decreases n - i,
    {
        if s[i] == 0x0a {
            let line = slice(s, start, i);
            let t = trim(line, SP_TAB);
            proof {
                assert(line@ =~= s@.subrange(start as int, i as int));
                let (a, b) = choose|a: int, b: int| trim_bounds(line@, SP_TAB, a, b) && t@ == line@.subrange(a, b);
                if t@.len() > 0 {
                    assert(!blankish(s@[start + a]));
                } else {
                    assert forall|k: int| start <= k < i implies blankish(#[trigger] s@[k]) by {
                        assert(line@[k - start] == s@[k]);
                        if k - start < a {
                        } else {
                        }
                    }
                }
            }
            if t.len() > 0 {
                keep = i + 1;
            }
            start = i + 1;
        }
        i += 1;
    }
    let line = slice(s, start, n);
    let t = trim(line, SP_TAB);
    proof {
        assert(line@ =~= s@.subrange(start as int, n as int));
        let (a, b) = choose|a: int, b: int| trim_bounds(line@, SP_TAB, a, b) && t@ == line@.subrange(a, b);
        if t@.len() > 0 {
            assert(!blankish(s@[start + a]));
        } else {
            assert forall|k: int| start <= k < n implies blankish(#[trigger] s@[k]) by {
                assert(line@[k - start] == s@[k]);
            }
        }
    }
    if t.len() > 0 {
        keep = n;
    }
    keep
}

/// Tag names that open an HTML block of the sixth kind.
pub const BLOCK_NAMES: [&'static str; 61] = [
    "address",
    "article",
    "aside",
    "base",
    "basefont",
    "blockquote",
    "body",
    "caption",
    "center",
    "col",
    "colgroup",
    "dd",
    "details",
    "dialog",
    "dir",
    "div",
    "dl",
    "dt",
    "fieldset",
    "figcaption",
    "figure",
    "footer",
    "form",
    "frame",
    "frameset",
    "h1",
    "h2",
    "h3",
    "h4",
    "h5",
    "h6",
    "head",
    "header",
    "hr",
    "html",
    "iframe",
    "legend",
    "li",
    "link",
    "main",
    "menu",
    "menuitem",
    "nav",
    "noframes",
    "ol",
    "optgroup",
    "option",
    "p",
    "param",
    "section",
    "summary",
    "table",
    "tbody",
    "td",
    "tfoot",
    "th",
    "thead",
    "title",
    "tr",
    "track",
    "ul",
];

/// `name` is one of the block tag names, in any ASCII case.
pub open spec fn block_name_spec(name: Seq<u8>) -> bool {
    exists|k: int|
        0 <= k < 61 && name.len() == (#[trigger] BLOCK_NAMES[k]).spec_bytes().len() && nocase_at(
            name,
            0,
            BLOCK_NAMES[k].spec_bytes(),
        )
}

/// Is `name` (any ASCII case) one of the block tag names?
fn is_block_name(name: &[u8]) -> (r: bool)
    ensures
        r == block_name_spec(name@),
{
    let mut k: usize = 0;
    while k < 61
        invariant
            k <= 61,
            forall|j: int|
                0 <= j < k ==> !(name@.len() == (#[trigger] BLOCK_NAMES[j]).spec_bytes().len() && nocase_at(
                    name@,
                    0,
                    BLOCK_NAMES[j].spec_bytes(),
                )),
        decreases 61 - k,
    {
        if crate::bytes::eq_nocase(name, BLOCK_NAMES[k].as_bytes()) {
            return true;
        }
        k += 1;
    }
    false
}

/// A byte that may follow a kind-1 tag name: space, tab, newline, `>`.
pub open spec fn tag_follow(c: u8) -> bool {
    c == 0x20 || c == 0x09 || c == 0x0a || c == 0x3e
}

/// `s` starts with `p` in any ASCII case, followed by its end or a
/// [`tag_follow`] byte.
pub open spec fn starts_tag_spec(s: Seq<u8>, p: Seq<u8>) -> bool {
    nocase_at(s, 0, p) && (p.len() == s.len() || tag_follow(s[p.len() as int]))
}

/// Does `s` start with `p` ignoring ASCII case, followed by the end of `s`
/// or one of the bytes space, tab, newline, `>`?
fn starts_tag_nocase(s: &[u8], p: &str) -> (r: bool)
    ensures
        r == starts_tag_spec(s@, p.spec_bytes()),
{
    let pb = p.as_bytes();
    if !crate::bytes::starts_at_nocase(s, 0, pb) {
        return false;
    }
    if pb.len() == s.len() {
        return true;
    }
    let c = s[pb.len()];
    c == 0x20 || c == 0x09 || c == 0x0a || c == 0x3e
}

/// `s` starts with `p` exactly.
pub open spec fn starts_exact(s: Seq<u8>, p: Seq<u8>) -> bool {
    p.len() <= s.len() && s.subrange(0, p.len() as int) == p
}

/// `rest` opens a kind-1 block: `<script`, `<pre`, `<style` or
/// `<textarea` (any case) ending its name.
pub open spec fn html_kind1(rest: Seq<u8>) -> bool {
    starts_tag_spec(rest, "<script".spec_bytes()) || starts_tag_spec(rest, "<pre".spec_bytes())
        || starts_tag_spec(rest, "<style".spec_bytes()) || starts_tag_spec(rest, "<textarea".spec_bytes())
}

/// The tag name part of `rest` for kind 6: past `</` or `<`.
pub open spec fn html_kind6_body(rest: Seq<u8>) -> Seq<u8> {
    if rest.len() > 1 && rest[1] == 0x2f {
        rest.subrange(2, rest.len() as int)
    } else {
        rest.subrange(1, rest.len() as int)
    }
}

/// `rest` opens a kind-6 block: a block tag name, opening or closing,
/// followed by the end of the line, a space, a tab, `>`, a newline or `/>`.
pub open spec fn html_kind6(rest: Seq<u8>) -> bool {
    let body = html_kind6_body(rest);
    let n = crate::syntax::alnum_end(body, 0);
    let after = body.subrange(n, body.len() as int);
    &&& n > 0
    &&& block_name_spec(body.subrange(0, n))
    &&& (after.len() == 0 || after[0] == 0x20 || after[0] == 0x09 || after[0] == 0x3e || after[0] == 0x0a
        || (after.len() > 1 && after[0] == 0x2f && after[1] == 0x3e))
}

/// `rest` opens a kind-7 block: a complete open or closing tag followed only
/// by spaces, tabs and newlines, and not a kind-1 tag name prefix.
pub open spec fn html_kind7(rest: Seq<u8>) -> bool {
    &&& crate::syntax::tag_len_spec(rest) is Some
    &&& rest_in(rest, crate::syntax::tag_len_spec(rest)->0, 0x0a, 0x0a)
    &&& !starts_exact(rest, "<script".spec_bytes())
    &&& !starts_exact(rest, "<pre".spec_bytes())
    &&& !starts_exact(rest, "<style".spec_bytes())
    &&& !starts_exact(rest, "<textarea".spec_bytes())
}

/// The kind of HTML block that `rest` opens, trying the kinds in order.
pub open spec fn html_open_spec(rest: Seq<u8>, in_paragraph: bool) -> Option<u8> {
    if rest.len() == 0 || rest[0] != 0x3c {
        None
    } else if html_kind1(rest) {
        Some(1)
    } else if starts_exact(rest, "<!--".spec_bytes()) {
        Some(2)
    } else if starts_exact(rest, "<?".spec_bytes()) {
        Some(3)
    } else if rest.len() > 2 && rest[1] == 0x21 && is_alpha_spec(rest[2]) {
        Some(4)
    } else if starts_exact(rest, "<![CDATA[".spec_bytes()) {
        Some(5)
    } else if html_kind6(rest) {
        Some(6)
    } else if !in_paragraph && html_kind7(rest) {
        Some(7)
    } else {
        None
    }
}

/// The kind (1 to 7) of HTML block that `rest` (a line from its first
/// non-space byte) opens, if any. The seventh kind, a lone complete tag,
/// cannot interrupt a paragraph.
#[verifier::rlimit(30)]
pub fn html_block_open(rest: &[u8], in_paragraph: bool) -> (r: Option<u8>)
    ensures
        r == html_open_spec(rest@, in_paragraph),
        r matches Some(k) ==> 1 <= k <= 7 && rest@.len() > 0 && rest@[0] == 0x3c,
        in_paragraph ==> r != Some(7u8),
{
    if rest.len() == 0 || rest[0] != 0x3c {
        return None;
    }
    if starts_tag_nocase(rest, "<script") || starts_tag_nocase(rest, "<pre") || starts_tag_nocase(
        rest,
        "<style",
    ) || starts_tag_nocase(rest, "<textarea") {
        return Some(1);
    }
    if crate::bytes::starts_with_str(rest, "<!--") {
        return Some(2);
    }
    if crate::bytes::starts_with_str(rest, "<?") {
        return Some(3);
    }
    if rest.len() > 2 && rest[1] == 0x21 && crate::bytes::is_alpha(rest[2]) {
        return Some(4);
    }
    if crate::bytes::starts_with_str(rest, "<![CDATA[") {
        return Some(5);
    }
    // 6: a block tag name, opening or closing.
    let body = if rest.len() > 1 && rest[1] == 0x2f {
        tail(rest, 2)
    } else {
        tail(rest, 1)
    };
    proof {
        assert(body@ =~= html_kind6_body(rest@));
    }
    let mut n: usize = 0;
    while n < body.len() && crate::bytes::is_alnum(body[n])
        invariant
            n <= body@.len(),
            crate::syntax::alnum_end(body@, n as int) == crate::syntax::alnum_end(body@, 0),
        decreases body.len() - n,
    {
        n += 1;
    }
    let name = slice(body, 0, n);
    let after = tail(body, n);
    proof {
        assert(name@ =~= body@.subrange(0, n as int));
        assert(after@ =~= body@.subrange(n as int, body@.len() as int));
    }
    if n > 0 && is_block_name(name) {
        if after.len() == 0 || after[0] == 0x20 || after[0] == 0x09 || after[0] == 0x3e
            || after[0] == 0x0a || (after.len() > 1 && after[0] == 0x2f && after[1] == 0x3e) {
            return Some(6);
        }
    }
    // 7: a complete open or closing tag alone on the line.
    if !in_paragraph {
        match crate::syntax::raw_tag_len(rest) {
            Some(end) => {
                if rest_all_in(rest, end, 0x0a, 0x0a) && !crate::bytes::starts_with_str(rest, "<script")
                    && !crate::bytes::starts_with_str(rest, "<pre")
                    && !crate::bytes::starts_with_str(rest, "<style")
                    && !crate::bytes::starts_with_str(rest, "<textarea") {
                    return Some(7);
                }
            },
            None => {},
        }
    }
    None
}

/// Does `hay` contain `needle`, ignoring ASCII case?
fn contains_nocase(hay: &[u8], needle: &str) -> (r: bool)
    ensures
        r == exists|q: int| nocase_at(hay@, q, needle.spec_bytes()),
{
    let p = needle.as_bytes();
    if p.len() > hay.len() {
        return false;
    }
    let last = hay.len() - p.len();
    let mut i: usize = 0;
    while i <= last
        invariant
            p@.len() <= hay@.len(),
            last == hay@.len() - p@.len(),
            i <= last,
            forall|q: int| 0 <= q < i ==> !#[trigger] nocase_at(hay@, q, p@),
        decreases last + 1 - i,
    {
        if crate::bytes::starts_at_nocase(hay, i, p) {
            return true;
        }
        if i == last {
            break;
        }
        i += 1;
    }
    proof {
        assert forall|q: int| !#[trigger] nocase_at(hay@, q, p@) by {
            if q == i {
            }
        }
    }
    false
}

/// `line` meets the end condition of an HTML block of kind `kind`.
pub open spec fn html_end_spec(kind: u8, line: Seq<u8>) -> bool {
    if kind == 1 {
        (exists|q: int| nocase_at(line, q, "</script>".spec_bytes())) || (exists|q: int|
            nocase_at(line, q, "</pre>".spec_bytes())) || (exists|q: int|
            nocase_at(line, q, "</style>".spec_bytes())) || (exists|q: int|
            nocase_at(line, q, "</textarea>".spec_bytes()))
    } else if kind == 2 {
        exists|q: int| crate::bytes::occurs_at(line, "-->".spec_bytes(), q)
    } else if kind == 3 {
        exists|q: int| crate::bytes::occurs_at(line, "?>".spec_bytes(), q)
    } else if kind == 4 {
        line.contains(0x3e)
    } else if kind == 5 {
        exists|q: int| crate::bytes::occurs_at(line, "]]>".spec_bytes(), q)
    } else {
        false
    }
}

/// Does `line` meet the end condition of an HTML block of kind `kind` (1 to
/// 5; the sixth and seventh kinds end at a blank line instead)?
pub fn html_block_ends(kind: u8, line: &[u8]) -> (r: bool)
    ensures
        r == html_end_spec(kind, line@),
        !(1 <= kind <= 5) ==> !r,
{
    if kind == 1 {
        contains_nocase(line, "</script>") || contains_nocase(line, "</pre>") || contains_nocase(
            line,
            "</style>",
        ) || contains_nocase(line, "</textarea>")
    } else if kind == 2 {
        crate::bytes::contains_sub(line, "-->".as_bytes())
    } else if kind == 3 {
        crate::bytes::contains_sub(line, "?>".as_bytes())
    } else if kind == 4 {
        crate::bytes::contains(line, 0x3e)
    } else if kind == 5 {
        crate::bytes::contains_sub(line, "]]>".as_bytes())
    } else {
        false
    }
}

/// A byte that may not stand unescaped in a footnote label: a bracket or
/// whitespace.
pub open spec fn fn_label_stop(c: u8) -> bool {
    c == 0x5b || c == 0x20 || c == 0x09 || c == 0x0a || c == 0x0d
}

/// `line[e]` is the `]` that closes the footnote label opened by `[^`: the
/// first `]` read by the scan from index 2, with no stop byte read before.
pub open spec fn fn_label_close(line: Seq<u8>, e: int) -> bool {
    &&& 2 <= e < line.len()
    &&& scan_pos(line, 2, e)
    &&& line[e] == 0x5d
    &&& forall|p: int| 2 <= p < e && #[trigger] scan_pos(line, 2, p) ==> line[p] != 0x5d && !fn_label_stop(line[p])
}

/// A GFM footnote-definition opener `[^label]:` at the start of `line`:
/// the index of the closing `]`. The label is non-empty and holds no
/// unescaped bracket and no whitespace.
#[verifier::rlimit(30)]
pub fn footnote_label_end(line: &[u8]) -> (r: Option<usize>)
    ensures
        r is Some <==> line@.len() >= 4 && line@[0] == 0x5b && line@[1] == 0x5e && exists|e: int|
            #[trigger] fn_label_close(line@, e) && e > 2 && e + 1 < line@.len() && line@[e + 1] == 0x3a,
        r matches Some(e) ==> 2 < e && e + 1 < line@.len() && line@[0] == 0x5b && line@[1] == 0x5e
            && line@[e as int] == 0x5d && line@[e + 1] == 0x3a && fn_label_close(line@, e as int),
{
    let n = line.len();
    if n < 4 || line[0] != 0x5b || line[1] != 0x5e {
        return None;
    }
    let mut i: usize = 2;
    while i < n
        invariant
            2 <= i <= n,
            n == line@.len(),
            scan_pos(line@, 2, i as int),
            forall|p: int| 2 <= p < i && #[trigger] scan_pos(line@, 2, p) ==> line@[p] != 0x5d && !fn_label_stop(line@[p]),
        decreases n + 1 - i,
    {
        let c = line[i];
        if c == 0x5d {
            break;
        } else if c == 0x5b || c == 0x20 || c == 0x09 || c == 0x0a || c == 0x0d {
            proof {
                assert forall|e: int| !#[trigger] fn_label_close(line@, e) by {
                    if fn_label_close(line@, e) && e > i {
                        assert(scan_pos(line@, 2, i as int));
                    }
                }
            }
            return None;
        } else if c == 0x5c && i + 1 < n {
            proof {
                lemma_escaped_skipped(line@, 2, i as int);
            }
            i += 2;
        } else {
            i += 1;
        }
    }
    proof {
        assert forall|e: int| #[trigger] fn_label_close(line@, e) implies e == i by {
            if e < i {
                assert(scan_pos(line@, 2, e));
            } else if e > i {
                assert(scan_pos(line@, 2, i as int));
            }
        }
    }
    if i >= n || line[i] != 0x5d || i == 2 || i + 1 >= n || line[i + 1] != 0x3a {
        return None;
    }
    assert(fn_label_close(line@, i as int));
    Some(i)
}

/// Byte length of the UTF-8 encoded `White_Space` character (as
/// `char::is_whitespace` has it) that starts at `s[i]`, or 0 when none does:
/// tab to CR and space (one byte), U+0085 and U+00A0 (two bytes), U+1680,
/// U+2000 to U+200A, U+2028, U+2029, U+202F, U+205F and U+3000 (three
/// bytes).
pub open spec fn ws_len_spec(s: Seq<u8>, i: int) -> int {
    if i < 0 || i >= s.len() {
        0
    } else if 0x09 <= s[i] <= 0x0d || s[i] == 0x20 {
        1
    } else if s.len() - i > 1 && s[i] == 0xc2 && (s[i + 1] == 0x85 || s[i + 1] == 0xa0) {
        2
    } else if s.len() - i > 2 && ((s[i] == 0xe1 && s[i + 1] == 0x9a && s[i + 2] == 0x80) || (s[i]
        == 0xe2 && s[i + 1] == 0x80 && (0x80 <= s[i + 2] <= 0x8a || s[i + 2] == 0xa8 || s[i + 2]
        == 0xa9 || s[i + 2] == 0xaf)) || (s[i] == 0xe2 && s[i + 1] == 0x81 && s[i + 2] == 0x9f)
        || (s[i] == 0xe3 && s[i + 1] == 0x80 && s[i + 2] == 0x80)) {
        3
    } else {
        0
    }
}

/// Byte length of the Unicode `White_Space` character (as `char::is_whitespace`
/// has it) that starts at `s[i]`, or 0 when none does.
pub fn ws_len_at(s: &[u8], i: usize) -> (n: usize)
    ensures
        n == ws_len_spec(s@, i as int),
        n <= 3,
        n > 0 ==> i + n <= s@.len(),
{
    let len = s.len();
    if i >= len {
        return 0;
    }
    let c = s[i];
    if c == 0x09 || c == 0x0a || c == 0x0b || c == 0x0c || c == 0x0d || c == 0x20 {
        return 1;
    }
    if len - i > 1 && c == 0xc2 && (s[i + 1] == 0x85 || s[i + 1] == 0xa0) {
        return 2;
    }
    if len - i > 2 {
        let d = s[i + 1];
        let e = s[i + 2];
        if (c == 0xe1 && d == 0x9a && e == 0x80) || (c == 0xe2 && d == 0x80 && (e <= 0x8a || e
            == 0xa8 || e == 0xa9 || e == 0xaf) && e >= 0x80) || (c == 0xe2 && d == 0x81 && e
            == 0x9f) || (c == 0xe3 && d == 0x80 && e == 0x80) {
            return 3;
        }
    }
    0
}

/// Byte length of the whitespace character that ends just before `s[e]`:
/// a one-byte one first, then a two-byte one, then a three-byte one.
pub open spec fn ws_len_before_spec(s: Seq<u8>, e: int) -> int {
    if e > s.len() || e <= 0 {
        0
    } else if ws_len_spec(s, e - 1) == 1 {
        1
    } else if e >= 2 && ws_len_spec(s, e - 2) == 2 {
        2
    } else if e >= 3 && ws_len_spec(s, e - 3) == 3 {
        3
    } else {
        0
    }
}

/// Byte length of the Unicode whitespace character that ends just before
/// `s[e]`, or 0 when none does.
pub fn ws_len_before(s: &[u8], e: usize) -> (n: usize)
    ensures
        n == ws_len_before_spec(s@, e as int),
        n <= e,
        n <= 3,
{
    if e > s.len() || e == 0 {
        return 0;
    }
    if ws_len_at(s, e - 1) == 1 {
        return 1;
    }
    if e >= 2 && ws_len_at(s, e - 2) == 2 {
        return 2;
    }
    if e >= 3 && ws_len_at(s, e - 3) == 3 {
        return 3;
    }
    0
}

/// Where the run of whitespace characters of `s` that starts at `a` ends.
pub open spec fn ws_skip_fwd(s: Seq<u8>, a: int) -> int
    decreases s.len() - a,
{
    if 0 <= a < s.len() && ws_len_spec(s, a) > 0 {
        ws_skip_fwd(s, a + ws_len_spec(s, a))
    } else {
        a
    }
}

/// Where the run of whitespace characters of `s[a..b]` that ends at `b`
/// starts, taking whole characters back from `b` while they lie past `a`.
pub open spec fn ws_skip_back(s: Seq<u8>, a: int, b: int) -> int
    decreases b,
{
    if b > a && ws_len_before_spec(s, b) > 0 && b - ws_len_before_spec(s, b) >= a {
        ws_skip_back(s, a, b - ws_len_before_spec(s, b))
    } else {
        b
    }
}

/// `s` with leading and trailing Unicode whitespace removed, as a range.
pub fn trim_ws(s: &[u8]) -> (r: (usize, usize))
    ensures
        r.0 <= r.1 <= s@.len(),
        r.0 == ws_skip_fwd(s@, 0),
        r.1 == ws_skip_back(s@, r.0 as int, s@.len() as int),
{
    let n = s.len();
    let mut a: usize = 0;
    while a < n
        invariant
            a <= n == s@.len(),
            ws_skip_fwd(s@, a as int) == ws_skip_fwd(s@, 0),
        decreases n - a,
    {
        let w = ws_len_at(s, a);
        if w == 0 {
            break;
        }
        a += w;
    }
    let mut b = n;
    while b > a
        invariant
            a <= b <= n,
            n == s@.len(),
            ws_skip_back(s@, a as int, b as int) == ws_skip_back(s@, a as int, n as int),
        decreases b,
    {
        let w = ws_len_before(s, b);
        if w == 0 || b - w < a {
            break;
        }
        b -= w;
    }
    (a, b)
}

/// Where the run of non-whitespace bytes of `s` from `b` ends: the first
/// index at which a whitespace character starts, or the end of `s`.
pub open spec fn word_end(s: Seq<u8>, b: int) -> int
    decreases s.len() - b,
{
    if 0 <= b < s.len() && ws_len_spec(s, b) == 0 {
        word_end(s, b + 1)
    } else {
        b
    }
}

/// The first whitespace-separated word of `s`, if any.
pub fn first_word(s: &[u8]) -> (r: Option<&[u8]>)
    ensures
        r is Some <==> ws_skip_fwd(s@, 0) < s@.len(),
        r matches Some(w) ==> w@.len() > 0 && w@ == s@.subrange(
            ws_skip_fwd(s@, 0),
            word_end(s@, ws_skip_fwd(s@, 0)),
        ),
{
    let n = s.len();
    let mut a: usize = 0;
    while a < n
        invariant
            a <= n == s@.len(),
            ws_skip_fwd(s@, a as int) == ws_skip_fwd(s@, 0),
        decreases n - a,
    {
        let w = ws_len_at(s, a);
        if w == 0 {
            break;
        }
        a += w;
    }
    if a >= n {
        return None;
    }
    let mut b = a;
    while b < n && ws_len_at(s, b) == 0
        invariant
            a <= b <= n,
            n == s@.len(),
            word_end(s@, b as int) == word_end(s@, a as int),
        decreases n - b,
    {
        b += 1;
    }
    if b == a {
        return None;
    }
    Some(slice(s, a, b))
}

/// The number of ASCII digits of `s` in a row from `k`.
pub open spec fn digit_run(s: Seq<u8>, k: int) -> int
    decreases s.len() - k,
{
    if 0 <= k < s.len() && 0x30 <= s[k] <= 0x39 {
        1 + digit_run(s, k + 1)
    } else {
        0
    }
}

/// The decimal value of the first `d` bytes of `s`.
pub open spec fn dec_value(s: Seq<u8>, d: int) -> int
    decreases d,
{
    if d <= 0 {
        0
    } else {
        dec_value(s, d - 1) * 10 + (s[d - 1] - 0x30)
    }
}

/// The list marker that starts `rest` (a line from its first non-space
/// byte): `(ordered, bullet, start, delimiter, width)`. A bullet is `-`,
/// `+` or `*`; an ordered marker is one to nine digits and `.` or `)`. The
/// marker is followed by a space, a tab or the end of the line. Interrupting
/// a paragraph, an ordered list starts at 1 and the item is not blank.
pub open spec fn list_marker_spec(rest: Seq<u8>, in_paragraph: bool) -> Option<(bool, u8, u64, u8, int)> {
    let n = rest.len();
    let m: Option<(bool, u8, u64, u8, int)> = if n == 0 {
        None
    } else if rest[0] == 0x2d || rest[0] == 0x2b || rest[0] == 0x2a {
        Some((false, rest[0], 0u64, 0u8, 1))
    } else if 0x30 <= rest[0] <= 0x39 {
        let d = digit_run(rest, 0);
        if d > 9 || d >= n || !(rest[d] == 0x2e || rest[d] == 0x29) {
            None
        } else {
            Some((true, 0u8, dec_value(rest, d) as u64, rest[d], d + 1))
        }
    } else {
        None
    };
    match m {
        None => None,
        Some((ordered, bullet, start, delim, mw)) => {
            if mw < n && rest[mw] != 0x20 && rest[mw] != 0x09 {
                None
            } else if in_paragraph && ((ordered && start != 1) || forall|k: int|
                mw <= k < n ==> #[trigger] rest[k] == 0x20 || rest[k] == 0x09) {
                None
            } else {
                m
            }
        },
    }
}

/// `dec_value` of `d` digits is below `10^d`.
proof fn lemma_dec_value_bound(s: Seq<u8>, d: int)
    requires
        0 <= d <= 9,
        d <= s.len(),
        forall|k: int| 0 <= k < d ==> 0x30 <= #[trigger] s[k] <= 0x39,
    ensures
        0 <= dec_value(s, d) < digits_pow(d),
    decreases d,
{
    if d > 0 {
        lemma_dec_value_bound(s, d - 1);
        let v = dec_value(s, d - 1);
        let p = digits_pow(d - 1);
        assert(v * 10 + (s[d - 1] - 0x30) < p * 10) by (nonlinear_arith)
            requires
                v < p,
                0 <= s[d - 1] - 0x30 <= 9,
        ;
        assert(v * 10 + (s[d - 1] - 0x30) >= 0) by (nonlinear_arith)
            requires
                v >= 0,
                0 <= s[d - 1] - 0x30,
        ;
    }
}

/// `10^d`.
pub open spec fn digits_pow(d: int) -> int
    decreases d,
{
    if d <= 0 {
        1
    } else {
        digits_pow(d - 1) * 10
    }
}

/// The list marker that starts `rest`, if any, as in [`list_marker_spec`].
pub fn list_marker(rest: &[u8], in_paragraph: bool) -> (r: Option<(bool, u8, u64, u8, usize)>)
    ensures
        match r {
            Some((o, b, s, d, w)) => list_marker_spec(rest@, in_paragraph) == Some((o, b, s, d, w as int)),
            None => list_marker_spec(rest@, in_paragraph) is None,
        },
        r matches Some((o, b, s, d, w)) ==> 1 <= w <= 10 && w <= rest@.len(),
{
    let n = rest.len();
    if n == 0 {
        return None;
    }
    let c = rest[0];
    let (ordered, bullet, start, delimiter, mw) = if c == 0x2d || c == 0x2b || c == 0x2a {
        (false, c, 0u64, 0u8, 1usize)
    } else if crate::bytes::is_digit(c) {
        let mut digits: usize = 0;
        let mut value: u64 = 0;
        proof {
            assert(digits_pow(0) == 1);
        }
        while digits < n && crate::bytes::is_digit(rest[digits])
            invariant
                digits <= n == rest@.len(),
                digit_run(rest@, 0) == digits + digit_run(rest@, digits as int),
                forall|k: int| 0 <= k < digits ==> 0x30 <= #[trigger] rest@[k] <= 0x39,
                digits <= 9 ==> value == dec_value(rest@, digits as int),
                value < 1_000_000_000,
            decreases n - digits,
        {
            proof {
                if digits < 9 {
                    lemma_dec_value_bound(rest@, digits as int);
                    assert(digits_pow(1) == 10);
                    assert(digits_pow(2) == 100);
                    assert(digits_pow(3) == 1000);
                    assert(digits_pow(4) == 10000);
                    assert(digits_pow(5) == 100000);
                    assert(digits_pow(6) == 1000000);
                    assert(digits_pow(7) == 10000000);
                    assert(digits_pow(8) == 100000000);
                    assert(digits_pow(digits as int) <= 100000000);
                }
            }
            // At most nine digits count, so a prefix worth keeping
            // is below 10^8.
            if value < 100_000_000 {
                value = value * 10 + (rest[digits] - 0x30) as u64;
            }
            digits += 1;
        }
        proof {
            if digits < n {
                assert(digit_run(rest@, digits as int) == 0);
            } else {
                assert(digit_run(rest@, digits as int) == 0);
            }
        }
        if digits > 9 || digits >= n {
            return None;
        }
        let d = rest[digits];
        if d != 0x2e && d != 0x29 {
            return None;
        }
        (true, 0u8, value, d, digits + 1)
    } else {
        return None;
    };
    // The marker must be followed by a space, tab, or the line end.
    if mw < n && rest[mw] != 0x20 && rest[mw] != 0x09 {
        return None;
    }
    // Interrupting a paragraph: an ordered list must start at 1, and
    // the item may not be blank.
    if in_paragraph {
        if ordered && start != 1 {
            return None;
        }
        let mut k = mw;
        let mut after_blank = true;
        while k < n
            invariant
                mw <= k,
                n == rest@.len(),
                after_blank,
                forall|j: int| mw <= j < k ==> #[trigger] rest@[j] == 0x20 || rest@[j] == 0x09,
            decreases n - k,
        {
            if rest[k] != 0x20 && rest[k] != 0x09 {
                after_blank = false;
                break;
            }
            k += 1;
        }
        if after_blank {
            return None;
        }
    }
    Some((ordered, bullet, start, delimiter, mw))
}

} // verus!
