#![verifier::loop_isolation(false)]
//! HTML renderer — walks the block [`Tree`] emitting CommonMark HTML.
//!
//! Newline placement follows the reference renderer's `cr()` convention (a
//! newline only when the output is not already at a line start), which
//! reproduces cmark's whitespace, tight and loose list items included.

use vstd::prelude::*;
use vstd::string::StringSliceAdditionalSpecFns;
use crate::block::{Kind, Tree};
use crate::bytes::{append, append_str, slice, tail, trim, trim_end, WS_NL};
use crate::escape::{escape_attr, escape_html_bytes, esc_text};
use crate::inline::{render_inline_opts, stream_html, Scratch};
use crate::tagfilter::filter_prefix;
use crate::lines::{first_word, trim_ws};
use crate::std_calls::string_from_bytes;
use vstd::string::StringExecFns;
use crate::syntax::unescape_string;
use crate::tagfilter::filter_html;

verus! {

/// `out` after `cr`: a newline is added unless `out` is empty or already
/// ends with one.
pub open spec fn cr_spec(out: Seq<u8>) -> Seq<u8> {
    if out.len() == 0 || out.last() == 0x0a {
        out
    } else {
        out.push(0x0a)
    }
}

/// Line-start law: a second `cr` adds nothing, so block boundaries never
/// produce blank lines between them.
pub proof fn lemma_cr_idempotent(out: Seq<u8>)
    ensures
        cr_spec(cr_spec(out)) == cr_spec(out),
{
}

/// Emit a newline unless `out` is empty or already ends with one.
fn cr(out: &mut Vec<u8>)
    ensures
        final(out)@ == cr_spec(old(out)@),
{
    let n = out.len();
    if n > 0 && out[n - 1] != 0x0a {
        out.push(0x0a);
    }
}

/// Decimal digits of `v`.
pub open spec fn decimal(v: nat) -> Seq<u8>
    decreases v,
{
    if v < 10 {
        seq![(0x30 + v) as u8]
    } else {
        decimal(v / 10).push((0x30 + v % 10) as u8)
    }
}

/// Append `v` in decimal.
pub(crate) fn push_u64(out: &mut Vec<u8>, v: u64)
    ensures
        final(out)@ == old(out)@ + decimal(v as nat),
    decreases v,
{
    if v >= 10 {
        push_u64(out, v / 10);
    }
    out.push((0x30 as u64 + v % 10) as u8);
    proof {
        if v >= 10 {
            assert(old(out)@ + decimal(v as nat) == old(out)@ + decimal((v / 10) as nat) + seq![(0x30 + v % 10) as u8]);
        }
    }
}

/// GFM task list: when paragraph `para` is the first child of a list item
/// and begins with `[ ]`, `[x]` or `[X]` followed by whitespace or its end,
/// append the disabled checkbox and return the 3 marker bytes to skip;
/// otherwise return 0 and append nothing.
fn task_input(tree: &Tree, para: usize, out: &mut Vec<u8>) -> (r: usize)
    requires
        tree.wf(),
        para < tree.node_count(),
    ensures
        r == 0 || r == 3,
        r == 0 ==> final(out)@ == old(out)@,
        r == 3 ==> tree.content_of(para as int).len() >= 3 && tree.content_of(para as int)[0] == 0x5b
            && tree.content_of(para as int)[2] == 0x5d,
{
    let item = tree.parent(para);
    if tree.kind(item) != Kind::Item || tree.first_child(item) != Some(para) {
        return 0;
    }
    let s = tree.content(para);
    if s.len() < 3 || s[0] != 0x5b || s[2] != 0x5d {
        return 0;
    }
    let checked = if s[1] == 0x20 {
        false
    } else if s[1] == 0x78 || s[1] == 0x58 {
        true
    } else {
        return 0;
    };
    if !(s.len() == 3 || s[3] == 0x20 || s[3] == 0x09 || s[3] == 0x0a) {
        return 0;
    }
    if checked {
        append_str(out, "<input checked=\"\" disabled=\"\" type=\"checkbox\">");
    } else {
        append_str(out, "<input disabled=\"\" type=\"checkbox\">");
    }
    3
}

/// A paragraph renders bare (no `<p>`) when it is a direct child of an item
/// in a tight list.
fn in_tight_list(tree: &Tree, para: usize) -> (r: bool)
    requires
        tree.wf(),
        para < tree.node_count(),
    ensures
        r == tight_para(tree, para as int),
{
    let item = tree.parent(para);
    if tree.kind(item) != Kind::Item {
        return false;
    }
    let list = tree.parent(item);
    tree.kind(list) == Kind::List && match tree.list(list) {
        Some(l) => l.tight,
        None => false,
    }
}

/// Per-column GFM table alignment.
#[derive(Clone, Copy)]
pub enum Align {
    Unset,
    Left,
    Center,
    Right,
}

/// Split a table row into cell ranges (within `line` as trimmed of spaces
/// and tabs), honoring `\|` escapes and dropping one optional leading and
/// one trailing pipe. Returns the trimmed row's start and the ranges.
fn split_row_cells(line: &[u8]) -> (r: Vec<(usize, usize)>)
    ensures
        forall|k: int| 0 <= k < r@.len() ==> (#[trigger] r@[k]).0 <= r@[k].1 <= line@.len(),
{
    let len = line.len();
    let a = crate::bytes::lead(line, crate::bytes::SP_TAB);
    let t = trim_end(tail(line, a), crate::bytes::SP_TAB);
    let n = t.len();
    let mut cells: Vec<(usize, usize)> = Vec::new();
    let mut start: usize = 0;
    let mut esc = false;
    let mut k: usize = 0;
    while k < n
        invariant
            start <= k <= n == t@.len(),
            a <= len == line@.len(),
            n <= len - a,
            forall|j: int| 0 <= j < cells@.len() ==> (#[trigger] cells@[j]).0 <= cells@[j].1 <= line@.len(),
        decreases n - k,
    {
        let c = t[k];
        if esc {
            esc = false;
        } else if c == 0x5c {
            esc = true;
        } else if c == 0x7c {
            cells.push((a + start, a + k));
            start = k + 1;
        }
        k += 1;
    }
    let s0 = if start <= n { start } else { n };
    cells.push((a + s0, a + n));
    if cells.len() > 0 && cells[0].0 == cells[0].1 {
        cells.remove(0);
    }
    let m = cells.len();
    if m > 1 && cells[m - 1].0 == cells[m - 1].1 {
        cells.pop();
    }
    cells
}

/// The delimiter cell `delim[s..e]` with surrounding whitespace trimmed.
pub open spec fn trimmed_cell(delim: Seq<u8>, s: int, e: int) -> Seq<u8> {
    let c = delim.subrange(s, e);
    let a = crate::lines::ws_skip_fwd(c, 0);
    c.subrange(a, crate::lines::ws_skip_back(c, a, c.len() as int))
}

/// Does the (trimmed) delimiter cell `c` start with a colon?
pub open spec fn colon_first(c: Seq<u8>) -> bool {
    c.len() > 0 && c[0] == 0x3a
}

/// Does the (trimmed) delimiter cell `c` end with a colon?
pub open spec fn colon_last(c: Seq<u8>) -> bool {
    c.len() > 0 && c[c.len() - 1] == 0x3a
}

/// The alignment that a delimiter cell `c` asks for: centred with a colon on
/// both ends, left with one only at the start, right with one only at the
/// end, none without.
pub open spec fn cell_says(c: Seq<u8>, a: Align) -> bool {
    &&& (a is Center) <==> (colon_first(c) && colon_last(c))
    &&& (a is Left) <==> (colon_first(c) && !colon_last(c))
    &&& (a is Right) <==> (!colon_first(c) && colon_last(c))
    &&& (a is Unset) <==> (!colon_first(c) && !colon_last(c))
}

/// `aligns` holds one alignment per cell range of `cells` within `delim`,
/// each what its trimmed cell asks for.
pub open spec fn aligns_fit(delim: Seq<u8>, cells: Seq<(usize, usize)>, aligns: Seq<Align>) -> bool {
    cells.len() == aligns.len() && forall|k: int|
        0 <= k < aligns.len() ==> (#[trigger] cells[k]).0 <= cells[k].1 <= delim.len()
            && cell_says(trimmed_cell(delim, cells[k].0 as int, cells[k].1 as int), aligns[k])
}

/// Parse the delimiter row into per-column alignments: one per cell, each
/// what its trimmed cell asks for.
fn parse_aligns(delim: &[u8]) -> (r: Vec<Align>)
    ensures
        exists|cells: Seq<(usize, usize)>| #[trigger] aligns_fit(delim@, cells, r@),
{
    let cells = split_row_cells(delim);
    let mut aligns: Vec<Align> = Vec::new();
    let mut k: usize = 0;
    while k < cells.len()
        invariant
            k <= cells@.len(),
            aligns@.len() == k,
            forall|j: int| 0 <= j < cells@.len() ==> (#[trigger] cells@[j]).0 <= cells@[j].1 <= delim@.len(),
            forall|j: int|
                0 <= j < k ==> cell_says(
                    trimmed_cell(delim@, cells@[j].0 as int, cells@[j].1 as int),
                    #[trigger] aligns@[j],
                ),
        decreases cells.len() - k,
    {
        let (s, e) = cells[k];
        let cell = slice(delim, s, e);
        let (ta, tb) = trim_ws(cell);
        let c = slice(cell, ta, tb);
        let left = c.len() > 0 && c[0] == 0x3a;
        let right = c.len() > 0 && c[c.len() - 1] == 0x3a;
        proof {
            let c0 = delim@.subrange(s as int, e as int);
            assert(cell@ == c0);
            assert(c@ == trimmed_cell(delim@, s as int, e as int));
            assert(left == colon_first(c@));
            assert(right == colon_last(c@));
        }
        aligns.push(
            if left && right {
                Align::Center
            } else if left {
                Align::Left
            } else if right {
                Align::Right
            } else {
                Align::Unset
            },
        );
        k += 1;
    }
    proof {
        let cs = cells@.subrange(0, aligns@.len() as int);
        assert forall|j: int| 0 <= j < aligns@.len() implies (#[trigger] cs[j]).0 <= cs[j].1 <= delim@.len()
            && cell_says(trimmed_cell(delim@, cs[j].0 as int, cs[j].1 as int), aligns@[j]) by {
            assert(cs[j] == cells@[j]);
        }
        assert(aligns_fit(delim@, cs, aligns@));
    }
    aligns
}

/// `s` from `i` on with every `\|` replaced by `|`, scanning left to right.
pub open spec fn unpipe_from(s: Seq<u8>, i: int) -> Seq<u8>
    decreases s.len() - i,
{
    if i < 0 || i >= s.len() {
        Seq::empty()
    } else if s[i] == 0x5c && i + 1 < s.len() && s[i + 1] == 0x7c {
        seq![0x7cu8] + unpipe_from(s, i + 2)
    } else {
        seq![s[i]] + unpipe_from(s, i + 1)
    }
}

/// `s` with every `\|` replaced by `|`.
fn unescape_pipes(s: &[u8]) -> (r: Vec<u8>)
    ensures
        r@ == unpipe_from(s@, 0),
{
    let mut out: Vec<u8> = Vec::new();
    let n = s.len();
    let mut i: usize = 0;
    while i < n
        invariant
            i <= n == s@.len(),
            out@ + unpipe_from(s@, i as int) == unpipe_from(s@, 0),
        decreases n - i,
    {
        let ghost prev = out@;
        if s[i] == 0x5c && i + 1 < n && s[i + 1] == 0x7c {
            out.push(0x7c);
            proof {
                assert(out@ + unpipe_from(s@, i + 2) =~= prev + unpipe_from(s@, i as int));
            }
            i += 2;
        } else {
            out.push(s[i]);
            proof {
                assert(out@ + unpipe_from(s@, i + 1) =~= prev + unpipe_from(s@, i as int));
            }
            i += 1;
        }
    }
    proof {
        assert(out@ =~= out@ + unpipe_from(s@, n as int));
    }
    out
}

/// Emit one table row's cells as `<th>`/`<td>` (`header` picks), padded
/// or truncated to the column count and tagged with alignment.
fn emit_row(
    tree: &Tree,
    row: &[u8],
    aligns: &Vec<Align>,
    header: bool,
    out: &mut Vec<u8>,
    scratch: &mut Scratch,
) {
    let cells = split_row_cells(row);
    let tag = if header { "th" } else { "td" };
    let mut col: usize = 0;
    while col < aligns.len()
        invariant
            col <= aligns@.len(),
        decreases aligns.len() - col,
    {
        let raw: &[u8] = if col < cells.len() {
            let (s, e) = cells[col];
            let cell = slice(row, s, e);
            let (a, b) = trim_ws(cell);
            slice(cell, a, b)
        } else {
            slice(row, 0, 0)
        };
        // GFM unescapes `\|` at the table layer, before inline parsing.
        let cell = unescape_pipes(raw);
        out.push(0x3c);
        append_str(out, tag);
        match aligns[col] {
            Align::Unset => {},
            Align::Left => append_str(out, " align=\"left\""),
            Align::Center => append_str(out, " align=\"center\""),
            Align::Right => append_str(out, " align=\"right\""),
        }
        out.push(0x3e);
        render_inline_opts(cell.as_slice(), out, tree.refs(), scratch, tree.options());
        append_str(out, "</");
        append_str(out, tag);
        append_str(out, ">\n");
        col += 1;
    }
}

/// The non-blank lines of `s` (each without its newline and a trailing
/// carriage return), as ranges.
fn nonblank_lines(s: &[u8]) -> (r: Vec<(usize, usize)>)
    ensures
        forall|k: int| 0 <= k < r@.len() ==> (#[trigger] r@[k]).0 <= r@[k].1 <= s@.len(),
{
    let mut lines: Vec<(usize, usize)> = Vec::new();
    let n = s.len();
    let mut start: usize = 0;
    while start < n
        invariant
            start <= n == s@.len(),
            forall|k: int| 0 <= k < lines@.len() ==> (#[trigger] lines@[k]).0 <= lines@[k].1 <= s@.len(),
        decreases n - start,
    {
        let end = match crate::scan::memchr1(tail(s, start), 0x0a) {
            Some(p) => start + p,
            None => n,
        };
        let line = crate::lines::trim_cr(slice(s, start, end));
        let (a, b) = trim_ws(line);
        if a < b {
            lines.push((start, start + line.len()));
        }
        start = if end < n { end + 1 } else { n };
    }
    lines
}

/// Render a GFM pipe table; its content is the header row, the delimiter
/// row, then the data rows.
fn render_table(tree: &Tree, idx: usize, out: &mut Vec<u8>, scratch: &mut Scratch)
    requires
        tree.wf(),
        idx < tree.node_count(),
{
    let content = tree.content(idx);
    let lines = nonblank_lines(content);
    if lines.len() < 2 {
        return;
    }
    let (hs, he) = lines[0];
    let (ds, de) = lines[1];
    let aligns = parse_aligns(slice(content, ds, de));
    cr(out);
    append_str(out, "<table>\n<thead>\n<tr>\n");
    emit_row(tree, slice(content, hs, he), &aligns, true, out, scratch);
    append_str(out, "</tr>\n</thead>\n");
    let mut k: usize = 2;
    while k < lines.len()
        invariant
            k >= 2,
        decreases lines.len() - k,
    {
        if k == 2 {
            append_str(out, "<tbody>\n");
        }
        let (rs, re) = lines[k];
        append_str(out, "<tr>\n");
        emit_row(tree, slice(content, rs, re), &aligns, false, out, scratch);
        append_str(out, "</tr>\n");
        k += 1;
    }
    if lines.len() > 2 {
        append_str(out, "</tbody>\n");
    }
    append_str(out, "</table>");
    cr(out);
}

/// Info strings (first word) that render as a client-side diagram.
pub open spec fn is_diagram_lang(w: Seq<u8>) -> bool {
    w == seq![0x6du8, 0x65, 0x72, 0x6d, 0x61, 0x69, 0x64]
}

fn diagram_lang(w: &[u8]) -> (r: bool)
    ensures
        r == is_diagram_lang(w@),
{
    let r = w.len() == 7 && w[0] == 0x6d && w[1] == 0x65 && w[2] == 0x72 && w[3] == 0x6d && w[4]
        == 0x61 && w[5] == 0x69 && w[6] == 0x64;
    proof {
        if r {
            assert(w@ =~= seq![0x6du8, 0x65, 0x72, 0x6d, 0x61, 0x69, 0x64]);
        }
    }
    r
}

/// Diagram extension: when code block `idx` is tagged with a diagram
/// language (`mermaid`), emit `<pre class="mermaid">` around its escaped
/// source and return `true`; otherwise emit nothing.
fn try_render_diagram(tree: &Tree, idx: usize, out: &mut Vec<u8>) -> (r: bool)
    requires
        idx < tree.node_count(),
    ensures
        !r ==> final(out)@ == old(out)@,
{
    let lang = match first_word(tree.info(idx)) {
        Some(w) => w,
        None => {
            return false;
        },
    };
    if !diagram_lang(lang) {
        return false;
    }
    append_str(out, "<pre class=\"");
    append(out, lang);
    append_str(out, "\">");
    escape_html_bytes(tree.content(idx), out);
    append_str(out, "</pre>");
    true
}

/// Opening or closing tag of a directive element: the name becomes the
/// element, the attributes its attributes.
fn directive_open(tree: &Tree, idx: usize, out: &mut Vec<u8>)
    requires
        idx < tree.node_count(),
{
    match tree.directive(idx) {
        Some(d) => {
            out.push(0x3c);
            append(out, d.name.as_slice());
            let mut k: usize = 0;
            while k < d.attrs.len()
                invariant
                    k <= d.attrs@.len(),
                decreases d.attrs.len() - k,
            {
                out.push(0x20);
                append(out, d.attrs[k].0.as_slice());
                append_str(out, "=\"");
                escape_attr(d.attrs[k].1.as_slice(), out);
                out.push(0x22);
                k += 1;
            }
            out.push(0x3e);
        },
        None => {},
    }
}

fn directive_close(tree: &Tree, idx: usize, out: &mut Vec<u8>)
    requires
        idx < tree.node_count(),
{
    match tree.directive(idx) {
        Some(d) => {
            append_str(out, "</");
            append(out, d.name.as_slice());
            out.push(0x3e);
        },
        None => {},
    }
}

/// A directive's `[label]`, rendered as inline content.
fn directive_label(tree: &Tree, idx: usize, out: &mut Vec<u8>, scratch: &mut Scratch)
    requires
        idx < tree.node_count(),
{
    let label = match tree.directive(idx) {
        Some(d) => d.label,
        None => None,
    };
    match label {
        Some((a, b)) => {
            render_inline_opts(tree.source_range(a, b), out, tree.refs(), scratch, tree.options());
        },
        None => {},
    }
}

/// The opening tag of a list.
pub open spec fn list_open_tag(ordered: bool, start: u64) -> Seq<u8> {
    if ordered {
        if start == 1 {
            "<ol>".spec_bytes()
        } else {
            "<ol start=\"".spec_bytes() + decimal(start as nat) + "\">".spec_bytes()
        }
    } else {
        "<ul>".spec_bytes()
    }
}

/// What node `idx` renders to after `before` with `fuel` levels of nesting
/// left: containers (the document, block quotes, lists, items) around their
/// children, and the leaf blocks [`leaf_html`] fixes; frontmatter and
/// footnote definitions render nothing. `None` when some node under it is
/// of another kind (a table, a definition list, a directive, or a leaf whose
/// HTML is not fixed here).
pub open spec fn node_html(tree: &Tree, idx: int, fuel: nat, before: Seq<u8>) -> Option<Seq<u8>>
    decreases fuel, 0nat, 0nat,
{
    if fuel == 0 {
        Some(before)
    } else {
        let kind = tree.kind_of(idx);
        let first = tree.first_child_of(idx);
        let count = tree.node_count();
        if kind == Kind::Document {
            kids_html(tree, first, count, (fuel - 1) as nat, before)
        } else if kind == Kind::BlockQuote {
            match kids_html(tree, first, count, (fuel - 1) as nat, cr_spec(cr_spec(before) + "<blockquote>".spec_bytes())) {
                Some(h) => Some(cr_spec(cr_spec(h) + "</blockquote>".spec_bytes())),
                None => None,
            }
        } else if kind == Kind::List {
            let (ordered, start) = match tree.list_of(idx) {
                Some(l) => (l.ordered, l.start),
                None => (false, 1u64),
            };
            match kids_html(tree, first, count, (fuel - 1) as nat, cr_spec(before) + list_open_tag(ordered, start)) {
                Some(h) => Some(
                    cr_spec(
                        cr_spec(h) + if ordered {
                            "</ol>".spec_bytes()
                        } else {
                            "</ul>".spec_bytes()
                        },
                    ),
                ),
                None => None,
            }
        } else if kind == Kind::Item {
            match kids_html(tree, first, count, (fuel - 1) as nat, cr_spec(before) + "<li>".spec_bytes()) {
                Some(h) => Some(cr_spec(h + "</li>".spec_bytes())),
                None => None,
            }
        } else if kind == Kind::Frontmatter || kind == Kind::FootnoteDef {
            Some(before)
        } else {
            leaf_html(tree, idx, before)
        }
    }
}

/// What the sibling chain from `c` renders to after `before`, following at
/// most `steps` links, each node with `fuel` levels left.
pub open spec fn kids_html(tree: &Tree, c: Option<usize>, steps: nat, fuel: nat, before: Seq<u8>) -> Option<Seq<u8>>
    decreases fuel, 1nat, steps,
{
    if steps == 0 {
        Some(before)
    } else {
        match c {
            None => Some(before),
            Some(ci) => match node_html(tree, ci as int, fuel, before) {
                Some(h) => kids_html(tree, tree.next_sibling_of(ci as int), (steps - 1) as nat, fuel, h),
                None => None,
            },
        }
    }
}

/// Render the children of node `idx`.
fn children(tree: &Tree, idx: usize, out: &mut Vec<u8>, scratch: &mut Scratch, fuel: usize)
    requires
        tree.wf(),
        idx < tree.node_count(),
    ensures
        kids_html(tree, tree.first_child_of(idx as int), tree.node_count(), fuel as nat, old(out)@) matches Some(h)
            ==> final(out)@ == h,
    decreases fuel, 1nat,
{
    let ghost total = kids_html(tree, tree.first_child_of(idx as int), tree.node_count(), fuel as nat, out@);
    let mut c = tree.first_child(idx);
    let mut steps = tree.len();
    while steps > 0
        invariant
            tree.wf(),
            c matches Some(x) ==> x < tree.node_count(),
            total matches Some(h) ==> kids_html(tree, c, steps as nat, fuel as nat, out@) == Some(h),
        decreases steps,
    {
        let ci = match c {
            Some(x) => x,
            None => {
                break;
            },
        };
        render_node(tree, ci, out, scratch, fuel);
        c = tree.next_sibling(ci);
        steps -= 1;
    }
}

/// The ` class="language-…"` attribute a fenced code block's info string
/// gives: from its first word, unescaped, then escaped; none without a word.
pub open spec fn code_class(info: Seq<u8>) -> Seq<u8> {
    let a = crate::lines::ws_skip_fwd(info, 0);
    if a < info.len() {
        let word = info.subrange(a, crate::lines::word_end(info, a));
        " class=\"language-".spec_bytes() + esc_text(crate::syntax::unescaped_from(word, 0)) + seq![0x22u8]
    } else {
        Seq::empty()
    }
}

/// Paragraph `para` sits directly in an item of a tight list, so it renders
/// without `<p>` tags.
pub open spec fn tight_para(tree: &Tree, para: int) -> bool {
    let item = tree.parent_of(para);
    let list = tree.parent_of(item as int);
    tree.kind_of(item as int) == Kind::Item && tree.kind_of(list as int) == Kind::List && (tree.list_of(
        list as int,
    ) matches Some(l) && l.tight)
}

/// The heading tag digit for `level`.
pub open spec fn heading_digit(level: u8) -> u8 {
    if level <= 9 {
        (0x30 + level) as u8
    } else {
        0x36
    }
}

/// Content that renders through the emphasis- and link-free inline stream
/// under `opts`.
pub open spec fn streamable(s: Seq<u8>, opts: crate::options::Options) -> bool {
    &&& !opts.autolink
    &&& !opts.directives
    &&& forall|k: int| 0 <= k < s.len() ==> !crate::scan::emph_set_spec(#[trigger] s[k], opts.strikethrough)
}

/// What a leaf block renders to after `before`, for the blocks whose HTML is
/// fixed here: a thematic break, an HTML block, a code block (diagrams off),
/// and a heading or paragraph (task lists off) whose content the inline
/// stream renders. `None` for any other node.
pub open spec fn leaf_html(tree: &Tree, idx: int, before: Seq<u8>) -> Option<Seq<u8>> {
    let kind = tree.kind_of(idx);
    let opts = tree.opts_of();
    let content = tree.content_of(idx);
    if kind == Kind::ThematicBreak {
        Some(cr_spec(cr_spec(before) + "<hr />".spec_bytes()))
    } else if kind == Kind::HtmlBlock {
        Some(
            cr_spec(
                cr_spec(before) + (if opts.tagfilter {
                    filter_prefix(content, content.len() as int)
                } else {
                    content
                }),
            ),
        )
    } else if kind == Kind::CodeBlock && !opts.diagram {
        Some(
            cr_spec(
                cr_spec(before) + "<pre><code".spec_bytes() + code_class(tree.info_of(idx)) + seq![0x3eu8]
                    + esc_text(content) + "</code></pre>".spec_bytes(),
            ),
        )
    } else if kind == Kind::Heading && streamable(content, opts) {
        let d = heading_digit(tree.level_of(idx));
        Some(
            cr_spec(
                cr_spec(before) + "<h".spec_bytes() + seq![d, 0x3eu8] + stream_html(content, opts.hard_wraps, opts.tagfilter)
                    + "</h".spec_bytes() + seq![d, 0x3eu8],
            ),
        )
    } else if kind == Kind::Paragraph && !opts.tasklist && streamable(content, opts) {
        if tight_para(tree, idx) {
            Some(before + stream_html(content, opts.hard_wraps, opts.tagfilter))
        } else {
            Some(
                cr_spec(
                    cr_spec(before) + "<p>".spec_bytes() + stream_html(content, opts.hard_wraps, opts.tagfilter)
                        + "</p>".spec_bytes(),
                ),
            )
        }
    } else {
        None
    }
}

#[verifier::rlimit(40)]
fn render_node(tree: &Tree, idx: usize, out: &mut Vec<u8>, scratch: &mut Scratch, fuel: usize)
    requires
        tree.wf(),
        idx < tree.node_count(),
    ensures
        fuel > 0 && tree.kind_of(idx as int) == Kind::ThematicBreak ==> final(out)@ == cr_spec(
            cr_spec(old(out)@) + "<hr />".spec_bytes(),
        ),
        fuel > 0 && tree.kind_of(idx as int) == Kind::HtmlBlock ==> final(out)@ == cr_spec(
            cr_spec(old(out)@) + (if tree.opts_of().tagfilter {
                filter_prefix(tree.content_of(idx as int), tree.content_of(idx as int).len() as int)
            } else {
                tree.content_of(idx as int)
            }),
        ),
        fuel > 0 && tree.kind_of(idx as int) == Kind::CodeBlock && !tree.opts_of().diagram ==> final(out)@
            == cr_spec(
            cr_spec(old(out)@) + "<pre><code".spec_bytes() + code_class(tree.info_of(idx as int)) + seq![0x3eu8]
                + esc_text(tree.content_of(idx as int)) + "</code></pre>".spec_bytes(),
        ),
        fuel > 0 && tree.kind_of(idx as int) == Kind::Heading && streamable(tree.content_of(idx as int), tree.opts_of())
            ==> final(out)@ == cr_spec(
            cr_spec(old(out)@) + "<h".spec_bytes() + seq![heading_digit(tree.level_of(idx as int)), 0x3eu8]
                + stream_html(tree.content_of(idx as int), tree.opts_of().hard_wraps, tree.opts_of().tagfilter)
                + "</h".spec_bytes() + seq![heading_digit(tree.level_of(idx as int)), 0x3eu8],
        ),
        fuel > 0 && tree.kind_of(idx as int) == Kind::Paragraph && !tree.opts_of().tasklist && streamable(
            tree.content_of(idx as int),
            tree.opts_of(),
        ) ==> final(out)@ == if tight_para(tree, idx as int) {
            old(out)@ + stream_html(tree.content_of(idx as int), tree.opts_of().hard_wraps, tree.opts_of().tagfilter)
        } else {
            cr_spec(
                cr_spec(old(out)@) + "<p>".spec_bytes() + stream_html(
                    tree.content_of(idx as int),
                    tree.opts_of().hard_wraps,
                    tree.opts_of().tagfilter,
                ) + "</p>".spec_bytes(),
            )
        },
        fuel > 0 ==> (leaf_html(tree, idx as int, old(out)@) matches Some(h) ==> final(out)@ == h),
        node_html(tree, idx as int, fuel as nat, old(out)@) matches Some(h) ==> final(out)@ == h,
    decreases fuel, 0nat,
{
    if fuel == 0 {
        return;
    }
    let opts = tree.options();
    let kind = tree.kind(idx);
    match kind {
        Kind::Document => children(tree, idx, out, scratch, fuel - 1),
        Kind::Paragraph => {
            let tight = in_tight_list(tree, idx);
            if !tight {
                cr(out);
                append_str(out, "<p>");
            }
            // GFM task list: a list item's first paragraph led by `[ ]`/`[x]`
            // emits a checkbox and drops the marker.
            let skip = if opts.tasklist {
                task_input(tree, idx, out)
            } else {
                0
            };
            let ghost open = out@;
            let body = tail(tree.content(idx), skip);
            proof {
                if !opts.tasklist {
                    assert(body@ =~= tree.content_of(idx as int));
                }
            }
            render_inline_opts(body, out, tree.refs(), scratch, opts);
            if !tight {
                append_str(out, "</p>");
                cr(out);
            }
        },
        Kind::Heading => {
            let level = tree.level(idx);
            let digit: u8 = if level <= 9 { 0x30 + level } else { 0x36 };
            cr(out);
            append_str(out, "<h");
            out.push(digit);
            out.push(0x3e);
            let ghost open = out@;
            render_inline_opts(tree.content(idx), out, tree.refs(), scratch, opts);
            let ghost body = out@;
            append_str(out, "</h");
            out.push(digit);
            out.push(0x3e);
            proof {
                if streamable(tree.content_of(idx as int), tree.opts_of()) {
                    assert(out@ =~= open + stream_html(tree.content_of(idx as int), opts.hard_wraps, opts.tagfilter)
                        + "</h".spec_bytes() + seq![digit, 0x3eu8]);
                }
            }
            cr(out);
        },
        Kind::ThematicBreak => {
            cr(out);
            append_str(out, "<hr />");
            cr(out);
        },
        Kind::CodeBlock => {
            cr(out);
            if !(opts.diagram && try_render_diagram(tree, idx, out)) {
                append_str(out, "<pre><code");
                let ghost before_class = out@;
                match first_word(tree.info(idx)) {
                    Some(word) => {
                        append_str(out, " class=\"language-");
                        escape_html_bytes(unescape_string(word).as_slice(), out);
                        out.push(0x22);
                    },
                    None => {},
                }
                proof {
                    assert(out@ =~= before_class + code_class(tree.info_of(idx as int)));
                }
                out.push(0x3e);
                escape_html_bytes(tree.content(idx), out);
                append_str(out, "</code></pre>");
            }
            cr(out);
        },
        Kind::HtmlBlock => {
            cr(out);
            if opts.tagfilter {
                filter_html(tree.content(idx), out);
            } else {
                append(out, tree.content(idx));
            }
            cr(out);
        },
        Kind::BlockQuote => {
            cr(out);
            append_str(out, "<blockquote>");
            cr(out);
            let ghost b1 = out@;
            children(tree, idx, out, scratch, fuel - 1);
            let ghost h1 = out@;
            cr(out);
            append_str(out, "</blockquote>");
            cr(out);
            proof {
                assert(b1 == cr_spec(cr_spec(old(out)@) + "<blockquote>".spec_bytes()));
                if node_html(tree, idx as int, fuel as nat, old(out)@) is Some {
                    assert(kids_html(tree, tree.first_child_of(idx as int), tree.node_count(), (fuel - 1) as nat, b1) == Some(h1));
                }
            }
        },
        Kind::List => {
            let (ordered, start) = match tree.list(idx) {
                Some(l) => (l.ordered, l.start),
                None => (false, 1),
            };
            cr(out);
            if ordered {
                if start == 1 {
                    append_str(out, "<ol>");
                } else {
                    append_str(out, "<ol start=\"");
                    push_u64(out, start);
                    append_str(out, "\">");
                }
            } else {
                append_str(out, "<ul>");
            }
            let ghost b1 = out@;
            proof {
                assert(b1 == cr_spec(old(out)@) + list_open_tag(ordered, start));
            }
            children(tree, idx, out, scratch, fuel - 1);
            let ghost h1 = out@;
            cr(out);
            if ordered {
                append_str(out, "</ol>");
            } else {
                append_str(out, "</ul>");
            }
            cr(out);
            proof {
                if node_html(tree, idx as int, fuel as nat, old(out)@) is Some {
                    assert(kids_html(tree, tree.first_child_of(idx as int), tree.node_count(), (fuel - 1) as nat, b1) == Some(h1));
                }
            }
        },
        Kind::Item => {
            cr(out);
            append_str(out, "<li>");
            let ghost b1 = out@;
            children(tree, idx, out, scratch, fuel - 1);
            let ghost h1 = out@;
            append_str(out, "</li>");
            cr(out);
            proof {
                assert(b1 == cr_spec(old(out)@) + "<li>".spec_bytes());
                if node_html(tree, idx as int, fuel as nat, old(out)@) is Some {
                    assert(kids_html(tree, tree.first_child_of(idx as int), tree.node_count(), (fuel - 1) as nat, b1) == Some(h1));
                }
            }
        },
        Kind::Table => render_table(tree, idx, out, scratch),
        Kind::DefList => {
            cr(out);
            append_str(out, "<dl>");
            cr(out);
            children(tree, idx, out, scratch, fuel - 1);
            cr(out);
            append_str(out, "</dl>");
            cr(out);
        },
        Kind::DefTerm => {
            // Each non-blank line of the term holder is one term.
            let content = tree.content(idx);
            let lines = nonblank_lines(content);
            let mut k: usize = 0;
            while k < lines.len()
                invariant
                    k <= lines@.len(),
                decreases lines.len() - k,
            {
                let (s, e) = lines[k];
                let line = slice(content, s, e);
                let (a, b) = trim_ws(line);
                cr(out);
                append_str(out, "<dt>");
                render_inline_opts(slice(line, a, b), out, tree.refs(), scratch, opts);
                append_str(out, "</dt>");
                cr(out);
                k += 1;
            }
        },
        Kind::DefDesc => {
            let loose = tree.level(idx) == 1;
            cr(out);
            append_str(out, "<dd>");
            if loose {
                // A loose description wraps its body in a paragraph.
                cr(out);
                append_str(out, "<p>");
                render_inline_opts(trim(tree.content(idx), WS_NL), out, tree.refs(), scratch, opts);
                append_str(out, "</p>");
                cr(out);
            } else {
                render_inline_opts(tree.content(idx), out, tree.refs(), scratch, opts);
            }
            append_str(out, "</dd>");
            cr(out);
        },
        Kind::LeafDirective => {
            cr(out);
            directive_open(tree, idx, out);
            directive_label(tree, idx, out, scratch);
            directive_close(tree, idx, out);
            cr(out);
        },
        Kind::ContainerDirective => {
            cr(out);
            directive_open(tree, idx, out);
            cr(out);
            children(tree, idx, out, scratch, fuel - 1);
            cr(out);
            directive_close(tree, idx, out);
            cr(out);
        },
        // Frontmatter renders to nothing; footnote definitions are not part
        // of the HTML body.
        Kind::Frontmatter | Kind::FootnoteDef => {},
    }
}

/// The bytes of `<a href="`.
pub const LINK_OPEN: [u8; 9] = [0x3c, 0x61, 0x20, 0x68, 0x72, 0x65, 0x66, 0x3d, 0x22];

/// The bytes of `http://`.
pub const HTTP_SCHEME: [u8; 7] = [0x68, 0x74, 0x74, 0x70, 0x3a, 0x2f, 0x2f];

/// The bytes of `https://`.
pub const HTTPS_SCHEME: [u8; 8] = [0x68, 0x74, 0x74, 0x70, 0x73, 0x3a, 0x2f, 0x2f];

/// The bytes of ` rel="nofollow"`.
pub const NOFOLLOW: [u8; 15] = [0x20, 0x72, 0x65, 0x6c, 0x3d, 0x22, 0x6e, 0x6f, 0x66, 0x6f, 0x6c, 0x6c, 0x6f, 0x77, 0x22];

/// `html` from `i` on with ` rel="nofollow"` put before the `>` of each
/// `<a href="` tag whose href starts with `http://` or `https://`.
pub open spec fn nofollow_from(html: Seq<u8>, i: int) -> Seq<u8>
    decreases html.len() - i,
{
    if i < 0 || i >= html.len() {
        Seq::empty()
    } else if crate::bytes::occurs_at(html, LINK_OPEN@, i) {
        let href = i + 9;
        let g = crate::bytes::first_byte_from(html, href, 0x3e);
        if (crate::bytes::occurs_at(html, HTTP_SCHEME@, href) || crate::bytes::occurs_at(html, HTTPS_SCHEME@, href))
            && g < html.len() {
            proof {
                lemma_first_byte_from_ge(html, href, 0x3e);
            }
            html.subrange(i, g) + NOFOLLOW@ + nofollow_from(html, g)
        } else {
            html.subrange(i, href) + nofollow_from(html, href)
        }
    } else {
        seq![html[i]] + nofollow_from(html, i + 1)
    }
}

/// The first `c` from `i` on is at or after `i`.
pub proof fn lemma_first_byte_from_ge(s: Seq<u8>, i: int, c: u8)
    ensures
        crate::bytes::first_byte_from(s, i, c) >= i || crate::bytes::first_byte_from(s, i, c) == s.len(),
{
    if exists|g: int| crate::bytes::is_first_byte(s, i, c, g) {
        let g = choose|g: int| crate::bytes::is_first_byte(s, i, c, g);
        assert(g >= i);
    }
}

/// For the `<a href="` at `i`: the index of the tag's closing `>` when the
/// href starts with `http://` or `https://` and the tag closes.
fn nofollow_target(html: &[u8], i: usize) -> (r: Option<usize>)
    requires
        crate::bytes::occurs_at(html@, LINK_OPEN@, i as int),
    ensures
        ({
            let href = i + 9;
            let g = crate::bytes::first_byte_from(html@, href, 0x3e);
            let external = crate::bytes::occurs_at(html@, HTTP_SCHEME@, href) || crate::bytes::occurs_at(
                html@,
                HTTPS_SCHEME@,
                href,
            );
            &&& (r matches Some(gt) ==> external && g < html@.len() && gt == g)
            &&& (r is None ==> !(external && g < html@.len()))
        }),
{
    let n = html.len();
    let href = i + LINK_OPEN.len();
    let external = crate::bytes::starts_at(html, href, HTTP_SCHEME.as_slice())
        || crate::bytes::starts_at(html, href, HTTPS_SCHEME.as_slice());
    let from = tail(html, href);
    let found = crate::scan::memchr1(from, 0x3e);
    proof {
        assert(from@ =~= html@.subrange(href as int, n as int));
        crate::bytes::lemma_first_byte(html@, href as int, 0x3e, found);
    }
    if external {
        match found {
            Some(k) => Some(href + k),
            None => None,
        }
    } else {
        None
    }
}

/// External-link transform, a pass over rendered HTML: every `<a href="…">`
/// whose href begins with `http://` or `https://` gets ` rel="nofollow"`
/// before the tag's closing `>`. (`<a href="` only ever appears in real link
/// tags, since text is escaped.) HTML without a link tag is copied as is.
#[verifier::rlimit(40)]
pub fn add_nofollow(html: &[u8], out: &mut Vec<u8>)
    ensures
        final(out)@ == old(out)@ + nofollow_from(html@, 0),
        !(exists|q: int| crate::bytes::occurs_at(html@, LINK_OPEN@, q)) ==> final(out)@ == old(out)@
            + html@,
{
    let n = html.len();
    let mut i: usize = 0;
    let mut copied: usize = 0;
    let ghost mut none = !(exists|q: int| crate::bytes::occurs_at(html@, LINK_OPEN@, q));
    while i < n
        invariant
            copied <= i <= n == html@.len(),
            none ==> copied == 0 && out@ == old(out)@,
            none == !(exists|q: int| crate::bytes::occurs_at(html@, LINK_OPEN@, q)),
            out@ + html@.subrange(copied as int, i as int) + nofollow_from(html@, i as int) == old(out)@
                + nofollow_from(html@, 0),
        decreases n - i,
    {
        let ghost prev = out@;
        let ghost pending = html@.subrange(copied as int, i as int);
        if crate::bytes::starts_at(html, i, LINK_OPEN.as_slice()) {
            proof {
                assert(crate::bytes::occurs_at(html@, LINK_OPEN@, i as int));
            }
            let href = i + LINK_OPEN.len();
            match nofollow_target(html, i) {
                Some(gt) => {
                    append(out, slice(html, copied, gt));
                    append(out, NOFOLLOW.as_slice());
                    proof {
                        assert(html@.subrange(copied as int, gt as int) =~= pending + html@.subrange(i as int, gt as int));
                        assert(out@ + html@.subrange(gt as int, gt as int) + nofollow_from(html@, gt as int) =~= prev + pending
                            + nofollow_from(html@, i as int));
                    }
                    copied = gt;
                    i = gt + 1;
                    proof {
                        assert(LINK_OPEN@[0] == 0x3c);
                        if crate::bytes::occurs_at(html@, LINK_OPEN@, gt as int) {
                            assert(html@.subrange(gt as int, gt + 9)[0] == html@[gt as int]);
                        }
                        assert(html@.subrange(gt as int, i as int) + nofollow_from(html@, i as int) =~= nofollow_from(html@, gt as int));
                    }
                },
                None => {
                    proof {
                        assert(pending + html@.subrange(i as int, href as int) =~= html@.subrange(copied as int, href as int));
                    }
                    i = href;
                },
            }
        } else {
            proof {
                assert(html@.subrange(copied as int, i + 1) =~= pending.push(html@[i as int]));
                assert(pending + nofollow_from(html@, i as int) =~= html@.subrange(copied as int, i + 1)
                    + nofollow_from(html@, i + 1));
            }
            i += 1;
        }
    }
    let rest = tail(html, copied);
    proof {
        assert(rest@ =~= html@.subrange(copied as int, n as int));
        if none {
            assert(rest@ =~= html@);
        }
    }
    append(out, rest);
}

/// The HTML bytes of a whole document, when [`node_html`] fixes what every
/// child of the root renders to: the root's children in order, and with
/// external links on, `rel="nofollow"` added to external links.
pub open spec fn doc_html(tree: &Tree) -> Option<Seq<u8>> {
    match kids_html(tree, tree.first_child_of(0), tree.node_count(), tree.node_count(), Seq::empty()) {
        Some(b) => Some(
            if tree.opts_of().external_links {
                nofollow_from(b, 0)
            } else {
                b
            },
        ),
        None => None,
    }
}

/// Render `tree` into `out` as UTF-8 bytes.
pub fn render_bytes(tree: &Tree, out: &mut Vec<u8>, scratch: &mut Scratch)
    requires
        tree.wf(),
    ensures
        kids_html(tree, tree.first_child_of(0), tree.node_count(), tree.node_count(), old(out)@) matches Some(h)
            ==> final(out)@ == h,
{
    proof {
        tree.lemma_root();
    }
    let depth = tree.len();
    children(tree, 0, out, scratch, depth);
}

/// Render `tree` into a caller-owned string with a caller-owned scratch,
/// both reusable across renders. The caller clears `out`.
pub fn render_with(tree: &Tree, out: &mut String, scratch: &mut Scratch)
    requires
        tree.wf(),
    ensures
        exists|h: Seq<char>| final(out)@ == old(out)@ + h,
        doc_html(tree) matches Some(h) ==> (vstd::utf8::valid_utf8(h) ==> final(out)@ == old(out)@
            + vstd::utf8::decode_utf8(h)),
{
    let mut bytes: Vec<u8> = Vec::new();
    render_bytes(tree, &mut bytes, scratch);
    if tree.options().external_links {
        let mut linked: Vec<u8> = Vec::new();
        add_nofollow(bytes.as_slice(), &mut linked);
        proof {
            assert(linked@ =~= nofollow_from(bytes@, 0));
        }
        bytes = linked;
    }
    let s = string_from_bytes(bytes.as_slice());
    out.append(s.as_str());
}

/// Render a parsed [`Tree`] to an HTML string.
pub fn render(tree: &Tree) -> (r: String)
    requires
        tree.wf(),
    ensures
        doc_html(tree) matches Some(h) ==> (vstd::utf8::valid_utf8(h) ==> r@ == vstd::utf8::decode_utf8(h)),
{
    let mut out = String::new();
    let mut scratch = Scratch::new();
    render_with(tree, &mut out, &mut scratch);
    out
}

/// Append `s` to `out`, escaping the HTML-text specials `&`, `<`, `>`, `"`.
pub fn escape_html(s: &str, out: &mut String)
    ensures
        vstd::utf8::valid_utf8(esc_text(s.spec_bytes())),
        final(out)@ == old(out)@ + vstd::utf8::decode_utf8(esc_text(s.spec_bytes())),
{
    proof {
        vstd::utf8::encode_utf8_valid_utf8(s@);
        crate::escape::lemma_esc_text_valid(s.spec_bytes());
    }
    let mut bytes: Vec<u8> = Vec::new();
    escape_html_bytes(s.as_bytes(), &mut bytes);
    proof {
        assert(bytes@ == esc_text(s.spec_bytes()));
    }
    let t = string_from_bytes(bytes.as_slice());
    out.append(t.as_str());
}

} // verus!
