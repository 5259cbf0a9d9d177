#![verifier::loop_isolation(false)]
//! Inline parser.
//!
//! A left-to-right scan over a block's raw text builds a doubly-linked node
//! list; emphasis and links — which resolve non-locally — are handled with a
//! delimiter stack and resolved before the list is rendered. Text without
//! emphasis or link openers streams straight to the output.

use vstd::prelude::*;
use vstd::string::StringSliceAdditionalSpecFns;
use crate::bytes::{append, append_str, first_byte_from, is_punct_spec, run_len, slice, tail, trim_end, trim_end_spec, SP};
use crate::chars::{boundary_punct, boundary_ws, char_at, char_before};
use crate::escape::{esc_byte, esc_text, escape_attr, escape_href, escape_html_bytes, push_escaped_byte};
use crate::entities::entity_value;
use crate::tagfilter::filter_prefix;
use vstd::utf8::encode_scalar;
use crate::gfm::{
    al_boundary, emit_email, emit_url, gfm_scan_email, gfm_scan_url, gfm_scan_url_at_colon,
    strip_tags,
};
use crate::directive::{parse_header, Header};
use crate::links::{normalize_label, parse_inline_paren, read_bracket_label};
use crate::options::Options;
use crate::refmap::RefMap;
use crate::scan::{find_emph_with, find_inline_with, find_stream_with, stream_set_spec};
use crate::std_calls::string_from_bytes;
use vstd::string::StringExecFns;
use crate::syntax::{
    alnum_end, autolink_html, code_close, code_inner, email_spec, numeric_ref, raw_html_len, run_end, uri_at,
    SP_TAB_CLASS, parse_entity, push_char_escaped, push_str_escaped, skip_spaces, try_autolink, try_code_span,
    try_raw_html, unescape_string, Resolved,
};
use crate::tagfilter::filter_html;

verus! {

/// A static tag or literal in the node list.
#[derive(Clone, Copy, PartialEq, Eq)]
pub enum Tag {
    /// An unconsumed `[`.
    Open,
    /// An unconsumed `![`.
    ImgOpen,
    /// An unconsumed `]`.
    Close,
    /// `</a>`
    LinkClose,
    /// `<em>`, with the slot of the delimiter run whose characters it took.
    EmOpen(usize),
    /// `</em>`, with the slot of the delimiter run whose characters it took.
    EmClose(usize),
    /// `<strong>`, with the slot of the delimiter run whose characters it
    /// took.
    StrongOpen(usize),
    /// `</strong>`, with the slot of the delimiter run whose characters it
    /// took.
    StrongClose(usize),
    /// `<del>`, with the slot of the delimiter run whose characters it took.
    DelOpen(usize),
    /// `</del>`, with the slot of the delimiter run whose characters it took.
    DelClose(usize),
}

/// Append the text of a tag.
fn push_tag(t: Tag, out: &mut Vec<u8>) {
    match t {
        Tag::Open => append_str(out, "["),
        Tag::ImgOpen => append_str(out, "!["),
        Tag::Close => append_str(out, "]"),
        Tag::LinkClose => append_str(out, "</a>"),
        Tag::EmOpen(_) => append_str(out, "<em>"),
        Tag::EmClose(_) => append_str(out, "</em>"),
        Tag::StrongOpen(_) => append_str(out, "<strong>"),
        Tag::StrongClose(_) => append_str(out, "</strong>"),
        Tag::DelOpen(_) => append_str(out, "<del>"),
        Tag::DelClose(_) => append_str(out, "</del>"),
    }
}

/// An inline node.
#[derive(Clone, Copy)]
pub enum Node {
    /// A `[start, end)` range of computed HTML in the scratch buffer.
    Span { start: usize, end: usize },
    /// A run of emphasis delimiters, literal until paired.
    Delim { ch: u8, count: usize, orig: usize, can_open: bool, can_close: bool },
    /// A static tag/literal.
    Tag(Tag),
}

#[derive(Clone, Copy)]
pub struct Slot {
    pub node: Node,
    pub prev: Option<usize>,
    pub next: Option<usize>,
}

/// A doubly-linked list over an append-only slot arena (slots are never
/// freed, only unlinked, so indices stay stable for the delimiter stack).
pub struct List {
    pub slots: Vec<Slot>,
    pub head: Option<usize>,
    pub tail: Option<usize>,
}

/// `o` is absent or a valid index below `n`.
pub open spec fn link_ok(o: Option<usize>, n: int) -> bool {
    match o {
        Some(x) => x < n,
        None => true,
    }
}

impl List {
    /// Every link points into the arena.
    pub open spec fn wf(&self) -> bool {
        &&& link_ok(self.head, self.slots@.len() as int)
        &&& link_ok(self.tail, self.slots@.len() as int)
        &&& forall|i: int|
            0 <= i < self.slots@.len() ==> link_ok((#[trigger] self.slots@[i]).prev, self.slots@.len() as int)
                && link_ok(self.slots@[i].next, self.slots@.len() as int)
    }

    fn new() -> (l: Self)
        ensures
            l.wf(),
            l.slots@.len() == 0,
    {
        List { slots: Vec::new(), head: None, tail: None }
    }

    /// Append `node` at the end of the list; returns its slot.
    fn push(&mut self, node: Node) -> (idx: usize)
        requires
            old(self).wf(),
        ensures
            final(self).wf(),
            idx == old(self).slots@.len(),
            final(self).slots@.len() == old(self).slots@.len() + 1,
            final(self).slots@[idx as int].node == node,
            forall|k: int| 0 <= k < idx ==> (#[trigger] final(self).slots@[k]).node == old(self).slots@[k].node,
            slots_kept(old(self).slots@, final(self).slots@),
    {
        let idx = self.slots.len();
        let t = self.tail;
        self.slots.push(Slot { node, prev: t, next: None });
        match t {
            Some(t) => {
                self.slots[t].next = Some(idx);
            },
            None => {
                self.head = Some(idx);
            },
        }
        self.tail = Some(idx);
        idx
    }

    /// Insert `node` right after slot `at`; returns its slot.
    fn splice_after(&mut self, at: usize, node: Node) -> (idx: usize)
        requires
            old(self).wf(),
            at < old(self).slots@.len(),
        ensures
            final(self).wf(),
            idx == old(self).slots@.len(),
            final(self).slots@.len() == old(self).slots@.len() + 1,
            final(self).slots@[idx as int].node == node,
            forall|k: int| 0 <= k < idx ==> (#[trigger] final(self).slots@[k]).node == old(self).slots@[k].node,
            slots_kept(old(self).slots@, final(self).slots@),
    {
        let idx = self.slots.len();
        let next = self.slots[at].next;
        self.slots.push(Slot { node, prev: Some(at), next });
        self.slots[at].next = Some(idx);
        match next {
            Some(n) => {
                self.slots[n].prev = Some(idx);
            },
            None => {
                self.tail = Some(idx);
            },
        }
        idx
    }

    /// Insert `node` right before slot `at`; returns its slot.
    fn splice_before(&mut self, at: usize, node: Node) -> (idx: usize)
        requires
            old(self).wf(),
            at < old(self).slots@.len(),
        ensures
            final(self).wf(),
            idx == old(self).slots@.len(),
            final(self).slots@.len() == old(self).slots@.len() + 1,
            final(self).slots@[idx as int].node == node,
            forall|k: int| 0 <= k < idx ==> (#[trigger] final(self).slots@[k]).node == old(self).slots@[k].node,
            slots_kept(old(self).slots@, final(self).slots@),
    {
        let idx = self.slots.len();
        let prev = self.slots[at].prev;
        self.slots.push(Slot { node, prev, next: Some(at) });
        self.slots[at].prev = Some(idx);
        match prev {
            Some(p) => {
                self.slots[p].next = Some(idx);
            },
            None => {
                self.head = Some(idx);
            },
        }
        idx
    }

    /// Unlink slot `idx` from the list (the slot stays in the arena).
    fn unlink(&mut self, idx: usize)
        requires
            old(self).wf(),
            idx < old(self).slots@.len(),
        ensures
            final(self).wf(),
            final(self).slots@.len() == old(self).slots@.len(),
            forall|k: int| 0 <= k < final(self).slots@.len() ==> (#[trigger] final(self).slots@[k]).node == old(self).slots@[k].node,
            slots_kept(old(self).slots@, final(self).slots@),
    {
        let prev = self.slots[idx].prev;
        let next = self.slots[idx].next;
        match prev {
            Some(p) => {
                self.slots[p].next = next;
            },
            None => {
                self.head = next;
            },
        }
        match next {
            Some(n) => {
                self.slots[n].prev = prev;
            },
            None => {
                self.tail = prev;
            },
        }
    }

    /// Replace the node held by slot `idx`.
    fn set_node(&mut self, idx: usize, node: Node)
        requires
            old(self).wf(),
            idx < old(self).slots@.len(),
        ensures
            final(self).wf(),
            final(self).slots@.len() == old(self).slots@.len(),
            final(self).slots@[idx as int].node == node,
            forall|k: int| 0 <= k < final(self).slots@.len() && k != idx ==> (#[trigger] final(self).slots@[k]).node == old(self).slots@[k].node,
    {
        self.slots[idx].node = node;
    }
}

/// Render a single node to `out`; `cur` backs `Span` nodes.
fn render_node(node: Node, cur: &[u8], out: &mut Vec<u8>) {
    match node {
        Node::Span { start, end } => append(out, slice(cur, start, end)),
        Node::Tag(t) => push_tag(t, out),
        Node::Delim { ch, count, .. } => {
            let mut k: usize = 0;
            while k < count
                decreases count - k,
            {
                out.push(ch);
                k += 1;
            }
        },
    }
}

/// Render the list to `out`, from its head (at most one visit per slot).
fn render_list(list: &List, cur: &[u8], out: &mut Vec<u8>)
    requires
        list.wf(),
{
    let mut node = list.head;
    let mut fuel = list.slots.len();
    while node.is_some() && fuel > 0
        invariant
            link_ok(node, list.slots@.len() as int),
        decreases fuel,
    {
        let idx = node.unwrap();
        render_node(list.slots[idx].node, cur, out);
        node = list.slots[idx].next;
        fuel -= 1;
    }
}

/// A delimiter-stack entry.
#[derive(Clone, Copy)]
pub enum StackItem {
    /// Emphasis delimiter run; the data lives in the `Node::Delim` at `node`.
    Emph(usize),
    /// A `[` (or `![`) opener; `text_src` is the source offset just after it.
    Bracket { node: usize, image: bool, active: bool, text_src: usize },
}

/// The slot an entry refers to.
pub open spec fn item_node(e: StackItem) -> usize {
    match e {
        StackItem::Emph(n) => n,
        StackItem::Bracket { node, .. } => node,
    }
}

fn stack_node(e: StackItem) -> (r: usize)
    ensures
        r == item_node(e),
{
    match e {
        StackItem::Emph(n) => n,
        StackItem::Bracket { node, .. } => node,
    }
}

/// Every stack entry refers to a slot of the arena.
pub open spec fn stack_ok(stack: Seq<StackItem>, n: int) -> bool {
    forall|k: int| 0 <= k < stack.len() ==> item_node(#[trigger] stack[k]) < n
}

/// Remove the entries `[a, b)` of the stack.
fn remove_range(stack: &mut Vec<StackItem>, a: usize, b: usize)
    requires
        a <= b <= old(stack)@.len(),
    ensures
        final(stack)@ == old(stack)@.subrange(0, a as int) + old(stack)@.subrange(b as int, old(stack)@.len() as int),
{
    let mut out: Vec<StackItem> = Vec::new();
    let mut k: usize = 0;
    while k < stack.len()
        invariant
            k <= stack@.len(),
            stack@ == old(stack)@,
            out@ == (if k <= a {
                old(stack)@.subrange(0, k as int)
            } else if k <= b {
                old(stack)@.subrange(0, a as int)
            } else {
                old(stack)@.subrange(0, a as int) + old(stack)@.subrange(b as int, k as int)
            }),
        decreases stack@.len() - k,
    {
        if k < a || k >= b {
            out.push(stack[k]);
        }
        proof {
            if k < a {
                assert(old(stack)@.subrange(0, k + 1) =~= old(stack)@.subrange(0, k as int).push(old(stack)@[k as int]));
            } else if k >= b {
                assert(old(stack)@.subrange(b as int, k + 1) =~= old(stack)@.subrange(b as int, k as int).push(old(stack)@[k as int]));
            }
        }
        k += 1;
    }
    proof {
        if stack@.len() <= a {
            assert(old(stack)@.subrange(b as int, old(stack)@.len() as int) =~= Seq::<StackItem>::empty());
        } else if stack@.len() <= b {
            assert(old(stack)@.subrange(b as int, old(stack)@.len() as int) =~= Seq::<StackItem>::empty());
        }
    }
    *stack = out;
}

/// The fields of the delimiter node at `idx`, if it is one.
fn delim(list: &List, idx: usize) -> (r: Option<(u8, usize, usize, bool, bool)>)
    requires
        idx < list.slots@.len(),
    ensures
        r matches Some((ch, count, orig, o, c)) ==> list.slots@[idx as int].node == (Node::Delim { ch, count, orig, can_open: o, can_close: c }),
        r is None ==> !(list.slots@[idx as int].node is Delim),
{
    match list.slots[idx].node {
        Node::Delim { ch, count, orig, can_open, can_close } => Some(
            (ch, count, orig, can_open, can_close),
        ),
        _ => None,
    }
}

/// The remaining count of the delimiter node at `idx` (0 for other nodes).
pub open spec fn count_of(list: &List, idx: usize) -> int {
    match list.slots@[idx as int].node {
        Node::Delim { count, .. } => count as int,
        _ => 0,
    }
}

/// The character of the delimiter run held by slot `k` of `s`, if it holds
/// one.
pub open spec fn run_char(s: Seq<Slot>, k: int) -> Option<u8> {
    if 0 <= k < s.len() {
        match s[k].node {
            Node::Delim { ch, .. } => Some(ch),
            _ => None,
        }
    } else {
        None
    }
}

/// The runs at slots `o` and `c` of `s` are of one character, `*` or `_`
/// for emphasis (`strike` false), `~` for strikethrough.
pub open spec fn runs_pair(s: Seq<Slot>, o: int, c: int, strike: bool) -> bool {
    &&& run_char(s, o) is Some
    &&& run_char(s, o) == run_char(s, c)
    &&& if strike {
        run_char(s, o) == Some(0x7eu8)
    } else {
        run_char(s, o) != Some(0x7eu8)
    }
}

/// Slots `k` and `k + 1` of `s` hold an opening tag and its closing tag,
/// both taken from delimiter runs of one character.
pub open spec fn tag_pair_ok(s: Seq<Slot>, k: int) -> bool {
    &&& 0 <= k
    &&& k + 1 < s.len()
    &&& match s[k].node {
        Node::Tag(Tag::EmOpen(o)) => s[k + 1].node matches Node::Tag(Tag::EmClose(c)) && runs_pair(s, o as int, c as int, false),
        Node::Tag(Tag::StrongOpen(o)) => s[k + 1].node matches Node::Tag(Tag::StrongClose(c)) && runs_pair(s, o as int, c as int, false),
        Node::Tag(Tag::DelOpen(o)) => s[k + 1].node matches Node::Tag(Tag::DelClose(c)) && runs_pair(s, o as int, c as int, true),
        _ => false,
    }
}

/// The slots of `s` from `base` on come in pairs of an opening tag and its
/// closing tag, each pair taken from two delimiter runs of one character.
pub open spec fn tags_paired(s: Seq<Slot>, base: int) -> bool {
    &&& 0 <= base <= s.len()
    &&& (s.len() - base) % 2 == 0
    &&& forall|k: int| base <= k < s.len() && (k - base) % 2 == 0 ==> #[trigger] tag_pair_ok(s, k)
}

/// `t` extends `s`: no slot was dropped, tags are kept, and every slot keeps
/// its delimiter character.
pub open spec fn slots_kept(s: Seq<Slot>, t: Seq<Slot>) -> bool {
    &&& s.len() <= t.len()
    &&& forall|k: int| 0 <= k < s.len() && (s[k].node is Tag) ==> (#[trigger] t[k]).node == s[k].node
    &&& forall|k: int| 0 <= k < s.len() ==> #[trigger] run_char(t, k) == run_char(s, k)
}

proof fn lemma_kept_trans(a: Seq<Slot>, b: Seq<Slot>, c: Seq<Slot>)
    requires
        slots_kept(a, b),
        slots_kept(b, c),
    ensures
        slots_kept(a, c),
{
    assert forall|k: int| 0 <= k < a.len() && (a[k].node is Tag) implies (#[trigger] c[k]).node == a[k].node by {
        assert(b[k].node == a[k].node);
    }
    assert forall|k: int| 0 <= k < a.len() implies #[trigger] run_char(c, k) == run_char(a, k) by {
        assert(run_char(b, k) == run_char(a, k));
    }
}

/// Pairs of tags stay paired while slots are kept.
proof fn lemma_pairs_kept(s: Seq<Slot>, t: Seq<Slot>, base: int)
    requires
        tags_paired(s, base),
        slots_kept(s, t),
    ensures
        forall|k: int| base <= k < s.len() && (k - base) % 2 == 0 ==> #[trigger] tag_pair_ok(t, k),
{
    assert forall|k: int| base <= k < s.len() && (k - base) % 2 == 0 implies #[trigger] tag_pair_ok(t, k) by {
        assert(tag_pair_ok(s, k));
        assert(t[k].node == s[k].node);
        assert(t[k + 1].node == s[k + 1].node);
        match s[k].node {
            Node::Tag(Tag::EmOpen(o)) => {
                let c = s[k + 1].node->Tag_0->EmClose_0;
                assert(run_char(t, o as int) == run_char(s, o as int));
                assert(run_char(t, c as int) == run_char(s, c as int));
            },
            Node::Tag(Tag::StrongOpen(o)) => {
                let c = s[k + 1].node->Tag_0->StrongClose_0;
                assert(run_char(t, o as int) == run_char(s, o as int));
                assert(run_char(t, c as int) == run_char(s, c as int));
            },
            Node::Tag(Tag::DelOpen(o)) => {
                let c = s[k + 1].node->Tag_0->DelClose_0;
                assert(run_char(t, o as int) == run_char(s, o as int));
                assert(run_char(t, c as int) == run_char(s, c as int));
            },
            _ => {},
        }
    }
}

/// Kept slots keep the pairing of tags.
proof fn lemma_paired_kept(s: Seq<Slot>, t: Seq<Slot>, base: int)
    requires
        tags_paired(s, base),
        slots_kept(s, t),
        t.len() == s.len(),
    ensures
        tags_paired(t, base),
{
    lemma_pairs_kept(s, t, base);
}

/// Two slots appended to paired ones, holding a pair of tags, keep them
/// paired.
proof fn lemma_paired_grow(s: Seq<Slot>, t: Seq<Slot>, base: int)
    requires
        tags_paired(s, base),
        slots_kept(s, t),
        t.len() == s.len() + 2,
        tag_pair_ok(t, s.len() as int),
    ensures
        tags_paired(t, base),
{
    lemma_pairs_kept(s, t, base);
    assert forall|k: int| base <= k < t.len() && (k - base) % 2 == 0 implies #[trigger] tag_pair_ok(t, k) by {
        if k >= s.len() {
            assert(k == s.len());
        }
    }
}

/// Set the remaining count of the delimiter node at `idx`.
fn set_count(list: &mut List, idx: usize, n: usize)
    requires
        old(list).wf(),
        idx < old(list).slots@.len(),
    ensures
        final(list).wf(),
        final(list).slots@.len() == old(list).slots@.len(),
        old(list).slots@[idx as int].node is Delim ==> count_of(final(list), idx) == n,
        forall|k: int| 0 <= k < final(list).slots@.len() && k != idx ==> (#[trigger] final(list).slots@[k]).node == old(list).slots@[k].node,
        final(list).slots@[idx as int].node is Delim == old(list).slots@[idx as int].node is Delim,
        slots_kept(old(list).slots@, final(list).slots@),
{
    match list.slots[idx].node {
        Node::Delim { ch, count, orig, can_open, can_close } => {
            list.set_node(idx, Node::Delim { ch, count: n, orig, can_open, can_close });
        },
        _ => {},
    }
}

/// Is the neighbouring character (`None` at the edge of the text) Unicode
/// whitespace?
pub open spec fn ws_of(c: Option<u32>) -> bool {
    match c {
        None => true,
        Some(x) => crate::chars::is_unicode_ws_spec(x),
    }
}

/// Left- and right-flanking (CommonMark §6.2), given whether the characters
/// before and after a delimiter run are whitespace (`*_ws`) or punctuation
/// (`*_p`).
pub open spec fn flanking_spec(ch: u8, before_ws: bool, before_p: bool, after_ws: bool, after_p: bool) -> (bool, bool) {
    let left = !after_ws && (!after_p || before_ws || before_p);
    let right = !before_ws && (!before_p || after_ws || after_p);
    if ch == 0x5f {
        (left && (!right || before_p), right && (!left || after_p))
    } else {
        (left, right)
    }
}

/// Compute `(can_open, can_close)` for a delimiter run of `ch` between the
/// characters `before` and `after` (`None` at the edge of the text). An `_`
/// run opens only when left-flanking and not right-flanking (or preceded
/// by punctuation), and closes symmetrically; `*` and `~` runs open when
/// left-flanking and close when right-flanking.
pub fn flanking(ch: u8, before: Option<u32>, after: Option<u32>) -> (r: (bool, bool))
    ensures
        exists|bp: bool, ap: bool|
            #![trigger flanking_spec(ch, ws_of(before), bp, ws_of(after), ap)]
            r == flanking_spec(ch, ws_of(before), bp, ws_of(after), ap) && (before is None ==> !bp)
                && (after is None ==> !ap) && (before is Some && before->0 < 0x80 ==> bp
                == crate::bytes::is_punct_spec(before->0 as u8)) && (after is Some && after->0
                < 0x80 ==> ap == crate::bytes::is_punct_spec(after->0 as u8)),
{
    let before_ws = boundary_ws(before);
    let after_ws = boundary_ws(after);
    let before_p = boundary_punct(before);
    let after_p = boundary_punct(after);
    let left = !after_ws && (!after_p || before_ws || before_p);
    let right = !before_ws && (!before_p || after_ws || after_p);
    let r = if ch == 0x5f {
        (left && (!right || before_p), right && (!left || after_p))
    } else {
        (left, right)
    };
    assert(r == flanking_spec(ch, ws_of(before), before_p, ws_of(after), after_p));
    r
}

/// Pair emphasis delimiters on the stack at or above `start`, splicing
/// `<em>`/`<strong>`/`<del>` tags into the list. Removes consumed entries;
/// entries below `start` are kept.
#[verifier::rlimit(80)]
fn process_emphasis(list: &mut List, stack: &mut Vec<StackItem>, start: usize)
    requires
        old(list).wf(),
        stack_ok(old(stack)@, old(list).slots@.len() as int),
        start <= old(stack)@.len(),
    ensures
        final(list).wf(),
        final(list).slots@.len() >= old(list).slots@.len(),
        stack_ok(final(stack)@, final(list).slots@.len() as int),
        final(stack)@.len() >= start,
        final(stack)@.subrange(0, start as int) == old(stack)@.subrange(0, start as int),
        slots_kept(old(list).slots@, final(list).slots@),
        tags_paired(final(list).slots@, old(list).slots@.len() as int),
{
    let ghost base = old(list).slots@.len() as int;
    let mut bottom: Vec<Option<usize>> = Vec::new();
    let mut b: usize = 0;
    while b < 9
        invariant
            b <= 9,
            bottom@.len() == b,
        decreases 9 - b,
    {
        bottom.push(None);
        b += 1;
    }
    let ghost prefix = old(stack)@.subrange(0, start as int);
    let mut ci = start;
    while ci < stack.len()
        invariant
            list.wf(),
            start <= ci <= stack@.len(),
            stack_ok(stack@, list.slots@.len() as int),
            list.slots@.len() >= old(list).slots@.len(),
            stack@.subrange(0, start as int) == prefix,
            bottom@.len() == 9,
            slots_kept(old(list).slots@, list.slots@),
            tags_paired(list.slots@, base),
        decreases stack@.len() - ci,
    {
        let cnode = match stack[ci] {
            StackItem::Emph(n) => n,
            _ => {
                ci += 1;
                continue;
            },
        };
        let (cch, ccount0, corig, ccan_open, ccan_close) = match delim(list, cnode) {
            Some(d) => d,
            None => {
                ci += 1;
                continue;
            },
        };
        if !ccan_close || ccount0 == 0 {
            ci += 1;
            continue;
        }
        let strike = cch == 0x7e;
        let char_idx: usize = if strike {
            2
        } else if cch == 0x2a {
            0
        } else {
            1
        };
        let slot = char_idx * 3 + corig % 3;
        let ghost diff = stack@.len() - ci;
        // Match the closer at `ci` against openers below it until it is used
        // up or no opener remains.
        #[verifier::loop_isolation(true)]
        loop
            invariant_except_break
                list.wf(),
                start <= ci < stack.len(),
                stack@.len() - ci == diff,
                stack@[ci as int] == StackItem::Emph(cnode),
                cnode < list.slots@.len(),
                list.slots@[cnode as int].node is Delim,
                count_of(list, cnode) > 0,
                stack_ok(stack@, list.slots@.len() as int),
                list.slots@.len() >= old(list).slots@.len(),
                stack@.subrange(0, start as int) == prefix,
                bottom@.len() == 9,
                slot < 9,
                run_char(list.slots@, cnode as int) == Some(cch),
                strike == (cch == 0x7e),
                base == old(list).slots@.len(),
                slots_kept(old(list).slots@, list.slots@),
                tags_paired(list.slots@, base),
            ensures
                start <= ci <= stack@.len(),
                stack@.len() - ci < diff,
                stack_ok(stack@, list.slots@.len() as int),
                list.wf(),
                list.slots@.len() >= old(list).slots@.len(),
                stack@.subrange(0, start as int) == prefix,
                bottom@.len() == 9,
                slots_kept(old(list).slots@, list.slots@),
                tags_paired(list.slots@, base),
            decreases count_of(list, cnode),
        {
            let ccount = match delim(list, cnode) {
                Some(d) => d.1,
                None => 0,
            };
            let bot = bottom[slot];
            let mut opener: Option<usize> = None;
            let mut oi = ci;
            while oi > start
                invariant
                    start <= oi <= ci,
                    opener matches Some(o) ==> start <= o < ci && run_char(list.slots@, item_node(stack@[o as int]) as int) == Some(cch),
                decreases oi,
            {
                oi -= 1;
                let onode = match stack[oi] {
                    StackItem::Emph(n) => n,
                    _ => continue,
                };
                match bot {
                    Some(bv) => {
                        if onode <= bv {
                            break;
                        }
                    },
                    None => {},
                }
                let (och, ocount, oorig, ocan_open, ocan_close) = match delim(list, onode) {
                    Some(d) => d,
                    None => continue,
                };
                if ocount == 0 {
                    continue;
                }
                // The "multiple of 3" rule is emphasis-only; GFM `~` matches
                // by equal run length instead.
                let odd_match = !strike && (ccan_open || ocan_close) && corig % 3
                    != 0 && (oorig % 3 + corig % 3) % 3 == 0;
                let len_match = !strike || ocount == ccount;
                if och == cch && ocan_open && !odd_match && len_match {
                    opener = Some(oi);
                    break;
                }
            }
            match opener {
                Some(oi) => {
                    let onode = match stack[oi] {
                        StackItem::Emph(n) => n,
                        StackItem::Bracket { node, .. } => node,
                    };
                    let ocount = match delim(list, onode) {
                        Some(d) => d.1,
                        None => 0,
                    };
                    let (open_tag, close_tag, use_delims) = if strike {
                        (Tag::DelOpen(onode), Tag::DelClose(cnode), ocount)
                    } else if ocount >= 2 && ccount >= 2 {
                        (Tag::StrongOpen(onode), Tag::StrongClose(cnode), 2)
                    } else {
                        (Tag::EmOpen(onode), Tag::EmClose(cnode), 1)
                    };
                    let use_delims = if use_delims > ccount { ccount } else { use_delims };
                    let use_delims = if use_delims > ocount { ocount } else { use_delims };
                    let use_delims = if use_delims == 0 { 1 } else { use_delims };
                    let ghost s0 = list.slots@;
                    list.splice_after(onode, Node::Tag(open_tag));
                    list.splice_before(cnode, Node::Tag(close_tag));
                    proof {
                        let s2 = list.slots@;
                        lemma_kept_trans(s0, list.slots@, list.slots@);
                        assert(run_char(s2, onode as int) == Some(cch));
                        assert(run_char(s2, cnode as int) == Some(cch));
                        assert(tag_pair_ok(s2, s0.len() as int));
                        lemma_paired_grow(s0, s2, base);
                        lemma_kept_trans(old(list).slots@, s0, s2);
                    }
                    let ghost s2 = list.slots@;
                    let on = if ocount >= use_delims { ocount - use_delims } else { 0 };
                    let cn = if ccount >= use_delims { ccount - use_delims } else { 0 };
                    set_count(list, onode, on);
                    let ghost s3 = list.slots@;
                    set_count(list, cnode, cn);
                    proof {
                        lemma_kept_trans(s2, s3, list.slots@);
                        lemma_paired_kept(s2, list.slots@, base);
                        lemma_kept_trans(old(list).slots@, s2, list.slots@);
                    }
                    // Drop the now-enclosed delimiters between opener and closer.
                    remove_range(stack, oi + 1, ci);
                    ci = oi + 1;
                    assert(stack@[ci as int] == StackItem::Emph(cnode));
                    if on == 0 {
                        let ghost s4 = list.slots@;
                        list.unlink(onode);
                        proof {
                            lemma_paired_kept(s4, list.slots@, base);
                            lemma_kept_trans(old(list).slots@, s4, list.slots@);
                        }
                        stack.remove(oi);
                        ci -= 1;
                    }
                    if cn == 0 {
                        let ghost s5 = list.slots@;
                        list.unlink(cnode);
                        proof {
                            lemma_paired_kept(s5, list.slots@, base);
                            lemma_kept_trans(old(list).slots@, s5, list.slots@);
                        }
                        stack.remove(ci);
                        break;
                    }
                },
                None => {
                    let v = if ci == 0 {
                        None
                    } else {
                        Some(stack_node(stack[ci - 1]))
                    };
                    bottom.set(slot, v);
                    if !ccan_open {
                        stack.remove(ci);
                    } else {
                        ci += 1;
                    }
                    break;
                },
            }
        }
    }
}


/// Reusable inline-parsing scratch — the node arena, delimiter stack, and
/// text buffers, retained across paragraphs.
pub struct Scratch {
    list: List,
    stack: Vec<StackItem>,
    cur: Vec<u8>,
    norm: Vec<u8>,
}

impl Scratch {
    /// Empty scratch buffers.
    pub fn new() -> (s: Self)
        ensures
            s.list_len() == 0,
    {
        Scratch { list: List::new(), stack: Vec::new(), cur: Vec::new(), norm: Vec::new() }
    }

    /// Number of slots in the node arena.
    pub closed spec fn list_len(&self) -> nat {
        self.list.slots@.len()
    }
}

/// No byte of `s` is an inline trigger (with the strikethrough delimiter
/// when `st`, and the extended-autolink and directive triggers when `al`).
pub open spec fn plain_text(s: Seq<u8>, st: bool, al: bool) -> bool {
    forall|k: int| 0 <= k < s.len() ==> !crate::scan::inline_set_spec(#[trigger] s[k], st, al)
}

/// What a line of plain text renders to: its escaped bytes, less trailing
/// spaces unless `keep_trailing`.
pub open spec fn plain_html(s: Seq<u8>, keep_trailing: bool) -> Seq<u8> {
    esc_text(
        if keep_trailing {
            s
        } else {
            s.subrange(0, trimmed_len(s) as int)
        },
    )
}

/// Length of `s` without its trailing spaces.
pub open spec fn trimmed_len(s: Seq<u8>) -> nat
    decreases s.len(),
{
    if s.len() == 0 {
        0
    } else if s.last() == 0x20 {
        trimmed_len(s.drop_last())
    } else {
        s.len()
    }
}

/// `n` is where the trailing spaces of `s` begin.
proof fn lemma_trimmed_len(s: Seq<u8>, n: int)
    requires
        0 <= n <= s.len(),
        forall|k: int| n <= k < s.len() ==> s[k] == 0x20,
        n > 0 ==> s[n - 1] != 0x20,
    ensures
        trimmed_len(s) == n,
    decreases s.len(),
{
    if s.len() > n {
        lemma_trimmed_len(s.drop_last(), n);
    }
}

/// A text directive `:name[label]{attrs}` at the `:` at `i`: not preceded
/// by a colon, its name starting with a letter and not followed by a colon.
/// The header is parsed from just past the `:`.
fn text_directive_at(src: &[u8], i: usize) -> (r: Option<Header>)
    requires
        i < src@.len(),
    ensures
        r matches Some(h) ==> h.name_start == 0 && 0 < h.name_end <= h.consumed && i + 1 + h.consumed
            <= src@.len() && (h.label matches Some((a, b)) ==> a <= b < src@.len() - i - 1),
{
    if i > 0 && src[i - 1] == 0x3a {
        return None;
    }
    let rest = tail(src, i + 1);
    if rest.len() == 0 || !crate::bytes::is_alpha(rest[0]) {
        return None;
    }
    match parse_header(rest) {
        Some(h) => {
            if h.name_end < rest.len() && rest[h.name_end] == 0x3a {
                None
            } else {
                Some(h)
            }
        },
        None => None,
    }
}

/// Append ` key="value"` for each attribute.
fn push_attrs(attrs: &Vec<(Vec<u8>, Vec<u8>)>, out: &mut Vec<u8>) {
    let mut k: usize = 0;
    while k < attrs.len()
        invariant
            k <= attrs@.len(),
        decreases attrs.len() - k,
    {
        out.push(0x20);
        append(out, attrs[k].0.as_slice());
        append_str(out, "=\"");
        escape_attr(attrs[k].1.as_slice(), out);
        out.push(0x22);
        k += 1;
    }
}

/// The length of the run of backticks at `i`.
pub open spec fn backtick_run(s: Seq<u8>, i: int) -> int {
    choose|n: int| crate::lines::run_is(s, i, 0x60, n)
}

/// `j` starts the first closing run for the code span whose opening run of
/// `n` backticks is at `i`.
pub open spec fn first_code_close(s: Seq<u8>, i: int, n: int, j: int) -> bool {
    &&& code_close(s, i, n, j)
    &&& forall|j2: int| i + n < j2 < j ==> !#[trigger] code_close(s, i, n, j2)
}

/// What the backticks at `i` render to, and where the scan goes on: a code
/// span when a closing run of the same length follows, else the backticks
/// as they are.
pub open spec fn code_piece(s: Seq<u8>, i: int) -> (Seq<u8>, int) {
    let n = backtick_run(s, i);
    if exists|j: int| first_code_close(s, i, n, j) {
        let j = choose|j: int| first_code_close(s, i, n, j);
        ("<code>".spec_bytes() + code_inner(s.subrange(i + n, j)) + "</code>".spec_bytes(), j + n)
    } else {
        (s.subrange(i, i + n), i + n)
    }
}

/// What the `&` at `i` renders to, and where the scan goes on: a character
/// reference as its (escaped) character or expansion, else `&amp;`.
pub open spec fn entity_piece(s: Seq<u8>, i: int) -> (Seq<u8>, int) {
    if i + 1 < s.len() && s[i + 1] == 0x23 {
        match numeric_ref(s, i) {
            Some((cp, c)) => (
                if cp < 0x80 {
                    esc_byte(cp as u8)
                } else {
                    encode_scalar(cp)
                },
                i + c,
            ),
            None => ("&amp;".spec_bytes(), i + 1),
        }
    } else {
        let e = alnum_end(s, i + 1);
        if e > i + 1 && e < s.len() && s[e] == 0x3b && entity_value(s.subrange(i + 1, e)) is Some {
            (esc_text(entity_value(s.subrange(i + 1, e))->0.spec_bytes()), e + 1)
        } else {
            ("&amp;".spec_bytes(), i + 1)
        }
    }
}

/// What the `<` at `i` renders to, and where the scan goes on: an autolink,
/// raw HTML (through the tag filter when `tf`), else `&lt;`.
pub open spec fn angle_piece(s: Seq<u8>, i: int, tf: bool) -> (Seq<u8>, int) {
    let g = first_byte_from(s, i + 1, 0x3e);
    let content = s.subrange(i + 1, g);
    let uri = exists|c: int| uri_at(content, c);
    if g < s.len() && (uri || email_spec(content)) {
        (autolink_html(content, !uri), g + 1)
    } else {
        match raw_html_len(s.subrange(i, s.len() as int)) {
            Some(e) => (
                if tf {
                    filter_prefix(s.subrange(i, i + e), e)
                } else {
                    s.subrange(i, i + e)
                },
                i + e,
            ),
            None => ("&lt;".spec_bytes(), i + 1),
        }
    }
}

/// One step of the emphasis- and link-free inline stream at the trigger
/// byte `s[i]`, with `s[run..i]` pending as text: the output and where the
/// scan goes on; `None` when `s[i]` triggers nothing.
pub open spec fn stream_step(s: Seq<u8>, i: int, run: int, hw: bool, tf: bool) -> Option<(Seq<u8>, int)> {
    let pend = esc_text(s.subrange(run, i));
    let c = s[i];
    if c == 0x5c {
        if i + 1 < s.len() && s[i + 1] == 0x0a {
            Some((pend + "<br />\n".spec_bytes(), run_end(s, i + 2, SP_TAB_CLASS)))
        } else if i + 1 < s.len() && is_punct_spec(s[i + 1]) {
            Some((pend + esc_byte(s[i + 1]), i + 2))
        } else {
            Some((pend + seq![0x5cu8], i + 1))
        }
    } else if c == 0x60 {
        Some((pend + code_piece(s, i).0, code_piece(s, i).1))
    } else if c == 0x26 {
        Some((pend + entity_piece(s, i).0, entity_piece(s, i).1))
    } else if c == 0x3c {
        Some((pend + angle_piece(s, i, tf).0, angle_piece(s, i, tf).1))
    } else if c == 0x0a {
        let line = s.subrange(run, i);
        let t = trim_end_spec(line, SP);
        let brk = if line.len() - t.len() >= 2 || hw {
            "<br />\n".spec_bytes()
        } else {
            seq![0x0au8]
        };
        Some((esc_text(t) + brk, run_end(s, i + 1, SP_TAB_CLASS)))
    } else {
        None
    }
}

/// What the emphasis- and link-free inline stream renders `s` to from `i`
/// on, with `s[run..i]` pending as text: each trigger byte's construct in
/// turn, the text between escaped, and trailing spaces at the end dropped.
/// (Every construct consumes at least its trigger byte, within `s`.)
pub open spec fn stream_from(s: Seq<u8>, i: int, run: int, hw: bool, tf: bool) -> Seq<u8>
    decreases s.len() - i,
{
    if i < 0 || i >= s.len() {
        esc_text(trim_end_spec(s.subrange(run, s.len() as int), SP))
    } else {
        match stream_step(s, i, run, hw, tf) {
            Some((p, ni)) => if i < ni <= s.len() {
                p + stream_from(s, ni, ni, hw, tf)
            } else {
                p
            },
            None => stream_from(s, i + 1, run, hw, tf),
        }
    }
}

/// What the emphasis- and link-free inline content `s` renders to with
/// hard wraps `hw` and the tag filter `tf` (extended autolinks and
/// directives off).
pub open spec fn stream_html(s: Seq<u8>, hw: bool, tf: bool) -> Seq<u8> {
    stream_from(s, 0, 0, hw, tf)
}

/// Skipping bytes that trigger nothing leaves what the stream renders as is.
proof fn lemma_stream_skip(s: Seq<u8>, i: int, run: int, hw: bool, tf: bool, k: int)
    requires
        0 <= i <= k <= s.len(),
        forall|m: int| i <= m < k ==> !crate::scan::is_stream_spec(#[trigger] s[m]),
    ensures
        stream_from(s, i, run, hw, tf) == stream_from(s, k, run, hw, tf),
    decreases k - i,
{
    if i < k {
        assert(!crate::scan::is_stream_spec(s[i]));
        lemma_stream_skip(s, i + 1, run, hw, tf, k);
    }
}

/// Render the backticks at `src[i]`: a code span, or the backticks as they
/// are.
#[verifier::rlimit(30)]
fn code_step(src: &[u8], i: usize, out: &mut Vec<u8>) -> (ni: usize)
    requires
        i < src@.len(),
        src@[i as int] == 0x60,
    ensures
        final(out)@ == old(out)@ + code_piece(src@, i as int).0,
        ni == code_piece(src@, i as int).1,
        i < ni <= src@.len(),
{
    let len = src.len();
    let ghost mid = out@;
    let ni = match try_code_span(src, i, out) {
        Some(e) => {
            proof {
                let (n, j) = choose|n: int, j: int|
                    #![trigger crate::lines::run_is(src@, j, 0x60, n)]
                    crate::lines::run_is(src@, i as int, 0x60, n) && i + n <= j && e == j + n
                        && crate::lines::run_is(src@, j, 0x60, n) && out@ == mid
                        + "<code>".spec_bytes() + code_inner(src@.subrange(i + n, j)) + "</code>".spec_bytes()
                        && code_close(src@, i as int, n, j) && forall|j2: int| i + n < j2 < j ==> !#[trigger] code_close(src@, i as int, n, j2);
                let n2 = backtick_run(src@, i as int);
                crate::lines::lemma_run_unique(src@, i as int, 0x60, n, n2);
                assert(first_code_close(src@, i as int, n, j));
                let j2 = choose|j2: int| first_code_close(src@, i as int, n, j2);
                assert(j2 == j) by {
                    if j2 < j {
                        assert(!code_close(src@, i as int, n, j2));
                    } else if j < j2 {
                        assert(!code_close(src@, i as int, n, j));
                    }
                }
            }
            e
        },
        None => {
            let n = run_len(src, i, 0x60);
            let ticks = slice(src, i, i + n);
            proof {
                assert(crate::lines::run_is(src@, i as int, 0x60, n as int));
                let n2 = backtick_run(src@, i as int);
                crate::lines::lemma_run_unique(src@, i as int, 0x60, n as int, n2);
                assert forall|j: int| !first_code_close(src@, i as int, n as int, j) by {
                    assert(!code_close(src@, i as int, n as int, j));
                }
                assert(ticks@ =~= src@.subrange(i as int, i + n));
            }
            append(out, ticks);
            i + n
        },
    };
    ni
}

/// Render the `&` at `src[i]`: a character reference, or `&amp;`.
fn entity_step(src: &[u8], i: usize, out: &mut Vec<u8>) -> (ni: usize)
    requires
        i < src@.len(),
    ensures
        final(out)@ == old(out)@ + entity_piece(src@, i as int).0,
        ni == entity_piece(src@, i as int).1,
        i < ni <= src@.len(),
{
    let len = src.len();
    let ni = match parse_entity(src, i) {
        Some((Resolved::Cp(cp), consumed)) => {
            push_char_escaped(out, cp);
            i + consumed
        },
        Some((Resolved::Text(t), consumed)) => {
            push_str_escaped(out, t);
            i + consumed
        },
        None => {
            append_str(out, "&amp;");
            i + 1
        },
    };
    ni
}

/// Render the `<` at `src[i]`: an autolink, raw HTML (filtered when `tf`),
/// or `&lt;`.
#[verifier::rlimit(30)]
fn angle_step(src: &[u8], i: usize, tf: bool, out: &mut Vec<u8>) -> (ni: usize)
    requires
        i < src@.len(),
    ensures
        final(out)@ == old(out)@ + angle_piece(src@, i as int, tf).0,
        ni == angle_piece(src@, i as int, tf).1,
        i < ni <= src@.len(),
{
    let len = src.len();
    let ni = match try_autolink(src, i) {
        Some((consumed, html)) => {
            append(out, html.as_slice());
            i + consumed
        },
        None => match try_raw_html(src, i) {
            Some(end) => {
                let raw = slice(src, i, end);
                proof {
                    assert(raw@ =~= src@.subrange(i as int, end as int));
                }
                if tf {
                    filter_html(raw, out);
                } else {
                    append(out, raw);
                }
                end
            },
            None => {
                append_str(out, "&lt;");
                i + 1
            },
        },
    };
    ni
}

/// Handle the byte at `i` when it opens one of the constructs shared by both
/// inline paths: a backslash escape, code span, entity, autolink or raw HTML,
/// line break, or (with `al`) a bare extended autolink. Pending text
/// `src[run..i]` is flushed first. Returns the new `(i, run)`, or `None`
/// (with nothing written) when the byte opens no such construct.
#[verifier::rlimit(30)]
fn text_step(
    src: &[u8],
    i: usize,
    run: usize,
    out: &mut Vec<u8>,
    hw: bool,
    tf: bool,
    al: bool,
    dir: bool,
) -> (r: Option<(usize, usize)>)
    requires
        run <= i < src@.len(),
    ensures
        r matches Some((ni, nr)) ==> i < ni <= src@.len() && nr <= ni,
        r is None ==> final(out)@ == old(out)@,
        !stream_set_spec(src@[i as int], al || dir) ==> r is None,
        r matches Some((ni, nr)) ==> (!al && !dir ==> nr == ni && (stream_step(src@, i as int, run as int, hw, tf)
            matches Some((p, k)) && k == ni && final(out)@ == old(out)@ + p)),
        !al && !dir && r is None ==> stream_step(src@, i as int, run as int, hw, tf) is None,
    decreases src@.len(), 0nat,
{
    let len = src.len();
    let c = src[i];
    let ghost pend = esc_text(src@.subrange(run as int, i as int));
    if c == 0x5c {
        let text = slice(src, run, i);
        proof {
            assert(text@ =~= src@.subrange(run as int, i as int));
        }
        escape_html_bytes(text, out);
        let ni = if i + 1 < len && src[i + 1] == 0x0a {
            append_str(out, "<br />\n");
            skip_spaces(src, i + 2)
        } else if i + 1 < len && crate::bytes::is_ascii_punct(src[i + 1]) {
            push_escaped_byte(out, src[i + 1]);
            i + 2
        } else {
            out.push(0x5c);
            i + 1
        };
        Some((ni, ni))
    } else if c == 0x60 {
        let text = slice(src, run, i);
        proof {
            assert(text@ =~= src@.subrange(run as int, i as int));
        }
        escape_html_bytes(text, out);
        let ni = code_step(src, i, out);
        Some((ni, ni))
    } else if c == 0x26 {
        let text = slice(src, run, i);
        proof {
            assert(text@ =~= src@.subrange(run as int, i as int));
        }
        escape_html_bytes(text, out);
        let ni = entity_step(src, i, out);
        Some((ni, ni))
    } else if c == 0x3c {
        let text = slice(src, run, i);
        proof {
            assert(text@ =~= src@.subrange(run as int, i as int));
        }
        escape_html_bytes(text, out);
        let ni = angle_step(src, i, tf, out);
        Some((ni, ni))
    } else if c == 0x0a {
        // Trailing spaces in the pending run decide the break kind.
        let line = slice(src, run, i);
        proof {
            assert(line@ =~= src@.subrange(run as int, i as int));
        }
        let trimmed = trim_end(line, SP);
        let hard = line.len() - trimmed.len() >= 2;
        escape_html_bytes(trimmed, out);
        if hard || hw {
            append_str(out, "<br />\n");
        } else {
            out.push(0x0a);
        }
        let ni = skip_spaces(src, i + 1);
        Some((ni, ni))
    } else if al && c == 0x40 {
        match gfm_scan_email(src, i) {
            Some((s, e)) => {
                escape_html_bytes(slice(src, run, s), out);
                emit_email(src, s, e, out);
                Some((e, e))
            },
            None => Some((i + 1, run)),
        }
    } else if al && (c == 0x77 || c == 0x57) && al_boundary(src, i) {
        match gfm_scan_url(src, i) {
            Some(end) => {
                escape_html_bytes(slice(src, run, i), out);
                emit_url(src, i, end, out);
                Some((end, end))
            },
            None => Some((i + 1, run)),
        }
    } else if dir && c == 0x3a && text_directive_at(src, i).is_some() {
        let h = match text_directive_at(src, i) {
            Some(h) => h,
            None => {
                return None;
            },
        };
        escape_html_bytes(slice(src, run, i), out);
        let rest = tail(src, i + 1);
        out.push(0x3c);
        append(out, slice(rest, h.name_start, h.name_end));
        push_attrs(&h.attrs, out);
        out.push(0x3e);
        match h.label {
            Some((a, b)) => {
                stream_inline(slice(rest, a, b), out, hw, tf, al, dir);
            },
            None => {},
        }
        append_str(out, "</");
        append(out, slice(rest, h.name_start, h.name_end));
        out.push(0x3e);
        let end = i + 1 + h.consumed;
        Some((end, end))
    } else if al && c == 0x3a {
        match gfm_scan_url_at_colon(src, i) {
            Some((s, e)) => {
                escape_html_bytes(slice(src, run, s), out);
                emit_url(src, s, e, out);
                Some((e, e))
            },
            None => Some((i + 1, run)),
        }
    } else {
        None
    }
}

/// Stream inline content with no emphasis or link delimiters straight to
/// `out`: code spans, entities, autolinks, raw HTML, escapes and line
/// breaks. With `al`, bare GFM autolinks are recognized too (and trailing
/// spaces at the very end are kept, as the autolink stream does).
#[verifier::rlimit(30)]
fn stream_inline(src: &[u8], out: &mut Vec<u8>, hw: bool, tf: bool, al: bool, dir: bool)
    ensures
        plain_text(src@, false, al || dir) ==> final(out)@ == old(out)@ + plain_html(src@, al),
        !al && !dir ==> final(out)@ == old(out)@ + stream_html(src@, hw, tf),
    decreases src@.len(), 1nat,
{
    let len = src.len();
    let mut i: usize = 0;
    let mut run: usize = 0;
    while i < len
        invariant
            run <= i <= len,
            len == src@.len(),
            plain_text(src@, false, al || dir) ==> run == 0 && out@ == old(out)@,
            !al && !dir ==> out@ + stream_from(src@, i as int, run as int, hw, tf) == old(out)@ + stream_html(src@, hw, tf),
        decreases len - i,
    {
        let ghost prev = out@;
        match text_step(src, i, run, out, hw, tf, al, dir) {
            Some((ni, nr)) => {
                proof {
                    if !al && !dir {
                        assert(out@ + stream_from(src@, ni as int, nr as int, hw, tf) =~= prev + stream_from(src@, i as int, run as int, hw, tf));
                    }
                }
                i = ni;
                run = nr;
            },
            None => {
                // Skip plain text to the next significant byte.
                let rest = tail(src, i + 1);
                let found = find_stream_with(rest, al || dir);
                let skip = match found {
                    Some(k) => k,
                    None => len - i - 1,
                };
                proof {
                    if !al && !dir {
                        assert(rest@ =~= src@.subrange(i + 1, len as int));
                        assert forall|m: int| i <= m < i + 1 + skip implies !crate::scan::is_stream_spec(#[trigger] src@[m]) by {
                            if m > i {
                                assert(src@[m] == rest@[m - i - 1]);
                                assert(!((|x: u8| stream_set_spec(x, al || dir))(rest@[m - i - 1])));
                            }
                        }
                        lemma_stream_skip(src@, i as int, run as int, hw, tf, i + 1 + skip);
                    }
                }
                i += 1 + skip;
            },
        }
    }
    if al {
        let rest = tail(src, run);
        proof {
            if run == 0 {
                assert(rest@ =~= src@);
            }
        }
        escape_html_bytes(rest, out);
    } else {
        let rest = tail(src, run);
        let t = trim_end(rest, SP);
        proof {
            assert(rest@ =~= src@.subrange(run as int, len as int));
            if run == 0 {
                assert(rest@ =~= src@);
                lemma_trimmed_len(src@, t@.len() as int);
            }
        }
        escape_html_bytes(t, out);
    }
}

/// The link target found after a `]`: the raw destination, the raw title,
/// and the index past the target.
pub type LinkTarget = (Vec<u8>, Option<Vec<u8>>, usize);

/// The destination and title of a found target, as byte sequences.
pub open spec fn target_val(r: Option<LinkTarget>) -> Option<crate::refmap::RefVal> {
    match r {
        Some((d, t, _n)) => Some((d@, crate::refmap::opt_view(t))),
        None => None,
    }
}

/// Copy of an optional borrowed byte string.
fn opt_to_vec(o: Option<&[u8]>) -> (r: Option<Vec<u8>>)
    ensures
        crate::refmap::opt_view(r) == match o {
            Some(t) => Some(t@),
            None => None,
        },
{
    match o {
        Some(t) => Some(crate::bytes::to_vec(t)),
        None => None,
    }
}

/// Look up a label in the reference map (normalizing it first).
fn lookup_label(refmap: &RefMap, label: &[u8]) -> (r: Option<(Vec<u8>, Option<Vec<u8>>)>)
    ensures
        refmap.get_spec(crate::links::normalized_label(label@)) == match r {
            Some((d, t)) => Some((d@, crate::refmap::opt_view(t))),
            None => None,
        },
{
    let key = normalize_label(label);
    match refmap.get(key.as_slice()) {
        Some((d, t)) => Some((crate::bytes::to_vec(d), opt_to_vec(t))),
        None => None,
    }
}

/// Parse the link target after a `]` at `i`: inline `(dest "title")`, or a
/// full/collapsed/shortcut reference resolved against `refmap`. `text` is
/// the raw link text (the shortcut/collapsed label).
///
/// A `[label]` after the `]` is resolved by that label alone (by the link
/// text only where it is blank, `[]`), and an unread or undefined one gives
/// no link. Only with no `[` and no inline target after the `]` is the link
/// text itself looked up.
fn parse_link_target(src: &[u8], i: usize, refmap: &RefMap, text: &[u8]) -> (r: Option<LinkTarget>)
    requires
        i <= src@.len(),
    ensures
        r matches Some((d, t, n)) ==> i <= n <= src@.len(),
        i < src@.len() && src@[i as int] == 0x28 ==> match crate::links::inline_paren_spec(src@, i as int) {
            Some((d, t, n)) => r matches Some((rd, rt, rn)) && rn == n && rd@ == src@.subrange(d.0, d.1)
                && crate::refmap::opt_view(rt) == match t {
                Some(tt) => Some(src@.subrange(tt.0, tt.1)),
                None => None,
            },
            None => target_val(r) == refmap.get_spec(crate::links::normalized_label(text@)) && (r matches Some(
                (_d, _t, n),
            ) ==> n == i),
        },
        i < src@.len() && src@[i as int] == 0x5b ==> match crate::links::label_spec(src@, i as int) {
            Some((ls, le, end)) => {
                let label = src@.subrange(ls, le);
                let key = if crate::bytes::trim_spec(label, crate::bytes::ASCII_WS).len() == 0 {
                    text@
                } else {
                    label
                };
                target_val(r) == refmap.get_spec(crate::links::normalized_label(key)) && (r matches Some(
                    (_d, _t, n),
                ) ==> n == end)
            },
            None => r is None,
        },
        !(i < src@.len() && (src@[i as int] == 0x28 || src@[i as int] == 0x5b)) ==> target_val(r)
            == refmap.get_spec(crate::links::normalized_label(text@)) && (r matches Some((_d, _t, n)) ==> n == i),
{
    let len = src.len();
    if i < len && src[i] == 0x28 {
        match parse_inline_paren(src, i) {
            Some(((ds, de), title, end)) => {
                let t = match title {
                    Some((ts, te)) => Some(crate::bytes::to_vec(slice(src, ts, te))),
                    None => None,
                };
                return Some((crate::bytes::to_vec(slice(src, ds, de)), t, end));
            },
            None => {},
        }
    }
    // Full/collapsed reference: [label] / []
    if i < len && src[i] == 0x5b {
        return match read_bracket_label(src, i) {
            Some((ls, le, end)) => {
                let label = slice(src, ls, le);
                // collapsed `[]` reuses the link text as the label.
                let collapsed = crate::bytes::trim(label, crate::bytes::ASCII_WS).len() == 0;
                let lab = if collapsed { text } else { label };
                match lookup_label(refmap, lab) {
                    Some((d, t)) => Some((d, t, end)),
                    None => None,
                }
            },
            None => None,
        };
    }
    // Shortcut reference: the link text itself is the label.
    match lookup_label(refmap, text) {
        Some((d, t)) => Some((d, t, i)),
        None => None,
    }
}

/// The index of the last bracket entry of `s`, if any.
spec fn last_bracket_spec(s: Seq<StackItem>) -> Option<int>
    decreases s.len(),
{
    if s.len() == 0 {
        None
    } else if s.last() is Bracket {
        Some(s.len() - 1)
    } else {
        last_bracket_spec(s.drop_last())
    }
}

/// Index of the last bracket entry of the stack.
fn last_bracket(stack: &Vec<StackItem>) -> (r: Option<usize>)
    ensures
        r matches Some(k) ==> k < stack@.len() && stack@[k as int] is Bracket,
        match r {
            Some(k) => last_bracket_spec(stack@) == Some(k as int),
            None => last_bracket_spec(stack@) is None,
        },
{
    let mut k = stack.len();
    proof {
        assert(stack@.subrange(0, k as int) =~= stack@);
    }
    while k > 0
        invariant
            k <= stack@.len(),
            last_bracket_spec(stack@) == last_bracket_spec(stack@.subrange(0, k as int)),
        decreases k,
    {
        k -= 1;
        proof {
            assert(stack@.subrange(0, k + 1).drop_last() =~= stack@.subrange(0, k as int));
            assert(stack@.subrange(0, k + 1).last() == stack@[k as int]);
        }
        match stack[k] {
            StackItem::Bracket { .. } => {
                return Some(k);
            },
            _ => {},
        }
    }
    None
}

/// ` title="…"` for a raw link title, unescaped then escaped.
pub open spec fn title_html(t: Option<Seq<u8>>) -> Seq<u8> {
    match t {
        Some(v) => " title=\"".spec_bytes() + esc_text(crate::syntax::unescaped_from(v, 0)) + seq![0x22u8],
        None => Seq::empty(),
    }
}

/// The opening `<a>` tag of a link with raw destination `d` and raw title
/// `t`.
pub open spec fn link_open_html(d: Seq<u8>, t: Option<Seq<u8>>) -> Seq<u8> {
    "<a href=\"".spec_bytes() + crate::escape::href_text(crate::syntax::unescaped_from(d, 0)) + seq![0x22u8]
        + title_html(t) + seq![0x3eu8]
}

/// The `<img>` tag of an image with raw destination `d`, alt text `a` and
/// raw title `t`.
pub open spec fn image_html(d: Seq<u8>, a: Seq<u8>, t: Option<Seq<u8>>) -> Seq<u8> {
    "<img src=\"".spec_bytes() + crate::escape::href_text(crate::syntax::unescaped_from(d, 0))
        + "\" alt=\"".spec_bytes() + a + seq![0x22u8] + title_html(t) + " />".spec_bytes()
}

/// CommonMark "look for link or image": on `]`, find the matching opener
/// and, if the following syntax forms a valid inline or reference link, wrap
/// the enclosed nodes. `i` points past the `]`; returns the index to resume
/// at.
#[verifier::rlimit(50)]
fn look_for_link_or_image(
    src: &[u8],
    i: usize,
    list: &mut List,
    stack: &mut Vec<StackItem>,
    cur: &mut Vec<u8>,
    refmap: &RefMap,
    rb_node: usize,
    rb_src: usize,
) -> (r: usize)
    requires
        i <= src@.len(),
        old(list).wf(),
        rb_node < old(list).slots@.len(),
        stack_ok(old(stack)@, old(list).slots@.len() as int),
    ensures
        i <= r <= src@.len(),
        final(list).wf(),
        final(list).slots@.len() >= old(list).slots@.len(),
        stack_ok(final(stack)@, final(list).slots@.len() as int),
        last_bracket_spec(old(stack)@) is None ==> r == i && final(list).slots@ == old(list).slots@
            && final(stack)@ == old(stack)@ && final(cur)@ == old(cur)@,
        last_bracket_spec(old(stack)@) matches Some(op) ==> ({
            let literal = r == i && final(list).slots@ == old(list).slots@ && final(stack)@ == old(stack)@.remove(op)
                && final(cur)@ == old(cur)@;
            let image = old(stack)@[op] matches StackItem::Bracket { image, .. } && image;
            &&& (old(stack)@[op] matches StackItem::Bracket { active, .. } && !active ==> literal)
            &&& (literal || (final(stack)@.len() <= op && (!image ==> forall|k: int|
                0 <= k < final(stack)@.len() ==> !(#[trigger] final(stack)@[k] matches StackItem::Bracket { image: false, active: true, .. }))
                && (!image ==> exists|d: Seq<u8>, t: Option<Seq<u8>>| #[trigger] link_open_html(d, t) == final(cur)@.subrange(
                    old(cur)@.len() as int,
                    final(cur)@.len() as int,
                ) && final(cur)@.subrange(0, old(cur)@.len() as int) == old(cur)@)
                && (image ==> exists|d: Seq<u8>, a: Seq<u8>, t: Option<Seq<u8>>| #[trigger] image_html(d, a, t) == final(cur)@.subrange(
                    old(cur)@.len() as int,
                    final(cur)@.len() as int,
                ) && final(cur)@.subrange(0, old(cur)@.len() as int) == old(cur)@)))
        }),
{
    let op = match last_bracket(stack) {
        Some(k) => k,
        None => return i,  // no opener: ] stays literal
    };
    let (op_node, image, active, text_src) = match stack[op] {
        StackItem::Bracket { node, image, active, text_src } => (node, image, active, text_src),
        StackItem::Emph(n) => (n, false, false, 0),
    };
    if !active {
        stack.remove(op);
        return i;
    }
    let text = slice(src, text_src, rb_src);
    let (dest_raw, title_raw, new_i) = match parse_link_target(src, i, refmap, text) {
        Some(t) => t,
        None => {
            stack.remove(op);
            return i;  // ] stays literal
        },
    };
    // Resolve emphasis within the link text (bounded below by the opener).
    let depth = stack.len();
    assert(op < depth);
    process_emphasis(list, stack, op + 1);
    if image {
        // Alt text = the rendered link text with tags stripped.
        let mut inner: Vec<u8> = Vec::new();
        let mut node = list.slots[op_node].next;
        let mut fuel = list.slots.len();
        while node.is_some() && fuel > 0
            invariant
                link_ok(node, list.slots@.len() as int),
                list.wf(),
            decreases fuel,
        {
            let idx = node.unwrap();
            if idx == rb_node {
                break;
            }
            render_node(list.slots[idx].node, cur.as_slice(), &mut inner);
            node = list.slots[idx].next;
            fuel -= 1;
        }
        let alt = strip_tags(inner.as_slice());
        // Build the <img> tag into the shared buffer.
        let start = cur.len();
        let ghost c0 = cur@;
        append_str(cur, "<img src=\"");
        escape_href(unescape_string(dest_raw.as_slice()).as_slice(), cur);
        append_str(cur, "\" alt=\"");
        append(cur, alt.as_slice());
        cur.push(0x22);
        match &title_raw {
            Some(t) => {
                append_str(cur, " title=\"");
                escape_attr(unescape_string(t.as_slice()).as_slice(), cur);
                cur.push(0x22);
            },
            None => {},
        }
        append_str(cur, " />");
        let end = cur.len();
        proof {
            assert(crate::refmap::opt_view(title_raw) == match title_raw {
                Some(t) => Some(t@),
                None => None,
            });
            let piece = image_html(dest_raw@, alt@, crate::refmap::opt_view(title_raw));
            assert(cur@ =~= c0 + piece);
            assert(cur@.subrange(c0.len() as int, cur@.len() as int) =~= piece);
            assert(cur@.subrange(0, c0.len() as int) =~= c0);
        }
        list.set_node(op_node, Node::Span { start, end });
        // Unlink the link text and the closing bracket.
        let mut c = list.slots[op_node].next;
        let mut fuel = list.slots.len();
        while c.is_some() && fuel > 0
            invariant
                link_ok(c, list.slots@.len() as int),
                list.wf(),
                list.slots@.len() >= old(list).slots@.len(),
            decreases fuel,
        {
            let n = c.unwrap();
            let nxt = list.slots[n].next;
            list.unlink(n);
            if n == rb_node {
                break;
            }
            c = nxt;
            fuel -= 1;
        }
    } else {
        // Build the <a> open tag into the shared buffer.
        let start = cur.len();
        let ghost c0 = cur@;
        append_str(cur, "<a href=\"");
        escape_href(unescape_string(dest_raw.as_slice()).as_slice(), cur);
        cur.push(0x22);
        match &title_raw {
            Some(t) => {
                append_str(cur, " title=\"");
                escape_attr(unescape_string(t.as_slice()).as_slice(), cur);
                cur.push(0x22);
            },
            None => {},
        }
        cur.push(0x3e);
        let end = cur.len();
        proof {
            let piece = link_open_html(dest_raw@, crate::refmap::opt_view(title_raw));
            assert(cur@ =~= c0 + piece);
            assert(cur@.subrange(c0.len() as int, cur@.len() as int) =~= piece);
            assert(cur@.subrange(0, c0.len() as int) =~= c0);
        }
        list.set_node(op_node, Node::Span { start, end });
        list.set_node(rb_node, Node::Tag(Tag::LinkClose));
        // No links inside links: deactivate earlier `[` openers.
        let mut k: usize = 0;
        while k < stack.len()
            invariant
                k <= stack@.len(),
                stack_ok(stack@, list.slots@.len() as int),
                forall|j: int| 0 <= j < k ==> !(#[trigger] stack@[j] matches StackItem::Bracket { image: false, active: true, .. }),
            decreases stack@.len() - k,
        {
            match stack[k] {
                StackItem::Bracket { node, image: false, active: _, text_src } => {
                    stack.set(k, StackItem::Bracket { node, image: false, active: false, text_src });
                },
                _ => {},
            }
            k += 1;
        }
    }
    if op < stack.len() {
        stack.truncate(op);  // drop the opener and any delimiters above it
    }
    new_i
}

/// Parse `src` (a block's raw inline text) to HTML, appending to `out`.
/// `hw`: every soft break is a hard break; `st`: `~` strikethrough; `tf`:
/// tag filter on raw HTML; `al`: bare GFM autolinks.
#[verifier::rlimit(30)]
pub fn render_inline_bytes(
    src: &[u8],
    out: &mut Vec<u8>,
    refmap: &RefMap,
    scratch: &mut Scratch,
    hw: bool,
    st: bool,
    tf: bool,
    al: bool,
    dir: bool,
)
    ensures
        plain_text(src@, st, al || dir) ==> final(out)@ == old(out)@ + plain_html(src@, al),
        !al && !dir && (forall|k: int| 0 <= k < src@.len() ==> !crate::scan::emph_set_spec(#[trigger] src@[k], st))
            ==> final(out)@ == old(out)@ + stream_html(src@, hw, tf),
{
    // Fast path: no emphasis/link (or `~` when strikethrough) delimiters.
    let emph = find_emph_with(src, st);
    proof {
        match emph {
            Some(p) => {
                assert(crate::scan::emph_set_spec(src@[p as int], st));
            },
            None => {},
        }
        if plain_text(src@, st, al || dir) {
            match emph {
                Some(p) => {
                    assert(!crate::scan::inline_set_spec(src@[p as int], st, al || dir));
                },
                None => {},
            }
            assert(plain_text(src@, false, al || dir));
        }
    }
    if emph.is_none() {
        stream_inline(src, out, hw, tf, al, dir);
        return;
    }
    scratch.list = List::new();
    scratch.stack = Vec::new();
    scratch.cur = Vec::new();
    let list = &mut scratch.list;
    let stack = &mut scratch.stack;
    let cur = &mut scratch.cur;
    let len = src.len();
    let mut i: usize = 0;
    let mut run: usize = 0;
    let mut seg: usize = 0;
    while i < len
        invariant
            run <= i <= len,
            len == src@.len(),
            list.wf(),
            stack_ok(stack@, list.slots@.len() as int),
        decreases len - i,
    {
        let c = src[i];
        if c == 0x2a || c == 0x5f || (st && c == 0x7e) {
            escape_html_bytes(slice(src, run, i), cur);
            if cur.len() > seg {
                list.push(Node::Span { start: seg, end: cur.len() });
                seg = cur.len();
            }
            let count = run_len(src, i, c);
            if c == 0x7e && count > 2 {
                // 3+ tildes are literal.
                append(cur, slice(src, i, i + count));
            } else {
                let before = char_before(src, i);
                let after = char_at(src, i + count);
                let (can_open, can_close) = flanking(c, before, after);
                let idx = list.push(
                    Node::Delim { ch: c, count, orig: count, can_open, can_close },
                );
                stack.push(StackItem::Emph(idx));
            }
            i += count;
            run = i;
        } else if c == 0x5b || (c == 0x21 && i + 1 < len && src[i + 1] == 0x5b) {
            escape_html_bytes(slice(src, run, i), cur);
            if cur.len() > seg {
                list.push(Node::Span { start: seg, end: cur.len() });
                seg = cur.len();
            }
            let image = c == 0x21;
            let node = list.push(Node::Tag(if image { Tag::ImgOpen } else { Tag::Open }));
            let w: usize = if image { 2 } else { 1 };
            stack.push(StackItem::Bracket { node, image, active: true, text_src: i + w });
            i += w;
            run = i;
        } else if c == 0x5d {
            escape_html_bytes(slice(src, run, i), cur);
            if cur.len() > seg {
                list.push(Node::Span { start: seg, end: cur.len() });
            }
            let rb = list.push(Node::Tag(Tag::Close));
            i = look_for_link_or_image(src, i + 1, list, stack, cur, refmap, rb, i);
            // A resolved link/image appended its tag to `cur`; the next text
            // segment starts after it.
            seg = cur.len();
            run = i;
        } else {
            match text_step(src, i, run, cur, hw, tf, al, dir) {
                Some((ni, nr)) => {
                    i = ni;
                    run = nr;
                },
                None => {
                    let skip = match find_inline_with(tail(src, i + 1), st, al || dir) {
                        Some(k) => k,
                        None => len - i - 1,
                    };
                    i += 1 + skip;
                },
            }
        }
    }
    // Trailing spaces at the very end of a block are dropped.
    escape_html_bytes(trim_end(tail(src, run), SP), cur);
    if cur.len() > seg {
        list.push(Node::Span { start: seg, end: cur.len() });
    }
    process_emphasis(list, stack, 0);
    render_list(list, cur.as_slice(), out);
}

/// Render inline content with the per-render options: hard wraps,
/// strikethrough, tag filter, and extended autolinks.
pub fn render_inline_opts(src: &[u8], out: &mut Vec<u8>, refmap: &RefMap, scratch: &mut Scratch, opts: Options)
    ensures
        plain_text(src@, opts.strikethrough, opts.autolink || opts.directives) ==> final(out)@
            == old(out)@ + plain_html(src@, opts.autolink),
        !opts.autolink && !opts.directives && (forall|k: int|
            0 <= k < src@.len() ==> !crate::scan::emph_set_spec(#[trigger] src@[k], opts.strikethrough))
            ==> final(out)@ == old(out)@ + stream_html(src@, opts.hard_wraps, opts.tagfilter),
{
    render_inline_bytes(
        src,
        out,
        refmap,
        scratch,
        opts.hard_wraps,
        opts.strikethrough,
        opts.tagfilter,
        opts.autolink,
        opts.directives,
    );
}

/// Parse `src` (a block's raw inline text) to HTML, appending to `out`. A
/// line of plain text (no inline trigger) renders as its escaped text, less
/// trailing spaces unless extended autolinks are on.
pub fn render_inline(src: &str, out: &mut String, refmap: &RefMap, scratch: &mut Scratch, opts: Options)
    ensures
        exists|h: Seq<char>| final(out)@ == old(out)@ + h,
        plain_text(src.spec_bytes(), opts.strikethrough, opts.autolink || opts.directives)
            && vstd::utf8::valid_utf8(plain_html(src.spec_bytes(), opts.autolink)) ==> final(out)@
            == old(out)@ + vstd::utf8::decode_utf8(plain_html(src.spec_bytes(), opts.autolink)),
        !opts.autolink && !opts.directives && (forall|k: int|
            0 <= k < src.spec_bytes().len() ==> !crate::scan::emph_set_spec(#[trigger] src.spec_bytes()[k], opts.strikethrough))
            && vstd::utf8::valid_utf8(stream_html(src.spec_bytes(), opts.hard_wraps, opts.tagfilter)) ==> final(out)@
            == old(out)@ + vstd::utf8::decode_utf8(stream_html(src.spec_bytes(), opts.hard_wraps, opts.tagfilter)),
{
    let mut buf: Vec<u8> = Vec::new();
    render_inline_opts(src.as_bytes(), &mut buf, refmap, scratch, opts);
    let s = string_from_bytes(buf.as_slice());
    out.append(s.as_str());
    assert(out@ == old(out)@ + s@);
}

} // verus!
