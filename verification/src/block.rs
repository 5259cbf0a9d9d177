#![verifier::loop_isolation(false)]
//! Block parser — container-aware and incremental (CommonMark §3–§5).
//!
//! Each line is matched against the open-block tree (continuation), then
//! against block starts (new containers and leaves), then its text is added
//! to the open leaf. The result is a node arena ([`Tree`]) that the renderer
//! walks; inline content is parsed lazily at render time.
//!
//! Nodes are linked first-child/next-sibling by index. Every stored index
//! points into the arena (`nodes_ok`), and the arena only grows, so an index
//! once valid stays valid. Walks along links carry a fuel bound of the arena
//! size.

use vstd::prelude::*;
use vstd::string::StringSliceAdditionalSpecFns;
use crate::bytes::{append, slice, tail, trim, NL, WS_NL};
use crate::directive::parse_header;
use crate::lines::{
    atx_content, code_indented_end, count_cells, delim_row_cols, fence_opener, footnote_label_end,
    html_block_ends, html_block_open, html_trim_end, is_closing_fence, is_colon_close, is_fm_fence,
    is_thematic_break, list_marker, maybe_special, setext_level, trim_cr,
};
use crate::links::{def_views, first_def, normalize_label, normalized_label, raw_views, take_ref_defs};
use crate::options::Options;
use crate::refmap::{RefMap, RefVal};
use crate::scan::memchr1;

verus! {

/// A byte that, leading a line, opens no block under `opts`: the line is
/// paragraph text.
pub open spec fn plain_first(b: u8, opts: Options) -> bool {
    &&& b != 0x20 && b != 0x09 && b != 0x0a
    &&& !crate::lines::maybe_special_spec(Some(b))
    &&& !(opts.tables && (b == 0x7c || b == 0x3a))
    &&& !(opts.footnotes && b == 0x5b)
    &&& !((opts.deflist || opts.directives) && b == 0x3a)
}

/// A reference map entry after more definitions: an existing one stays,
/// else the first new one counts.
pub open spec fn first_wins(prev: Option<RefVal>, new: Option<RefVal>) -> Option<RefVal> {
    match prev {
        Some(v) => Some(v),
        None => new,
    }
}

/// Columns of indentation that make an indented code block.
pub const CODE_INDENT: usize = 4;

/// The kind of a block node.
#[derive(Clone, Copy, PartialEq, Eq, Debug, Structural)]
pub enum Kind {
    Document,
    BlockQuote,
    List,
    Item,
    Paragraph,
    Heading,
    ThematicBreak,
    CodeBlock,
    HtmlBlock,
    /// YAML (`---`, `level` 0) or TOML (`+++`, `level` 1) frontmatter at the
    /// very start of the document. Renders to nothing.
    Frontmatter,
    /// GFM footnote definition `[^label]: …`: a block container with a fixed
    /// four-column content indent; its label is in [`Tree::fn_defs`].
    FootnoteDef,
    /// Definition list (`<dl>`): alternating term holders and descriptions.
    DefList,
    /// A definition-list term holder; each line of its content is one term.
    DefTerm,
    /// A definition-list description; `level` 1 when loose.
    DefDesc,
    /// Leaf directive `::name[label]{attrs}`; payload in [`Tree::directives`].
    LeafDirective,
    /// Container directive `:::name[label]{attrs}` … `:::`.
    ContainerDirective,
    /// GFM pipe table; its content holds the raw rows.
    Table,
}

/// A GFM footnote definition's raw label and its lowercased identifier.
pub struct FnDef {
    pub label: Vec<u8>,
    pub identifier: Vec<u8>,
}

/// A block directive's name, ordered attributes, and the source range of
/// its `[label]`, if any.
pub struct DirData {
    pub name: Vec<u8>,
    pub attrs: Vec<(Vec<u8>, Vec<u8>)>,
    pub label: Option<(usize, usize)>,
}

/// List marker data, shared by a list and its items.
#[derive(Clone, Copy)]
pub struct ListData {
    pub ordered: bool,
    pub bullet: u8,
    pub start: u64,
    pub delimiter: u8,
    pub padding: usize,
    pub marker_offset: usize,
    pub tight: bool,
}

/// A block node. Content and info string are `[start, end)` ranges in the
/// source (`content_src`) or in the tree's assembled buffer.
#[derive(Clone, Copy)]
pub struct Node {
    pub kind: Kind,
    first_child: Option<usize>,
    last_child: Option<usize>,
    next_sibling: Option<usize>,
    pub parent: usize,
    open: bool,
    last_line_blank: bool,
    start_line: usize,
    cstart: usize,
    cend: usize,
    content_src: bool,
    pub level: u8,
    pub fenced: bool,
    fence_char: u8,
    fence_len: usize,
    fence_offset: usize,
    info_start: usize,
    info_end: usize,
    html_kind: u8,
    /// End of an HTML block's literal as a document-tree value: the raw
    /// span for a first-kind block that the input's end closed, otherwise
    /// the span less its final line ending.
    html_value_end: usize,
    /// Whether an HTML block closed by its explicit end condition.
    html_closed_by_cond: bool,
    /// Index into the footnote or directive payloads.
    fn_idx: Option<usize>,
    pub list: Option<ListData>,
}

impl Node {
    fn new(kind: Kind, parent: usize, line: usize) -> (n: Node)
        ensures
            n.kind == kind,
            n.parent == parent,
            n.first_child is None && n.last_child is None && n.next_sibling is None,
            n.open,
            n.list is None,
    {
        Node {
            kind,
            first_child: None,
            last_child: None,
            next_sibling: None,
            parent,
            open: true,
            last_line_blank: false,
            start_line: line,
            cstart: 0,
            cend: 0,
            content_src: false,
            level: 0,
            fenced: false,
            fence_char: 0,
            fence_len: 0,
            fence_offset: 0,
            info_start: 0,
            info_end: 0,
            html_kind: 0,
            html_value_end: 0,
            html_closed_by_cond: false,
            fn_idx: None,
            list: None,
        }
    }
}

/// `o` is absent or an index below `n`.
pub open spec fn idx_ok(o: Option<usize>, n: int) -> bool {
    match o {
        Some(x) => x < n,
        None => true,
    }
}

/// A child or sibling link: a node of the arena other than the root.
pub open spec fn link_ok(o: Option<usize>, n: int) -> bool {
    match o {
        Some(x) => 0 < x < n,
        None => true,
    }
}

/// Every link of `nd` points into an arena of `n` nodes, and no child or
/// sibling link points to the root.
pub closed spec fn node_ok(nd: Node, n: int) -> bool {
    link_ok(nd.first_child, n) && link_ok(nd.last_child, n) && link_ok(nd.next_sibling, n)
        && nd.parent < n
}

/// A non-empty arena rooted at a document node, whose links all point into
/// it.
pub closed spec fn nodes_ok(v: Seq<Node>) -> bool {
    &&& v.len() >= 1
    &&& v[0].kind == Kind::Document
    &&& forall|i: int| 0 <= i < v.len() ==> node_ok(#[trigger] v[i], v.len() as int)
}

/// Replace node `i`.
fn set_node(nodes: &mut Vec<Node>, i: usize, nd: Node)
    requires
        nodes_ok(old(nodes)@),
        i < old(nodes)@.len(),
        node_ok(nd, old(nodes)@.len() as int),
        i == 0 ==> nd.kind == Kind::Document,
    ensures
        nodes_ok(final(nodes)@),
        final(nodes)@ == old(nodes)@.update(i as int, nd),
{
    nodes.set(i, nd);
    proof {
        assert forall|k: int| 0 <= k < nodes@.len() implies node_ok(#[trigger] nodes@[k], nodes@.len() as int) by {
            if k != i {
                assert(nodes@[k] == old(nodes)@[k]);
            }
        }
    }
}

/// Append `nd` to the arena.
fn push_node(nodes: &mut Vec<Node>, nd: Node) -> (idx: usize)
    requires
        nodes_ok(old(nodes)@),
        node_ok(nd, old(nodes)@.len() + 1 as int),
    ensures
        nodes_ok(final(nodes)@),
        idx == old(nodes)@.len(),
        final(nodes)@ == old(nodes)@.push(nd),
{
    let idx = nodes.len();
    nodes.push(nd);
    proof {
        assert forall|k: int| 0 <= k < nodes@.len() implies node_ok(#[trigger] nodes@[k], nodes@.len() as int) by {
            if k < idx {
                assert(nodes@[k] == old(nodes)@[k]);
                assert(node_ok(old(nodes)@[k], old(nodes)@.len() as int));
            }
        }
    }
    idx
}

/// The parsed block tree.
pub struct Tree {
    nodes: Vec<Node>,
    pub root: usize,
    pub refmap: RefMap,
    pub source_len: usize,
    pub opts: Options,
    /// The input text; nodes with `content_src` index into it.
    source: Vec<u8>,
    /// Assembled text (block quotes, lists, code and HTML literals).
    buf: Vec<u8>,
    /// Footnote-definition payloads, indexed by a node's `fn_idx`.
    fn_defs: Vec<FnDef>,
    /// Block-directive payloads, indexed by a node's `fn_idx`.
    directives: Vec<DirData>,
}

impl Tree {
    /// The arena is well formed and the root is node 0.
    pub closed spec fn wf(&self) -> bool {
        nodes_ok(self.nodes@) && self.root == 0
    }

    /// A well-formed tree has its root, a document node.
    pub proof fn lemma_root(&self)
        requires
            self.wf(),
        ensures
            self.node_count() >= 1,
            self.kind_of(0) == Kind::Document,
    {
    }

    /// Length of the parsed input.
    pub closed spec fn source_len_of(&self) -> usize {
        self.source_len
    }

    /// The options the tree was parsed with.
    pub closed spec fn opts_of(&self) -> Options {
        self.opts
    }

    /// Number of nodes in the arena.
    pub closed spec fn node_count(&self) -> nat {
        self.nodes@.len()
    }

    /// The kind of node `idx`.
    pub closed spec fn kind_of(&self, idx: int) -> Kind {
        self.nodes@[idx].kind
    }

    /// Heading level, frontmatter flavour, or description looseness of node
    /// `idx`.
    pub closed spec fn level_of(&self, idx: int) -> u8 {
        self.nodes@[idx].level
    }

    /// List marker data of node `idx`.
    pub closed spec fn list_of(&self, idx: int) -> Option<ListData> {
        self.nodes@[idx].list
    }

    /// Source line on which node `idx` opened.
    pub closed spec fn start_line_of(&self, idx: int) -> usize {
        self.nodes@[idx].start_line
    }

    /// The reference map.
    pub closed spec fn refs_of(&self) -> RefMap {
        self.refmap
    }

    /// The byte store behind a node's ranges.
    pub closed spec fn store_of(&self, src: bool) -> Seq<u8> {
        if src {
            self.source@
        } else {
            self.buf@
        }
    }

    /// `store[a..b]`, clamped to the store.
    pub closed spec fn range_of(&self, src: bool, a: usize, b: usize) -> Seq<u8> {
        let s = self.store_of(src);
        s.subrange(
            crate::bytes::clamp_lo(s.len() as int, a as int),
            crate::bytes::clamp_hi(s.len() as int, a as int, b as int),
        )
    }

    /// The raw text of node `idx`.
    pub closed spec fn content_of(&self, idx: int) -> Seq<u8> {
        let n = self.nodes@[idx];
        self.range_of(n.content_src, n.cstart, n.cend)
    }

    /// The tree-value literal of HTML block `idx`.
    pub closed spec fn html_value_of(&self, idx: int) -> Seq<u8> {
        let n = self.nodes@[idx];
        self.range_of(n.content_src, n.cstart, n.html_value_end)
    }

    /// The fenced-code info string of node `idx`.
    pub closed spec fn info_of(&self, idx: int) -> Seq<u8> {
        let n = self.nodes@[idx];
        self.range_of(n.content_src, n.info_start, n.info_end)
    }

    /// First child of node `idx`.
    pub closed spec fn first_child_of(&self, idx: int) -> Option<usize> {
        self.nodes@[idx].first_child
    }

    /// Next sibling of node `idx`.
    pub closed spec fn next_sibling_of(&self, idx: int) -> Option<usize> {
        self.nodes@[idx].next_sibling
    }

    /// Parent of node `idx`.
    pub closed spec fn parent_of(&self, idx: int) -> usize {
        self.nodes@[idx].parent
    }

    fn store(&self, src: bool) -> (r: &[u8])
        ensures
            r@ == self.store_of(src),
    {
        if src {
            self.source.as_slice()
        } else {
            self.buf.as_slice()
        }
    }

    /// The options the tree was parsed with.
    pub fn options(&self) -> (o: Options)
        ensures
            o == self.opts_of(),
    {
        self.opts
    }

    /// The link reference definitions collected while parsing.
    pub fn refs(&self) -> (r: &RefMap)
        ensures
            *r == self.refs_of(),
    {
        &self.refmap
    }

    /// Number of nodes.
    pub fn len(&self) -> (n: usize)
        ensures
            n == self.node_count(),
    {
        self.nodes.len()
    }

    /// The raw text of node `idx` (inline source, or a code/HTML literal).
    pub fn content(&self, idx: usize) -> (r: &[u8])
        requires
            idx < self.node_count(),
        ensures
            r@ == self.content_of(idx as int),
    {
        let n = self.nodes[idx];
        slice(self.store(n.content_src), n.cstart, n.cend)
    }

    /// The fenced-code info string of node `idx` (raw; unescaped at render).
    pub fn info(&self, idx: usize) -> (r: &[u8])
        requires
            idx < self.node_count(),
        ensures
            r@ == self.info_of(idx as int),
    {
        let n = self.nodes[idx];
        slice(self.store(n.content_src), n.info_start, n.info_end)
    }

    /// The kind of node `idx`.
    pub fn kind(&self, idx: usize) -> (r: Kind)
        requires
            idx < self.node_count(),
        ensures
            r == self.kind_of(idx as int),
    {
        self.nodes[idx].kind
    }

    /// Heading level (headings), frontmatter flavour, or looseness
    /// (definition descriptions) of node `idx`.
    pub fn level(&self, idx: usize) -> (r: u8)
        requires
            idx < self.node_count(),
        ensures
            r == self.level_of(idx as int),
    {
        self.nodes[idx].level
    }

    /// List marker data of a list or item node.
    pub fn list(&self, idx: usize) -> (r: Option<ListData>)
        requires
            idx < self.node_count(),
        ensures
            r == self.list_of(idx as int),
    {
        self.nodes[idx].list
    }

    /// First child of node `idx`, if any.
    pub fn first_child(&self, idx: usize) -> (r: Option<usize>)
        requires
            self.wf(),
            idx < self.node_count(),
        ensures
            r == self.first_child_of(idx as int),
            r matches Some(c) ==> c < self.node_count(),
    {
        proof { assert(node_ok(self.nodes@[idx as int], self.nodes@.len() as int)); }
        self.nodes[idx].first_child
    }

    /// Next sibling of node `idx`, if any.
    pub fn next_sibling(&self, idx: usize) -> (r: Option<usize>)
        requires
            self.wf(),
            idx < self.node_count(),
        ensures
            r == self.next_sibling_of(idx as int),
            r matches Some(c) ==> c < self.node_count(),
    {
        proof { assert(node_ok(self.nodes@[idx as int], self.nodes@.len() as int)); }
        self.nodes[idx].next_sibling
    }

    /// Parent of node `idx`.
    pub fn parent(&self, idx: usize) -> (r: usize)
        requires
            self.wf(),
            idx < self.node_count(),
        ensures
            r == self.parent_of(idx as int),
            r < self.node_count(),
    {
        proof { assert(node_ok(self.nodes@[idx as int], self.nodes@.len() as int)); }
        self.nodes[idx].parent
    }

    /// The 1-based source line on which node `idx` opened (0 for the root).
    pub fn start_line(&self, idx: usize) -> (r: usize)
        requires
            idx < self.node_count(),
        ensures
            r == self.start_line_of(idx as int),
    {
        self.nodes[idx].start_line
    }

    /// The footnote-definition payload that node `idx` refers to, if it is
    /// a footnote definition whose payload is recorded.
    pub closed spec fn fn_def_of(&self, idx: int) -> Option<FnDef> {
        let n = self.nodes@[idx];
        if n.kind == Kind::FootnoteDef && n.fn_idx is Some && n.fn_idx->0 < self.fn_defs@.len() {
            Some(self.fn_defs@[n.fn_idx->0 as int])
        } else {
            None
        }
    }

    /// The directive payload that node `idx` refers to, if it is a leaf or
    /// container directive whose payload is recorded.
    pub closed spec fn directive_of(&self, idx: int) -> Option<DirData> {
        let n = self.nodes@[idx];
        if (n.kind == Kind::LeafDirective || n.kind == Kind::ContainerDirective) && n.fn_idx is Some
            && n.fn_idx->0 < self.directives@.len() {
            Some(self.directives@[n.fn_idx->0 as int])
        } else {
            None
        }
    }

    /// The footnote-definition payload of a `Kind::FootnoteDef` node.
    pub fn fn_def(&self, idx: usize) -> (r: Option<&FnDef>)
        requires
            idx < self.node_count(),
        ensures
            r is Some ==> self.kind_of(idx as int) == Kind::FootnoteDef,
            r matches Some(d) ==> self.fn_def_of(idx as int) == Some(*d),
            r is None ==> self.fn_def_of(idx as int) is None,
    {
        let n = self.nodes[idx];
        if n.kind != Kind::FootnoteDef {
            return None;
        }
        match n.fn_idx {
            Some(k) => {
                if k < self.fn_defs.len() {
                    Some(&self.fn_defs[k])
                } else {
                    None
                }
            },
            None => None,
        }
    }

    /// The payload of a leaf or container directive node.
    pub fn directive(&self, idx: usize) -> (r: Option<&DirData>)
        requires
            idx < self.node_count(),
        ensures
            r is Some ==> self.kind_of(idx as int) == Kind::LeafDirective || self.kind_of(idx as int)
                == Kind::ContainerDirective,
            r matches Some(d) ==> self.directive_of(idx as int) == Some(*d),
            r is None ==> self.directive_of(idx as int) is None,
    {
        let n = self.nodes[idx];
        if n.kind != Kind::LeafDirective && n.kind != Kind::ContainerDirective {
            return None;
        }
        match n.fn_idx {
            Some(k) => {
                if k < self.directives.len() {
                    Some(&self.directives[k])
                } else {
                    None
                }
            },
            None => None,
        }
    }

    /// The literal of an HTML block as a document-tree value: unlike
    /// [`Tree::content`] it keeps trailing blank lines, and keeps the final
    /// line ending of a first-kind block (`<script>`, `<pre>`, `<style>`,
    /// `<textarea>`) that the end of the input closed.
    pub fn html_value(&self, idx: usize) -> (r: &[u8])
        requires
            idx < self.node_count(),
        ensures
            r@ == self.html_value_of(idx as int),
    {
        let n = self.nodes[idx];
        slice(self.store(n.content_src), n.cstart, n.html_value_end)
    }

    /// A raw slice of the input text by byte range (clamped).
    pub fn source_range(&self, start: usize, end: usize) -> (r: &[u8])
        ensures
            r@ == self.range_of(true, start, end),
    {
        slice(self.source.as_slice(), start, end)
    }

    /// Consume the tree, returning its buffers for reuse.
    pub fn recycle(self) -> (r: (Vec<Node>, Vec<u8>, RefMap))
        ensures
            r.0@.len() == self.node_count(),
            r.1@ == self.store_of(false),
            r.2 == self.refs_of(),
    {
        (self.nodes, self.buf, self.refmap)
    }
}

/// Can a `parent` block hold a `child` block?
pub open spec fn can_contain_spec(parent: Kind, child: Kind) -> bool {
    match parent {
        Kind::Document | Kind::BlockQuote | Kind::Item | Kind::FootnoteDef
        | Kind::ContainerDirective => child != Kind::Item,
        Kind::List => child == Kind::Item,
        Kind::DefList => child == Kind::DefTerm || child == Kind::DefDesc || child
            == Kind::Paragraph,
        _ => false,
    }
}

pub fn can_contain(parent: Kind, child: Kind) -> (r: bool)
    ensures
        r == can_contain_spec(parent, child),
{
    match parent {
        Kind::Document | Kind::BlockQuote | Kind::Item | Kind::FootnoteDef
        | Kind::ContainerDirective => child != Kind::Item,
        Kind::List => child == Kind::Item,
        Kind::DefList => child == Kind::DefTerm || child == Kind::DefDesc || child
            == Kind::Paragraph,
        _ => false,
    }
}

/// Blocks whose lines are added as text.
pub open spec fn accepts_lines_spec(kind: Kind) -> bool {
    kind == Kind::Paragraph || kind == Kind::CodeBlock || kind == Kind::HtmlBlock || kind
        == Kind::DefDesc || kind == Kind::Table
}

pub fn accepts_lines(kind: Kind) -> (r: bool)
    ensures
        r == accepts_lines_spec(kind),
{
    kind == Kind::Paragraph || kind == Kind::CodeBlock || kind == Kind::HtmlBlock || kind
        == Kind::DefDesc || kind == Kind::Table
}

/// Two list markers belong to the same list: same type, and the same bullet
/// (unordered) or delimiter (ordered).
pub open spec fn same_list(a: ListData, b: ListData) -> bool {
    a.ordered == b.ordered && if a.ordered {
        a.delimiter == b.delimiter
    } else {
        a.bullet == b.bullet
    }
}

/// Node `i` of `v` is a list item whose marker belongs to the list that holds
/// it.
pub closed spec fn item_in_its_list(v: Seq<Node>, i: int) -> bool {
    &&& 0 <= i < v.len()
    &&& v[i].kind == Kind::Item
    &&& 0 <= v[i].parent < v.len()
    &&& v[v[i].parent as int].kind == Kind::List
    &&& v[i].list matches Some(d) && v[v[i].parent as int].list matches Some(pd) && same_list(pd, d)
}

/// Do two list markers belong to the same list: same type, and the same
/// bullet (unordered) or delimiter (ordered)?
pub fn lists_match(a: &ListData, b: &ListData) -> (r: bool)
    ensures
        r == (a.ordered == b.ordered && if a.ordered {
            a.delimiter == b.delimiter
        } else {
            a.bullet == b.bullet
        }),
        r == same_list(*a, *b),
{
    a.ordered == b.ordered && if a.ordered {
        a.delimiter == b.delimiter
    } else {
        a.bullet == b.bullet
    }
}

/// The UTF-8 text `s` lowercased character by character.
fn lowercase_utf8(s: &[u8]) -> Vec<u8> {
    let mut out: Vec<u8> = Vec::new();
    let len = s.len();
    let mut i: usize = 0;
    while i < len
        invariant
            i <= len == s@.len(),
        decreases len - i,
    {
        let b = s[i];
        let n0 = crate::chars::seq_len(b);
        let n = if n0 <= len - i { n0 } else { len - i };
        if b < 0x80 {
            out.push(crate::bytes::to_lower(b));
        } else {
            let cp = match crate::chars::char_at(s, i) {
                Some(c) => c,
                None => b as u32,
            };
            match crate::std_calls::char_from_u32(cp) {
                Some(c) => append(&mut out, crate::std_calls::char_lowercase(c).as_slice()),
                None => append(&mut out, slice(s, i, i + n)),
            }
        }
        i += n;
    }
    out
}

/// Parse `src` (CommonMark, no options) into a block tree plus its link
/// reference definitions.
pub fn parse(src: &str) -> (t: Tree)
    ensures
        t.wf(),
        t.node_count() >= 1 && t.kind_of(0) == Kind::Document,
        t.source_len_of() == src.spec_bytes().len(),
        t.opts_of() == Options::none_spec(),
        src.spec_bytes().len() > 0 && plain_first(src.spec_bytes()[0], Options::none_spec()) ==> t.node_count() >= 2,
{
    parse_with_opts(src, Options::default())
}

/// Parse `src` with opt-in [`Options`].
pub fn parse_with_opts(src: &str, opts: Options) -> (t: Tree)
    ensures
        t.wf(),
        t.node_count() >= 1 && t.kind_of(0) == Kind::Document,
        t.source_len_of() == src.spec_bytes().len(),
        t.opts_of() == opts,
        src.spec_bytes().len() > 0 && plain_first(src.spec_bytes()[0], opts) ==> t.node_count() >= 2,
{
    parse_with(src, opts, Vec::new(), Vec::new(), RefMap::new())
}

/// Like [`parse_with_opts`], reusing recycled buffers (see
/// [`Tree::recycle`]) instead of allocating fresh ones.
pub fn parse_with(src: &str, opts: Options, nodes: Vec<Node>, buf: Vec<u8>, refmap: RefMap) -> (t: Tree)
    ensures
        t.wf(),
        t.node_count() >= 1 && t.kind_of(0) == Kind::Document,
        t.source_len_of() == src.spec_bytes().len(),
        t.opts_of() == opts,
        src.spec_bytes().len() > 0 && plain_first(src.spec_bytes()[0], opts) ==> t.node_count() >= 2,
{
    let source = crate::bytes::to_vec(src.as_bytes());
    let p = Parser::with(nodes, buf, refmap, opts, source);
    p.run()
}

/// Is `c` a space or tab?
fn is_sp_tab_opt(c: Option<u8>) -> (r: bool)
    ensures
        r == match c {
            Some(b) => b == 0x20 || b == 0x09,
            None => false,
        },
{
    c == Some(0x20u8) || c == Some(0x09u8)
}

/// Number of block-start matchers tried in order.
const NUM_STARTS: usize = 12;

/// The block parser's state: the arena, the open-block cursor, and the
/// position within the current line.
struct Parser {
    nodes: Vec<Node>,
    tip: usize,
    oldtip: usize,
    last_matched_container: usize,
    all_closed: bool,
    refmap: RefMap,
    source: Vec<u8>,
    buf: Vec<u8>,
    /// The current line is `source[line_start..line_end]` (no newline).
    line_start: usize,
    line_end: usize,
    line_number: usize,
    offset: usize,
    column: usize,
    next_nonspace: usize,
    next_nonspace_column: usize,
    indent: usize,
    indented: bool,
    blank: bool,
    /// Whether the preceding line was blank (a loose definition).
    prev_blank: bool,
    partially_consumed_tab: bool,
    opts: Options,
    fn_defs: Vec<FnDef>,
    directives: Vec<DirData>,
}

impl Parser {
    spec fn wf(&self) -> bool {
        &&& nodes_ok(self.nodes@)
        &&& self.tip < self.nodes@.len()
        &&& self.oldtip < self.nodes@.len()
        &&& self.last_matched_container < self.nodes@.len()
        &&& self.line_start <= self.line_end <= self.source@.len()
    }

    /// Still well formed, and no node was dropped.
    spec fn extends(&self, prev: &Self) -> bool {
        self.wf() && self.nodes@.len() >= prev.nodes@.len() && self.source@ == prev.source@
    }

    /// A parser over `source` from recycled buffers (cleared and reused):
    /// nothing of what they held survives, so it starts as a fresh one, with
    /// no reference definition, an empty text buffer and a lone document.
    fn with(nodes: Vec<Node>, buf: Vec<u8>, refmap: RefMap, opts: Options, source: Vec<u8>) -> (p: Self)
        ensures
            p.wf(),
            p.source@ == source@,
            p.opts == opts,
            p.nodes@.len() == 1,
            p.nodes@[0].kind == Kind::Document,
            p.tip == 0,
            p.buf@.len() == 0,
            forall|key: Seq<u8>| p.refmap.get_spec(key) is None,
            p.fn_defs@.len() == 0,
            p.directives@.len() == 0,
    {
        let mut nodes = nodes;
        let mut buf = buf;
        let mut refmap = refmap;
        nodes.clear();
        buf.clear();
        refmap.clear();
        nodes.push(Node::new(Kind::Document, 0, 0));
        proof {
            assert(node_ok(nodes@[0], 1));
        }
        Parser {
            nodes,
            tip: 0,
            oldtip: 0,
            last_matched_container: 0,
            all_closed: true,
            refmap,
            source,
            buf,
            line_start: 0,
            line_end: 0,
            line_number: 0,
            offset: 0,
            column: 0,
            next_nonspace: 0,
            next_nonspace_column: 0,
            indent: 0,
            indented: false,
            blank: false,
            prev_blank: false,
            partially_consumed_tab: false,
            opts,
            fn_defs: Vec::new(),
            directives: Vec::new(),
        }
    }

    /// Node `i` (a copy) with its links in range.
    fn nd(&self, i: usize) -> (n: Node)
        requires
            self.wf(),
            i < self.nodes@.len(),
        ensures
            n == self.nodes@[i as int],
            node_ok(n, self.nodes@.len() as int),
    {
        self.nodes[i]
    }

    fn last_child(&self, n: usize) -> (r: Option<usize>)
        requires
            self.wf(),
            n < self.nodes@.len(),
        ensures
            idx_ok(r, self.nodes@.len() as int),
            r == self.nodes@[n as int].last_child,
    {
        self.nd(n).last_child
    }

    // ---- line position helpers ------------------------------------------

    fn line_len(&self) -> (n: usize)
        requires
            self.wf(),
        ensures
            n == self.line_end - self.line_start,
    {
        self.line_end - self.line_start
    }

    /// Byte `i` of the current line.
    fn peek(&self, i: usize) -> (r: Option<u8>)
        requires
            self.wf(),
        ensures
            r is Some <==> i < self.line_end - self.line_start,
            r == self.line_byte(i as int),
    {
        if i < self.line_end - self.line_start {
            Some(self.source[self.line_start + i])
        } else {
            None
        }
    }

    /// The current line from byte `from` on.
    spec fn line_rest(&self, from: int) -> Seq<u8> {
        let n = self.line_end - self.line_start;
        self.source@.subrange(
            if from <= n {
                self.line_start + from
            } else {
                self.line_end as int
            },
            self.line_end as int,
        )
    }

    /// The byte at `i` of the current line, if any.
    spec fn line_byte(&self, i: int) -> Option<u8> {
        if 0 <= i < self.line_end - self.line_start {
            Some(self.source@[self.line_start + i])
        } else {
            None
        }
    }

    /// The current line from byte `from` on.
    fn rest(&self, from: usize) -> (r: &[u8])
        requires
            self.wf(),
        ensures
            r@ == self.line_rest(from as int),
            r@.len() <= self.line_end - self.line_start,
            from <= self.line_end - self.line_start ==> r@.len() == self.line_end - self.line_start - from,
            forall|k: int| 0 <= k < r@.len() ==> #[trigger] r@[k] == self.source@[self.line_end - r@.len() + k],
    {
        let n = self.line_end - self.line_start;
        let a = if from <= n { self.line_start + from } else { self.line_end };
        slice(self.source.as_slice(), a, self.line_end)
    }

    fn find_next_nonspace(&mut self)
        requires
            old(self).wf(),
        ensures
            final(self).wf(),
            final(self).source@ == old(self).source@,
            final(self).nodes@ == old(self).nodes@,
            final(self).offset == old(self).offset,
            final(self).column == old(self).column,
            final(self).line_start == old(self).line_start,
            final(self).line_end == old(self).line_end,
            final(self).opts == old(self).opts,
            final(self).tip == old(self).tip,
            final(self).all_closed == old(self).all_closed,
            old(self).offset < old(self).line_end - old(self).line_start && plain_first(
                old(self).source@[old(self).line_start + old(self).offset],
                old(self).opts,
            ) ==> final(self).next_nonspace == old(self).offset && !final(self).blank && !final(self).indented,
    {
        let n = self.line_end - self.line_start;
        let mut i = self.offset;
        let mut cols = self.column;
        while i < n
            invariant
                self.wf(),
                n == self.line_end - self.line_start,
                cols >= self.column,
                self.offset < n && plain_first(self.source@[self.line_start + self.offset], self.opts) ==> i
                    == self.offset && cols == self.column,
            decreases n - i,
        {
            let c = self.source[self.line_start + i];
            if c == 0x20 {
                i += 1;
                cols = cols.saturating_add(1);
            } else if c == 0x09 {
                i += 1;
                cols = cols.saturating_add(4 - cols % 4);
            } else {
                break;
            }
        }
        self.blank = match self.peek(i) {
            None => true,
            Some(c) => c == 0x0a,
        };
        self.next_nonspace = i;
        self.next_nonspace_column = cols;
        self.indent = cols - self.column;
        self.indented = self.indent >= CODE_INDENT;
    }

    fn advance_next_nonspace(&mut self)
        requires
            old(self).wf(),
        ensures
            final(self).wf(),
            final(self).source@ == old(self).source@,
            final(self).nodes@ == old(self).nodes@,
            final(self).offset == old(self).next_nonspace,
            final(self).blank == old(self).blank,
            final(self).line_start == old(self).line_start,
            final(self).line_end == old(self).line_end,
            final(self).tip == old(self).tip,
            final(self).all_closed == old(self).all_closed,
    {
        self.offset = self.next_nonspace;
        self.column = self.next_nonspace_column;
        self.partially_consumed_tab = false;
    }

    fn advance_offset(&mut self, count: usize, columns: bool)
        requires
            old(self).wf(),
        ensures
            final(self).wf(),
            final(self).source@ == old(self).source@,
            final(self).nodes@ == old(self).nodes@,
            final(self).column >= old(self).column,
    {
        let mut count = count;
        while count > 0
            invariant
                self.wf(),
                self.nodes@ == old(self).nodes@,
                self.source@ == old(self).source@,
                self.column >= old(self).column,
            decreases count,
        {
            match self.peek(self.offset) {
                Some(c) => {
                    if c == 0x09 {
                        let chars_to_tab = 4 - (self.column % 4);
                        if columns {
                            self.partially_consumed_tab = chars_to_tab > count;
                            let consume = if chars_to_tab < count { chars_to_tab } else { count };
                            self.column = self.column.saturating_add(consume);
                            if !self.partially_consumed_tab {
                                self.offset += 1;
                            }
                            count -= consume;
                        } else {
                            self.partially_consumed_tab = false;
                            self.column = self.column.saturating_add(chars_to_tab);
                            self.offset += 1;
                            count -= 1;
                        }
                    } else {
                        self.partially_consumed_tab = false;
                        self.offset += 1;
                        self.column = self.column.saturating_add(1);
                        count -= 1;
                    }
                },
                None => {
                    break;
                },
            }
        }
    }

    /// Advance past the rest of the line.
    fn consume_line(&mut self)
        requires
            old(self).wf(),
        ensures
            final(self).wf(),
            final(self).source@ == old(self).source@,
            final(self).nodes@ == old(self).nodes@,
    {
        let n = self.line_len();
        if self.offset < n {
            let count = n - self.offset;
            self.advance_offset(count, false);
        }
    }

    // ---- tree construction ----------------------------------------------

    /// Link the fresh node `idx` as the last child of `parent`.
    fn link_last(&mut self, parent: usize, idx: usize)
        requires
            old(self).wf(),
            parent < old(self).nodes@.len(),
            0 < idx < old(self).nodes@.len(),
        ensures
            final(self).wf(),
            final(self).source@ == old(self).source@,
            final(self).nodes@.len() == old(self).nodes@.len(),
            final(self).tip == old(self).tip,
            forall|i: int|
                0 <= i < old(self).nodes@.len() ==> {
                    &&& (#[trigger] final(self).nodes@[i]).kind == old(self).nodes@[i].kind
                    &&& final(self).nodes@[i].list == old(self).nodes@[i].list
                    &&& final(self).nodes@[i].parent == old(self).nodes@[i].parent
                },
    {
        let mut pn = self.nd(parent);
        match pn.last_child {
            None => {
                pn.first_child = Some(idx);
                pn.last_child = Some(idx);
                set_node(&mut self.nodes, parent, pn);
            },
            Some(last) => {
                let mut ln = self.nd(last);
                ln.next_sibling = Some(idx);
                set_node(&mut self.nodes, last, ln);
                let mut pn2 = self.nd(parent);
                pn2.last_child = Some(idx);
                set_node(&mut self.nodes, parent, pn2);
            },
        }
    }

    fn add_child(&mut self, kind: Kind) -> (idx: usize)
        requires
            old(self).wf(),
        ensures
            final(self).extends(old(self)),
            idx < final(self).nodes@.len(),
            final(self).tip == idx,
            final(self).nodes@.len() > old(self).nodes@.len(),
            final(self).nodes@[idx as int].kind == kind,
            final(self).nodes@[idx as int].list is None,
            can_contain_spec(old(self).nodes@[old(self).tip as int].kind, kind) ==> {
                &&& idx == old(self).nodes@.len()
                &&& final(self).nodes@[idx as int].parent == old(self).tip
                &&& final(self).nodes@[old(self).tip as int].kind == old(self).nodes@[old(self).tip as int].kind
                &&& final(self).nodes@[old(self).tip as int].list == old(self).nodes@[old(self).tip as int].list
            },
    {
        let mut fuel = self.nodes.len();
        while fuel > 0 && !can_contain(self.nd(self.tip).kind, kind)
            invariant
                self.extends(old(self)),
                can_contain_spec(old(self).nodes@[old(self).tip as int].kind, kind) ==> self.tip == old(self).tip
                    && self.nodes@ == old(self).nodes@ && self.buf@ == old(self).buf@,
            decreases fuel,
        {
            let t = self.tip;
            self.finalize(t);
            fuel -= 1;
        }
        let parent = self.tip;
        let mut node = Node::new(kind, parent, self.line_number);
        node.content_src = kind == Kind::Paragraph || kind == Kind::CodeBlock || kind
            == Kind::HtmlBlock || kind == Kind::DefDesc;
        node.cstart = self.buf.len();
        node.cend = node.cstart;
        let idx = push_node(&mut self.nodes, node);
        self.link_last(parent, idx);
        self.tip = idx;
        idx
    }

    fn add_line(&mut self)
        requires
            old(self).wf(),
        ensures
            final(self).extends(old(self)),
    {
        let tip = self.tip;
        let n = self.nd(tip);
        let len = self.line_len();
        // Keep borrowing a contiguous slice of the source while possible.
        // Borrowed ranges include each line's newline; a contiguous next line
        // begins exactly at the current end.
        if n.content_src {
            let first = n.cstart == n.cend;
            let contiguous = self.offset == 0 && self.line_start == n.cend;
            let has_nl = self.line_end < self.source.len() && self.source[self.line_end] == 0x0a;
            // Code and HTML literals need a trailing newline; a final line at
            // the end of input without one is assembled instead.
            let needs_nl = n.kind == Kind::CodeBlock || n.kind == Kind::HtmlBlock;
            if !self.partially_consumed_tab && (first || contiguous) && (has_nl || !needs_nl) {
                let mut m = n;
                if first {
                    m.cstart = if self.offset <= len { self.line_start + self.offset } else { self.line_end };
                }
                m.cend = if has_nl { self.line_end + 1 } else { self.line_end };
                set_node(&mut self.nodes, tip, m);
                return;
            }
            // Contiguity broken: copy the borrowed prefix into `buf`.
            self.materialize(tip);
        }
        if self.partially_consumed_tab {
            self.offset = self.offset.saturating_add(1);
            let chars_to_tab = 4 - (self.column % 4);
            let mut k: usize = 0;
            while k < chars_to_tab
                invariant
                    self.wf(),
                    self.nodes@.len() >= old(self).nodes@.len(),
                    self.source@ == old(self).source@,
                decreases chars_to_tab - k,
            {
                self.buf.push(0x20);
                k += 1;
            }
        }
        append(&mut self.buf, slice(self.source.as_slice(), self.line_start.saturating_add(self.offset), self.line_end));
        self.buf.push(0x0a);
        let mut m = self.nd(tip);
        m.cend = self.buf.len();
        set_node(&mut self.nodes, tip, m);
    }

    /// Move a node's borrowed source range into `buf` so further lines can
    /// be appended. The borrowed range already ends with a newline.
    fn materialize(&mut self, tip: usize)
        requires
            old(self).wf(),
            tip < old(self).nodes@.len(),
        ensures
            final(self).wf(),
            final(self).source@ == old(self).source@,
            final(self).nodes@.len() == old(self).nodes@.len(),
    {
        let mut n = self.nd(tip);
        let start = self.buf.len();
        if n.cstart != n.cend {
            append(&mut self.buf, slice(self.source.as_slice(), n.cstart, n.cend));
        }
        n.content_src = false;
        n.cstart = start;
        n.cend = self.buf.len();
        set_node(&mut self.nodes, tip, n);
    }

    fn close_unmatched_blocks(&mut self)
        requires
            old(self).wf(),
        ensures
            final(self).extends(old(self)),
            old(self).all_closed ==> *final(self) == *old(self),
    {
        if !self.all_closed {
            let mut fuel = self.nodes.len();
            while self.oldtip != self.last_matched_container && fuel > 0
                invariant
                    self.extends(old(self)),
                decreases fuel,
            {
                let parent = self.nd(self.oldtip).parent;
                let t = self.oldtip;
                self.finalize(t);
                self.oldtip = parent;
                fuel -= 1;
            }
            self.all_closed = true;
        }
    }

    // ---- finalize -------------------------------------------------------

    /// The byte store for a node's ranges.
    fn store(&self, src: bool) -> (r: &[u8])
        ensures
            r@ == if src {
                self.source@
            } else {
                self.buf@
            },
    {
        if src {
            self.source.as_slice()
        } else {
            self.buf.as_slice()
        }
    }

    fn finalize(&mut self, idx: usize)
        requires
            old(self).wf(),
            idx < old(self).nodes@.len(),
        ensures
            final(self).extends(old(self)),
            !final(self).nodes@[idx as int].open,
            final(self).tip == if old(self).tip == idx {
                final(self).nodes@[idx as int].parent
            } else {
                old(self).tip
            },
            old(self).nodes@[idx as int].kind == Kind::Paragraph ==> forall|key: Seq<u8>|
                #[trigger] final(self).refmap.get_spec(key) == first_wins(
                    old(self).refmap.get_spec(key),
                    first_def(
                        def_views(old(self).def_text(idx as int)),
                        key,
                        def_views(old(self).def_text(idx as int)).len() as int,
                    ),
                ),
            old(self).nodes@[idx as int].kind != Kind::Paragraph ==> final(self).refmap == old(self).refmap,
    {
        let mut nd = self.nd(idx);
        let parent = nd.parent;
        nd.open = false;
        set_node(&mut self.nodes, idx, nd);
        if nd.kind == Kind::Paragraph {
            self.finalize_paragraph(idx);
        } else if nd.kind == Kind::Heading {
            self.finalize_heading(idx);
        } else if nd.kind == Kind::CodeBlock {
            self.finalize_code(idx);
        } else if nd.kind == Kind::HtmlBlock {
            let mut m = self.nd(idx);
            let (keep, value_len) = {
                let sl = slice(self.store(m.content_src), m.cstart, m.cend);
                let keep = html_trim_end(sl);
                // The tree value keeps the raw span of a first-kind block
                // that the input's end closed, and otherwise drops exactly
                // the final line ending.
                let value_len = if m.html_kind == 1 && !m.html_closed_by_cond {
                    sl.len()
                } else {
                    let mut x = sl.len();
                    if x > 0 && sl[x - 1] == 0x0a {
                        x -= 1;
                        if x > 0 && sl[x - 1] == 0x0d {
                            x -= 1;
                        }
                    }
                    x
                };
                (keep, value_len)
            };
            m.html_value_end = m.cstart.saturating_add(value_len);
            m.cend = m.cstart.saturating_add(keep);
            set_node(&mut self.nodes, idx, m);
        } else if nd.kind == Kind::List {
            let tight = self.compute_tight(idx);
            let mut m = self.nd(idx);
            match m.list {
                Some(ld) => {
                    let mut l2 = ld;
                    l2.tight = tight;
                    m.list = Some(l2);
                    set_node(&mut self.nodes, idx, m);
                },
                None => {},
            }
        } else if nd.kind == Kind::DefList {
            // A trailing plain paragraph never got a description: evict it to
            // become the list's next sibling, an ordinary paragraph.
            match self.nd(idx).last_child {
                Some(lc) => {
                    if self.nd(lc).kind == Kind::Paragraph {
                        self.unlink(lc);
                        let after = self.nd(idx).next_sibling;
                        let mut p = self.nd(lc);
                        p.parent = parent;
                        p.next_sibling = after;
                        set_node(&mut self.nodes, lc, p);
                        let mut d = self.nd(idx);
                        d.next_sibling = Some(lc);
                        set_node(&mut self.nodes, idx, d);
                        let mut pp = self.nd(parent);
                        if pp.last_child == Some(idx) {
                            pp.last_child = Some(lc);
                            set_node(&mut self.nodes, parent, pp);
                        }
                    }
                },
                None => {},
            }
        }
        if self.tip == idx {
            self.tip = self.nd(idx).parent;
        }
    }

    /// The bytes of node `idx`'s content range.
    spec fn content_slice(&self, idx: int) -> Seq<u8> {
        let n = self.nodes@[idx];
        let st = if n.content_src {
            self.source@
        } else {
            self.buf@
        };
        st.subrange(
            crate::bytes::clamp_lo(st.len() as int, n.cstart as int),
            crate::bytes::clamp_hi(st.len() as int, n.cstart as int, n.cend as int),
        )
    }

    /// The text of paragraph `idx` from its first non-blank byte on, where
    /// its reference definitions begin.
    spec fn def_text(&self, idx: int) -> Seq<u8> {
        let sl = self.content_slice(idx);
        sl.subrange(crate::bytes::lead_count(sl, WS_NL), sl.len() as int)
    }

    fn finalize_paragraph(&mut self, idx: usize)
        requires
            old(self).wf(),
            idx < old(self).nodes@.len(),
        ensures
            final(self).extends(old(self)),
            forall|key: Seq<u8>| #[trigger] final(self).refmap.get_spec(key) == first_wins(
                old(self).refmap.get_spec(key),
                first_def(
                    def_views(old(self).def_text(idx as int)),
                    key,
                    def_views(old(self).def_text(idx as int)).len() as int,
                ),
            ),
            forall|j: int| 0 <= j < old(self).nodes@.len() ==> (#[trigger] final(self).nodes@[j]).open == old(self).nodes@[j].open,
            final(self).tip == old(self).tip,
    {
        let n = self.nd(idx);
        let s = n.cstart;
        let (lead_n, off, defs, empty, hl, inner_len) = {
            let sl = slice(self.store(n.content_src), n.cstart, n.cend);
            let lead_n = crate::bytes::lead(sl, WS_NL);
            let dt = tail(sl, lead_n);
            proof {
                crate::bytes::lemma_lead_count(sl@, WS_NL, lead_n as int);
                assert(dt@ == self.def_text(idx as int));
            }
            let (off, defs) = take_ref_defs(dt);
            proof {
                crate::links::lemma_take_ref_defs_views(dt@, defs@);
            }
            let body = tail(sl, lead_n + off);
            let hl = crate::bytes::lead(body, NL);
            let inner = trim(body, NL);
            let empty = trim(body, WS_NL).len() == 0;
            (lead_n, off, defs, empty, hl, inner.len())
        };
        self.register_defs(&defs);
        if empty {
            self.unlink(idx);
        } else {
            let bs = s.saturating_add(lead_n).saturating_add(off);
            let mut m = self.nd(idx);
            m.cstart = bs.saturating_add(hl);
            m.cend = m.cstart.saturating_add(inner_len);
            set_node(&mut self.nodes, idx, m);
        }
    }

    /// Add reference definitions to the map; the first definition of a
    /// label wins.
    fn register_defs(&mut self, defs: &Vec<crate::links::RawDef>)
        requires
            old(self).wf(),
        ensures
            final(self).wf(),
            final(self).source@ == old(self).source@,
            final(self).nodes@ == old(self).nodes@,
            final(self).tip == old(self).tip,
            forall|key: Seq<u8>| #[trigger] final(self).refmap.get_spec(key) == first_wins(
                old(self).refmap.get_spec(key),
                first_def(raw_views(defs@), key, defs@.len() as int),
            ),
    {
        let mut k: usize = 0;
        while k < defs.len()
            invariant
                self.wf(),
                self.nodes@ == old(self).nodes@,
                self.source@ == old(self).source@,
                self.tip == old(self).tip,
                k <= defs@.len(),
                forall|key: Seq<u8>| #[trigger] self.refmap.get_spec(key) == first_wins(
                    old(self).refmap.get_spec(key),
                    first_def(raw_views(defs@), key, k as int),
                ),
            decreases defs.len() - k,
        {
            proof {
                assert(raw_views(defs@)[k as int] == (defs@[k as int].0@, defs@[k as int].1@, crate::refmap::opt_view(
                    defs@[k as int].2,
                )));
            }
            let d = &defs[k];
            let key = normalize_label(d.0.as_slice());
            let dest = crate::bytes::to_vec(d.1.as_slice());
            let title = match &d.2 {
                Some(t) => Some(crate::bytes::to_vec(t.as_slice())),
                None => None,
            };
            let ghost kv = key@;
            let ghost dv = (dest@, crate::refmap::opt_view(title));
            proof {
                assert(crate::refmap::opt_view(title) == crate::refmap::opt_view(defs@[k as int].2)) by {
                    match defs@[k as int].2 {
                        Some(t) => {},
                        None => {},
                    }
                }
            }
            self.refmap.insert_first(key, dest, title);
            proof {
                assert forall|key2: Seq<u8>| #[trigger] self.refmap.get_spec(key2) == first_wins(
                    old(self).refmap.get_spec(key2),
                    first_def(raw_views(defs@), key2, k + 1),
                ) by {
                    assert(first_def(raw_views(defs@), key2, k + 1) == match first_def(raw_views(defs@), key2, k as int) {
                        Some(v) => Some(v),
                        None => if normalized_label(raw_views(defs@)[k as int].0) == key2 {
                            Some((raw_views(defs@)[k as int].1, raw_views(defs@)[k as int].2))
                        } else {
                            None
                        },
                    });
                }
            }
            k += 1;
        }
    }

    fn finalize_heading(&mut self, idx: usize)
        requires
            old(self).wf(),
            idx < old(self).nodes@.len(),
        ensures
            final(self).wf(),
            final(self).source@ == old(self).source@,
            final(self).nodes@.len() == old(self).nodes@.len(),
            final(self).refmap == old(self).refmap,
            forall|j: int| 0 <= j < old(self).nodes@.len() ==> (#[trigger] final(self).nodes@[j]).open == old(self).nodes@[j].open,
            final(self).tip == old(self).tip,
    {
        let mut m = self.nd(idx);
        let (hl, tlen) = {
            let sl = slice(self.store(m.content_src), m.cstart, m.cend);
            (crate::bytes::lead(sl, WS_NL), trim(sl, WS_NL).len())
        };
        m.cstart = m.cstart.saturating_add(hl);
        m.cend = m.cstart.saturating_add(tlen);
        set_node(&mut self.nodes, idx, m);
    }

    fn finalize_code(&mut self, idx: usize)
        requires
            old(self).wf(),
            idx < old(self).nodes@.len(),
        ensures
            final(self).wf(),
            final(self).source@ == old(self).source@,
            final(self).nodes@.len() == old(self).nodes@.len(),
            final(self).refmap == old(self).refmap,
            forall|j: int| 0 <= j < old(self).nodes@.len() ==> (#[trigger] final(self).nodes@[j]).open == old(self).nodes@[j].open,
            final(self).tip == old(self).tip,
    {
        let mut m = self.nd(idx);
        let s = m.cstart;
        let e = m.cend;
        if m.fenced {
            // The first line is the info string (kept as a range; the renderer
            // takes its first word); the rest is the literal.
            let (nl, ts, te) = {
                let sl = slice(self.store(m.content_src), s, e);
                let nl = match memchr1(sl, 0x0a) {
                    Some(p) => p,
                    None => sl.len(),
                };
                let (a, b) = crate::lines::trim_ws(slice(sl, 0, nl));
                (nl, a, b)
            };
            m.info_start = s.saturating_add(ts);
            m.info_end = s.saturating_add(te);
            let after = s.saturating_add(nl).saturating_add(1);
            m.cstart = if after < e { after } else { e };
        } else {
            let keep = code_indented_end(slice(self.store(m.content_src), s, e));
            m.cend = s.saturating_add(keep);
        }
        set_node(&mut self.nodes, idx, m);
    }

    /// Remove node `idx` from its parent's child list.
    fn unlink(&mut self, idx: usize)
        requires
            old(self).wf(),
            idx < old(self).nodes@.len(),
        ensures
            final(self).wf(),
            final(self).source@ == old(self).source@,
            final(self).nodes@.len() == old(self).nodes@.len(),
            final(self).tip == old(self).tip,
            final(self).refmap == old(self).refmap,
            forall|j: int| 0 <= j < old(self).nodes@.len() ==> (#[trigger] final(self).nodes@[j]).open == old(self).nodes@[j].open,
    {
        let n = self.nd(idx);
        let parent = n.parent;
        let next = n.next_sibling;
        let mut pn = self.nd(parent);
        if pn.first_child == Some(idx) {
            pn.first_child = next;
            if pn.last_child == Some(idx) {
                pn.last_child = None;
            }
            set_node(&mut self.nodes, parent, pn);
        } else {
            let mut prev = pn.first_child;
            let mut fuel = self.nodes.len();
            while fuel > 0
                invariant
                    self.wf(),
                    self.source@ == old(self).source@,
                    self.nodes@.len() == old(self).nodes@.len(),
                    self.refmap == old(self).refmap,
                    self.tip == old(self).tip,
                    self.nodes@ == old(self).nodes@,
                    link_ok(prev, self.nodes@.len() as int),
                decreases fuel,
            {
                match prev {
                    Some(p) => {
                        let ps = self.nd(p).next_sibling;
                        if ps == Some(idx) {
                            break;
                        }
                        prev = ps;
                    },
                    None => {
                        break;
                    },
                }
                fuel -= 1;
            }
            match prev {
                Some(p) => {
                    if self.nd(p).next_sibling == Some(idx) {
                        let mut pp = self.nd(p);
                        pp.next_sibling = next;
                        set_node(&mut self.nodes, p, pp);
                        let mut par = self.nd(parent);
                        if par.last_child == Some(idx) {
                            par.last_child = Some(p);
                            set_node(&mut self.nodes, parent, par);
                        }
                    }
                },
                None => {},
            }
        }
    }

    /// A list is tight unless a blank line separates two of its items or
    /// two blocks within an item.
    fn compute_tight(&self, list: usize) -> bool
        requires
            self.wf(),
            list < self.nodes@.len(),
    {
        let mut item = self.nd(list).first_child;
        let mut fuel = self.nodes.len();
        while fuel > 0
            invariant
                self.wf(),
                idx_ok(item, self.nodes@.len() as int),
            decreases fuel,
        {
            let it = match item {
                Some(x) => x,
                None => {
                    break;
                },
            };
            let item_last = self.nd(it).next_sibling.is_none();
            // A blank line at the end of an item that is not the last.
            if !item_last && self.ends_with_blank_line(it) {
                return false;
            }
            let mut sub = self.nd(it).first_child;
            let mut fuel2 = self.nodes.len();
            while fuel2 > 0
                invariant
                    self.wf(),
                    idx_ok(sub, self.nodes@.len() as int),
                decreases fuel2,
            {
                let sb = match sub {
                    Some(x) => x,
                    None => {
                        break;
                    },
                };
                let sub_last = self.nd(sb).next_sibling.is_none();
                if self.ends_with_blank_line(sb) && !(item_last && sub_last) {
                    return false;
                }
                sub = self.nd(sb).next_sibling;
                fuel2 -= 1;
            }
            item = self.nd(it).next_sibling;
            fuel -= 1;
        }
        true
    }

    fn ends_with_blank_line(&self, idx: usize) -> bool
        requires
            self.wf(),
            idx < self.nodes@.len(),
    {
        let mut i = idx;
        let mut fuel = self.nodes.len();
        while fuel > 0
            invariant
                self.wf(),
                i < self.nodes@.len(),
            decreases fuel,
        {
            let n = self.nd(i);
            if n.last_line_blank {
                return true;
            }
            if n.kind == Kind::List || n.kind == Kind::Item {
                match n.last_child {
                    Some(l) => {
                        i = l;
                    },
                    None => {
                        return false;
                    },
                }
            } else {
                return false;
            }
            fuel -= 1;
        }
        false
    }

    // ---- node field updates ----------------------------------------------

    fn set_kind(&mut self, i: usize, kind: Kind)
        requires
            old(self).wf(),
            0 < i < old(self).nodes@.len(),
        ensures
            final(self).wf(),
            final(self).source@ == old(self).source@,
            final(self).nodes@.len() == old(self).nodes@.len(),
            final(self).tip == old(self).tip,
    {
        let mut n = self.nd(i);
        n.kind = kind;
        set_node(&mut self.nodes, i, n);
    }

    fn set_level(&mut self, i: usize, level: u8)
        requires
            old(self).wf(),
            i < old(self).nodes@.len(),
        ensures
            final(self).wf(),
            final(self).source@ == old(self).source@,
            final(self).nodes@.len() == old(self).nodes@.len(),
            final(self).tip == old(self).tip,
    {
        let mut n = self.nd(i);
        n.level = level;
        set_node(&mut self.nodes, i, n);
    }

    fn set_last_line_blank(&mut self, i: usize, v: bool)
        requires
            old(self).wf(),
            i < old(self).nodes@.len(),
        ensures
            final(self).wf(),
            final(self).source@ == old(self).source@,
            final(self).nodes@.len() == old(self).nodes@.len(),
            final(self).tip == old(self).tip,
            final(self).blank == old(self).blank,
            final(self).offset == old(self).offset,
            final(self).line_start == old(self).line_start,
            final(self).line_end == old(self).line_end,
    {
        let mut n = self.nd(i);
        n.last_line_blank = v;
        set_node(&mut self.nodes, i, n);
    }

    // ---- frontmatter (document-prefix grammar) --------------------------

    /// Consume a leading YAML (`---`) or TOML (`+++`) frontmatter block and
    /// return the offset just past its closing fence line; `None` (nothing
    /// consumed) unless the input opens with a complete block.
    fn try_frontmatter(&mut self) -> (r: Option<usize>)
        requires
            old(self).wf(),
        ensures
            final(self).extends(old(self)),
            old(self).source@.len() > 0 && old(self).source@[0] != 0x2d && old(self).source@[0] != 0x2b ==> r is None
                && *final(self) == *old(self),
    {
        let len = self.source.len();
        let first_end = match memchr1(self.source.as_slice(), 0x0a) {
            Some(p) => p,
            None => len,
        };
        let marker = {
            let first = trim_cr(slice(self.source.as_slice(), 0, first_end));
            if first.len() == 0 {
                return None;
            }
            let m = first[0];
            proof {
                assert(first@[0] == self.source@[0]);
            }
            if m != 0x2d && m != 0x2b {
                return None;
            }
            if !is_fm_fence(first, m) {
                return None;
            }
            m
        };
        // A closing fence is required.
        if first_end >= len {
            return None;
        }
        let content_start = first_end + 1;
        let mut pos = content_start;
        let mut lines: usize = 1;
        while pos < len
            invariant
                self.wf(),
                self.nodes@ == old(self).nodes@,
                self.source@ == old(self).source@,
                len == self.source@.len(),
            decreases len - pos,
        {
            let end = match memchr1(tail(self.source.as_slice(), pos), 0x0a) {
                Some(p) => pos + p,
                None => len,
            };
            let is_close = is_fm_fence(trim_cr(slice(self.source.as_slice(), pos, end)), marker);
            lines = lines.saturating_add(1);
            if is_close {
                self.push_frontmatter(marker, content_start, pos);
                self.line_number = lines;
                return Some(if end < len { end + 1 } else { len });
            }
            pos = if end < len { end + 1 } else { len };
        }
        None
    }

    /// The frontmatter node, born closed, as the document's first child.
    fn push_frontmatter(&mut self, marker: u8, cstart: usize, cend: usize)
        requires
            old(self).wf(),
        ensures
            final(self).extends(old(self)),
    {
        let mut node = Node::new(Kind::Frontmatter, 0, 1);
        node.open = false;
        node.content_src = true;
        node.cstart = cstart;
        node.cend = cend;
        node.level = if marker == 0x2b { 1 } else { 0 };
        let idx = push_node(&mut self.nodes, node);
        self.link_last(0, idx);
    }

    // ---- main loop ------------------------------------------------------

    fn run(self) -> (t: Tree)
        requires
            self.wf(),
        ensures
            t.wf(),
            t.source_len_of() == self.source@.len(),
            t.opts_of() == self.opts,
            self.nodes@.len() == 1 && self.source@.len() > 0 && plain_first(self.source@[0], self.opts)
                ==> t.node_count() >= 2,
    {
        let ghost claim = self.nodes@.len() == 1 && self.source@.len() > 0 && plain_first(self.source@[0], self.opts);
        let mut p = self;
        let opts = p.opts;
        let len = p.source.len();
        let mut start: usize = 0;
        // Frontmatter is a document-prefix grammar, consumed before the
        // block loop.
        if p.opts.frontmatter {
            match p.try_frontmatter() {
                Some(resume) => {
                    start = resume;
                },
                None => {},
            }
        }
        while start < len
            invariant
                p.wf(),
                len == p.source@.len(),
                p.source@ == self.source@,
                claim && start == 0 ==> p.nodes@.len() == 1 && p.opts == self.opts,
                claim && start > 0 ==> p.nodes@.len() >= 2,
            decreases len - start,
        {
            let rest = tail(p.source.as_slice(), start);
            let found = memchr1(rest, 0x0a);
            proof {
                if claim && start == 0 {
                    assert(rest@[0] == p.source@[0]);
                    assert(found != Some(0usize));
                }
            }
            let end = match found {
                Some(k) => start + k,
                None => len,
            };
            p.line_start = start;
            p.line_end = end;
            p.incorporate_line();
            start = if end < len { end + 1 } else { len };
        }
        proof {
            if claim {
                assert(p.nodes@.len() >= 2);
            }
        }
        let ghost n_lines = p.nodes@.len();
        let mut fuel = p.nodes.len();
        while p.tip != 0 && fuel > 0
            invariant
                p.wf(),
                p.nodes@.len() >= n_lines,
            decreases fuel,
        {
            let t = p.tip;
            p.finalize(t);
            fuel -= 1;
        }
        p.finalize(0);
        Tree {
            nodes: p.nodes,
            root: 0,
            refmap: p.refmap,
            source_len: len,
            opts,
            source: p.source,
            buf: p.buf,
            fn_defs: p.fn_defs,
            directives: p.directives,
        }
    }

    fn incorporate_line(&mut self)
        requires
            old(self).wf(),
        ensures
            final(self).extends(old(self)),
            old(self).nodes@.len() == 1 && old(self).line_start < old(self).line_end && plain_first(
                old(self).source@[old(self).line_start as int],
                old(self).opts,
            ) ==> final(self).nodes@.len() >= 2,
    {
        let ghost scn = old(self).nodes@.len() == 1 && old(self).line_start < old(self).line_end && plain_first(
            old(self).source@[old(self).line_start as int],
            old(self).opts,
        );
        let mut container: usize = 0;
        self.oldtip = self.tip;
        self.line_number = self.line_number.saturating_add(1);
        self.offset = 0;
        self.column = 0;
        self.partially_consumed_tab = false;
        self.blank = false;
        // Phase 1: descend through open containers, checking continuation.
        let mut all_matched = true;
        let mut fuel = self.nodes.len();
        while fuel > 0
            invariant
                self.extends(old(self)),
                container < self.nodes@.len(),
                scn ==> container == 0 && self.nodes@.len() == 1 && self.offset == 0 && self.line_start
                    == old(self).line_start && self.line_end == old(self).line_end && self.opts == old(self).opts
                    && self.oldtip == self.tip,
            decreases fuel,
        {
            let lc = match self.last_child(container) {
                Some(lc) => lc,
                None => {
                    break;
                },
            };
            if !self.nd(lc).open {
                break;
            }
            container = lc;
            self.find_next_nonspace();
            let r = self.continue_block(container);
            if r == 1 {
                all_matched = false;
            } else if r == 2 {
                // The line was fully consumed (a closing fence).
                self.prev_blank = self.blank;
                return;
            }
            if !all_matched {
                container = self.nd(container).parent;
                break;
            }
            fuel -= 1;
        }
        self.all_closed = container == self.oldtip;
        self.last_matched_container = container;
        let ck = self.nd(container).kind;
        let mut matched_leaf = ck != Kind::Paragraph && accepts_lines(ck);
        // Phase 2: look for new block starts.
        let mut fuel2 = self.line_len().saturating_add(2);
        proof {
            if scn {
                assert(!matched_leaf);
            }
        }
        while !matched_leaf && fuel2 > 0
            invariant
                self.extends(old(self)),
                container < self.nodes@.len(),
                scn ==> container == 0 && self.nodes@.len() == 1 && self.offset == 0 && self.line_start
                    == old(self).line_start && self.line_end == old(self).line_end && self.opts == old(self).opts
                    && self.all_closed && fuel2 > 0 && !matched_leaf,
            decreases fuel2,
        {
            fuel2 -= 1;
            self.find_next_nonspace();
            // Fast skip: a non-indented line whose first non-space byte can
            // begin no block is paragraph text.
            let first = self.peek(self.next_nonspace);
            let fast_skip = !self.indented && !maybe_special(first) && !(self.opts.tables && (first
                == Some(0x7c) || first == Some(0x3a))) && !(self.opts.footnotes && first == Some(
                0x5b,
            )) && !((self.opts.deflist || self.opts.directives) && first == Some(0x3a));
            proof {
                if scn {
                    assert(first == Some(self.source@[self.line_start as int]));
                    assert(fast_skip);
                }
            }
            if fast_skip {
                self.advance_next_nonspace();
                break;
            }
            let mut found = false;
            let mut which: usize = 0;
            while which < NUM_STARTS
                invariant
                    self.extends(old(self)),
                    container < self.nodes@.len(),
                decreases NUM_STARTS - which,
            {
                let r = self.try_start(which, container);
                if r == 1 {
                    container = self.tip;
                    found = true;
                    break;
                } else if r == 2 {
                    container = self.tip;
                    matched_leaf = true;
                    found = true;
                    break;
                }
                which += 1;
            }
            if !found {
                self.advance_next_nonspace();
                break;
            }
        }
        // Phase 3: add text to the appropriate container.
        if !self.all_closed && !self.blank && self.nd(self.tip).kind == Kind::Paragraph {
            // Lazy paragraph continuation.
            self.add_line();
        } else {
            self.add_to_container(container);
        }
        self.prev_blank = self.blank;
    }

    /// Phase 3 for a line that is no lazy continuation: close unmatched
    /// blocks, record blank lines, and add the text to `container` or to a
    /// fresh paragraph.
    fn add_to_container(&mut self, container: usize)
        requires
            old(self).wf(),
            container < old(self).nodes@.len(),
        ensures
            final(self).extends(old(self)),
            old(self).all_closed && container == 0 && !old(self).blank && old(self).offset < old(self).line_end
                - old(self).line_start ==> final(self).nodes@.len() >= 2,
    {
        self.close_unmatched_blocks();
        if self.blank {
            match self.last_child(container) {
                Some(lc) => {
                    self.set_last_line_blank(lc, true);
                },
                None => {},
            }
        }
        let cn = self.nd(container);
        let t = cn.kind;
        let last_line_blank = self.blank && !(t == Kind::BlockQuote || (t == Kind::CodeBlock
            && cn.fenced) || (t == Kind::Item && cn.first_child.is_none() && cn.start_line
            == self.line_number));
        let mut c = container;
        let mut fuel3 = self.nodes.len();
        let ghost mid = *self;
        while fuel3 > 0
            invariant
                self.extends(old(self)),
                c < self.nodes@.len(),
                container < self.nodes@.len(),
                self.blank == mid.blank,
                self.offset == mid.offset,
                self.line_start == mid.line_start,
                self.line_end == mid.line_end,
                self.nodes@.len() == mid.nodes@.len(),
            decreases fuel3,
        {
            self.set_last_line_blank(c, last_line_blank);
            if c == 0 {
                break;
            }
            c = self.nd(c).parent;
            fuel3 -= 1;
        }
        if accepts_lines(t) {
            self.add_line();
            if t == Kind::HtmlBlock && self.html_block_closes(container) {
                self.close_html_block(container);
            }
        } else if self.offset < self.line_len() && !self.blank {
            self.add_child(Kind::Paragraph);
            self.advance_next_nonspace();
            self.add_line();
        }
    }

    /// An HTML block met its end condition on this line.
    fn close_html_block(&mut self, c: usize)
        requires
            old(self).wf(),
            c < old(self).nodes@.len(),
        ensures
            final(self).extends(old(self)),
    {
        let mut m = self.nd(c);
        m.html_closed_by_cond = true;
        set_node(&mut self.nodes, c, m);
        self.finalize(c);
    }

    fn html_block_closes(&self, c: usize) -> bool
        requires
            self.wf(),
            c < self.nodes@.len(),
    {
        html_block_ends(self.nd(c).html_kind, self.rest(self.offset))
    }

    // ---- continuation per block kind ------------------------------------

    /// 0 = matched, 1 = not matched, 2 = line fully consumed.
    fn continue_block(&mut self, c: usize) -> (r: u8)
        requires
            old(self).wf(),
            c < old(self).nodes@.len(),
        ensures
            final(self).extends(old(self)),
            ({
                let n = old(self).nodes@[c as int];
                let p = old(self);
                let rest = p.line_rest(p.next_nonspace as int);
                r == match n.kind {
                    Kind::Document | Kind::List | Kind::DefList => 0u8,
                    Kind::Frontmatter | Kind::DefTerm | Kind::LeafDirective | Kind::Heading
                    | Kind::ThematicBreak => 1u8,
                    Kind::Paragraph => if p.blank { 1u8 } else { 0u8 },
                    Kind::BlockQuote => if !p.indented && p.line_byte(p.next_nonspace as int) == Some(0x3eu8) {
                        0u8
                    } else {
                        1u8
                    },
                    Kind::FootnoteDef => if p.blank {
                        if n.first_child is None { 1u8 } else { 0u8 }
                    } else if p.indent >= 4 {
                        0u8
                    } else {
                        1u8
                    },
                    Kind::Item => if p.blank {
                        if n.first_child is None { 1u8 } else { 0u8 }
                    } else if p.indent >= (match n.list {
                        Some(ld) => if ld.marker_offset + ld.padding <= usize::MAX {
                            ld.marker_offset + ld.padding
                        } else {
                            usize::MAX as int
                        },
                        None => 0int,
                    }) {
                        0u8
                    } else {
                        1u8
                    },
                    Kind::DefDesc => if p.blank || (!p.indented && p.line_byte(p.next_nonspace as int) == Some(0x3au8)
                        && match p.line_byte(
                        if p.next_nonspace < usize::MAX { p.next_nonspace + 1 } else { usize::MAX as int },
                    ) {
                        Some(b) => b == 0x20 || b == 0x09,
                        None => false,
                    }) {
                        1u8
                    } else {
                        0u8
                    },
                    Kind::ContainerDirective => if !p.indented && crate::lines::colon_close_spec(rest, 0, n.fence_len as int) {
                        2u8
                    } else {
                        0u8
                    },
                    Kind::CodeBlock => if n.fenced {
                        if !p.indented && crate::lines::closing_fence_spec(rest, 0, n.fence_char, n.fence_len as int) {
                            2u8
                        } else {
                            0u8
                        }
                    } else if p.indent >= CODE_INDENT || p.blank {
                        0u8
                    } else {
                        1u8
                    },
                    Kind::HtmlBlock => if p.blank && (n.html_kind == 6 || n.html_kind == 7) { 1u8 } else { 0u8 },
                    Kind::Table => if p.blank || !rest.contains(0x7cu8) { 1u8 } else { 0u8 },
                }
            }),
    {
        let n = self.nd(c);
        match n.kind {
            Kind::Document => 0,
            // Frontmatter is born closed; never an open container.
            Kind::Frontmatter => 1,
            // A four-column content indent, lazy paragraph continuation, and
            // blank lines once it has content.
            Kind::FootnoteDef => {
                if self.blank {
                    if n.first_child.is_none() {
                        1
                    } else {
                        self.advance_next_nonspace();
                        0
                    }
                } else if self.indent >= 4 {
                    self.advance_offset(4, true);
                    0
                } else {
                    1
                }
            },
            Kind::BlockQuote => {
                if !self.indented && self.peek(self.next_nonspace) == Some(0x3e) {
                    self.advance_next_nonspace();
                    self.advance_offset(1, false);
                    if is_sp_tab_opt(self.peek(self.offset)) {
                        self.advance_offset(1, true);
                    }
                    0
                } else {
                    1
                }
            },
            Kind::Item => {
                let (marker_offset, padding) = match n.list {
                    Some(ld) => (ld.marker_offset, ld.padding),
                    None => (0, 0),
                };
                let need = marker_offset.saturating_add(padding);
                if self.blank {
                    if n.first_child.is_none() {
                        1
                    } else {
                        self.advance_next_nonspace();
                        0
                    }
                } else if self.indent >= need {
                    self.advance_offset(need, true);
                    0
                } else {
                    1
                }
            },
            Kind::List => 0,
            Kind::Paragraph => {
                if self.blank {
                    1
                } else {
                    0
                }
            },
            // A definition list stays open across blanks and term paragraphs.
            Kind::DefList => 0,
            // A description takes lazy continuation lines; a blank line or a
            // fresh `:` marker ends it.
            Kind::DefDesc => {
                if self.blank || self.is_def_marker() {
                    1
                } else {
                    0
                }
            },
            // Term holders are closed once their description is attached.
            Kind::DefTerm => 1,
            // A container directive runs to its closing colon fence.
            Kind::ContainerDirective => {
                if !self.indented && is_colon_close(self.rest(self.next_nonspace), 0, n.fence_len) {
                    self.finalize(c);
                    return 2;
                }
                0
            },
            // Leaf directives are single-line, born closed.
            Kind::LeafDirective => 1,
            Kind::Heading | Kind::ThematicBreak => 1,
            Kind::CodeBlock => {
                if n.fenced {
                    if !self.indented && is_closing_fence(
                        self.rest(self.next_nonspace),
                        0,
                        n.fence_char,
                        n.fence_len,
                    ) {
                        self.finalize(c);
                        return 2;
                    }
                    // Remove up to fence_offset columns of indentation.
                    let mut i: usize = 0;
                    while i < n.fence_offset && is_sp_tab_opt(self.peek(self.offset))
                        invariant
                            self.extends(old(self)),
                        decreases n.fence_offset - i,
                    {
                        self.advance_offset(1, true);
                        i += 1;
                    }
                    0
                } else if self.indent >= CODE_INDENT {
                    self.advance_offset(CODE_INDENT, true);
                    0
                } else if self.blank {
                    self.advance_next_nonspace();
                    0
                } else {
                    1
                }
            },
            Kind::HtmlBlock => {
                if self.blank && (n.html_kind == 6 || n.html_kind == 7) {
                    1
                } else {
                    0
                }
            },
            // A table continues while lines look like rows.
            Kind::Table => {
                if self.blank || !crate::bytes::contains(self.rest(self.next_nonspace), 0x7c) {
                    1
                } else {
                    0
                }
            },
        }
    }

    /// Is the current line a definition-list marker: `:` (indented less than
    /// four columns) followed by a space or tab?
    fn is_def_marker(&self) -> (r: bool)
        requires
            self.wf(),
        ensures
            r == (!self.indented && self.line_byte(self.next_nonspace as int) == Some(0x3au8) && match self.line_byte(
                if self.next_nonspace < usize::MAX { self.next_nonspace + 1 } else { usize::MAX as int },
            ) {
                Some(b) => b == 0x20 || b == 0x09,
                None => false,
            }),
    {
        !self.indented && self.peek(self.next_nonspace) == Some(0x3a) && is_sp_tab_opt(
            self.peek(self.next_nonspace.saturating_add(1)),
        )
    }

    // ---- block starts ---------------------------------------------------

    /// Try block-start matcher `which`: 0 = no match, 1 = a container
    /// opened, 2 = a leaf opened (the line is its content).
    fn try_start(&mut self, which: usize, container: usize) -> (r: u8)
        requires
            old(self).wf(),
            container < old(self).nodes@.len(),
        ensures
            final(self).extends(old(self)),
    {
        if which == 0 {
            self.start_block_quote()
        } else if which == 1 {
            self.start_atx_heading()
        } else if which == 2 {
            self.start_fenced_code()
        } else if which == 3 {
            self.start_html_block(container)
        } else if which == 4 {
            self.start_setext_heading(container)
        } else if which == 5 {
            self.start_thematic_break()
        } else if which == 6 {
            self.start_list_item(container)
        } else if which == 7 {
            self.start_indented_code()
        } else if which == 8 {
            self.start_footnote_def()
        } else if which == 9 {
            self.start_def_list(container)
        } else if which == 10 {
            self.start_directive()
        } else if which == 11 {
            self.start_table(container)
        } else {
            0
        }
    }

    fn start_block_quote(&mut self) -> (r: u8)
        requires
            old(self).wf(),
        ensures
            final(self).extends(old(self)),
    {
        if !self.indented && self.peek(self.next_nonspace) == Some(0x3e) {
            self.advance_next_nonspace();
            self.advance_offset(1, false);
            if is_sp_tab_opt(self.peek(self.offset)) {
                self.advance_offset(1, true);
            }
            self.close_unmatched_blocks();
            self.add_child(Kind::BlockQuote);
            1
        } else {
            0
        }
    }

    fn start_atx_heading(&mut self) -> (r: u8)
        requires
            old(self).wf(),
        ensures
            final(self).extends(old(self)),
    {
        if self.indented {
            return 0;
        }
        let hashes = {
            let rest = self.rest(self.next_nonspace);
            let h = crate::bytes::run_len(rest, 0, 0x23);
            if h == 0 || h > 6 {
                return 0;
            }
            if h < rest.len() && rest[h] != 0x20 && rest[h] != 0x09 {
                return 0;
            }
            h
        };
        self.advance_next_nonspace();
        self.advance_offset(hashes, false);
        self.close_unmatched_blocks();
        let h = self.add_child(Kind::Heading);
        self.set_level(h, hashes as u8);
        let content = crate::bytes::to_vec(atx_content(self.rest(self.offset)));
        let start = self.buf.len();
        append(&mut self.buf, content.as_slice());
        let mut m = self.nd(h);
        m.cstart = start;
        m.cend = self.buf.len();
        set_node(&mut self.nodes, h, m);
        self.consume_line();
        2
    }

    fn start_fenced_code(&mut self) -> (r: u8)
        requires
            old(self).wf(),
        ensures
            final(self).extends(old(self)),
    {
        if self.indented {
            return 0;
        }
        let (fence_char, fence_len) = match fence_opener(self.rest(self.next_nonspace)) {
            Some(f) => f,
            None => {
                return 0;
            },
        };
        self.close_unmatched_blocks();
        let cb = self.add_child(Kind::CodeBlock);
        let mut m = self.nd(cb);
        m.fenced = true;
        m.fence_char = fence_char;
        m.fence_len = fence_len;
        m.fence_offset = self.indent;
        set_node(&mut self.nodes, cb, m);
        self.advance_next_nonspace();
        self.advance_offset(fence_len, false);
        2
    }

    fn start_html_block(&mut self, container: usize) -> (r: u8)
        requires
            old(self).wf(),
            container < old(self).nodes@.len(),
        ensures
            final(self).extends(old(self)),
    {
        if self.indented || self.peek(self.next_nonspace) != Some(0x3c) {
            return 0;
        }
        let in_paragraph = self.nd(container).kind == Kind::Paragraph;
        let kind = match html_block_open(self.rest(self.next_nonspace), in_paragraph) {
            Some(k) => k,
            None => {
                return 0;
            },
        };
        self.close_unmatched_blocks();
        let h = self.add_child(Kind::HtmlBlock);
        let mut m = self.nd(h);
        m.html_kind = kind;
        set_node(&mut self.nodes, h, m);
        2
    }

    fn start_setext_heading(&mut self, container: usize) -> (r: u8)
        requires
            old(self).wf(),
            container < old(self).nodes@.len(),
        ensures
            final(self).extends(old(self)),
    {
        if self.indented || self.nd(container).kind != Kind::Paragraph {
            return 0;
        }
        let level = match setext_level(self.rest(self.next_nonspace)) {
            Some(l) => l,
            None => {
                return 0;
            },
        };
        self.close_unmatched_blocks();
        // Strip leading reference definitions from the paragraph; if nothing
        // remains, this is no heading.
        let n = self.nd(container);
        let (lead_n, off, defs, empty) = {
            let sl = slice(self.store(n.content_src), n.cstart, n.cend);
            let lead_n = crate::bytes::lead(sl, WS_NL);
            let (off, defs) = take_ref_defs(tail(sl, lead_n));
            let empty = trim(tail(sl, lead_n + off), WS_NL).len() == 0;
            (lead_n, off, defs, empty)
        };
        if empty {
            // Only reference definitions: the paragraph's finalize registers
            // them.
            return 0;
        }
        self.register_defs(&defs);
        // The paragraph node becomes the heading; finalize trims the range.
        let mut m = self.nd(container);
        m.kind = Kind::Heading;
        m.level = level;
        m.cstart = n.cstart.saturating_add(lead_n).saturating_add(off);
        set_node(&mut self.nodes, container, m);
        self.consume_line();
        2
    }

    /// GFM pipe table: the line is a delimiter row and the open paragraph is
    /// a one-line header with as many cells. The paragraph node becomes the
    /// table; this and later rows are its content.
    fn start_table(&mut self, container: usize) -> (r: u8)
        requires
            old(self).wf(),
            container < old(self).nodes@.len(),
        ensures
            final(self).extends(old(self)),
    {
        if self.indented || !self.opts.tables || self.nd(container).kind != Kind::Paragraph {
            return 0;
        }
        let ncols = match delim_row_cols(self.rest(self.next_nonspace)) {
            Some(c) => c,
            None => {
                return 0;
            },
        };
        let n = self.nd(container);
        let header_ok = {
            let header = trim(slice(self.store(n.content_src), n.cstart, n.cend), WS_NL);
            header.len() > 0 && !crate::bytes::contains(header, 0x0a) && count_cells(header)
                == ncols
        };
        if !header_ok {
            return 0;
        }
        self.close_unmatched_blocks();
        self.set_kind(container, Kind::Table);
        2
    }

    fn start_thematic_break(&mut self) -> (r: u8)
        requires
            old(self).wf(),
        ensures
            final(self).extends(old(self)),
    {
        if self.indented {
            return 0;
        }
        if is_thematic_break(self.rest(self.next_nonspace)) {
            self.close_unmatched_blocks();
            self.add_child(Kind::ThematicBreak);
            self.consume_line();
            2
        } else {
            0
        }
    }

    /// A list item opens at a list marker. It joins the open list at the tip
    /// only where that list's marker matches its own; otherwise a new list
    /// opens around it.
    fn start_list_item(&mut self, container: usize) -> (r: u8)
        requires
            old(self).wf(),
            container < old(self).nodes@.len(),
        ensures
            final(self).extends(old(self)),
            r == 1 ==> item_in_its_list(final(self).nodes@, final(self).tip as int),
    {
        if self.indented && self.nd(container).kind != Kind::List {
            return 0;
        }
        let in_paragraph = self.nd(container).kind == Kind::Paragraph;
        let data = match self.parse_list_marker(in_paragraph) {
            Some(d) => d,
            None => {
                return 0;
            },
        };
        self.close_unmatched_blocks();
        let t = self.nd(self.tip);
        let tip_is_matching_list = t.kind == Kind::List && match t.list {
            Some(l) => lists_match(&l, &data),
            None => false,
        };
        if !tip_is_matching_list {
            let l = self.add_child(Kind::List);
            let mut m = self.nd(l);
            m.list = Some(data);
            set_node(&mut self.nodes, l, m);
        }
        let item = self.add_child(Kind::Item);
        let mut m = self.nd(item);
        m.list = Some(data);
        set_node(&mut self.nodes, item, m);
        1
    }

    /// GFM footnote definition `[^label]: …`: opens a `FootnoteDef`
    /// container; the rest of the line flows into it.
    fn start_footnote_def(&mut self) -> (r: u8)
        requires
            old(self).wf(),
        ensures
            final(self).extends(old(self)),
    {
        if !self.opts.footnotes || self.indented {
            return 0;
        }
        let (label, consumed) = {
            let rest = self.rest(self.next_nonspace);
            match footnote_label_end(rest) {
                Some(e) => (crate::bytes::to_vec(slice(rest, 2, e)), e + 2),
                None => {
                    return 0;
                },
            }
        };
        self.close_unmatched_blocks();
        let f = self.add_child(Kind::FootnoteDef);
        let identifier = lowercase_utf8(label.as_slice());
        let fi = self.fn_defs.len();
        self.fn_defs.push(FnDef { label, identifier });
        let mut m = self.nd(f);
        m.fn_idx = Some(fi);
        set_node(&mut self.nodes, f, m);
        // Consume `[^label]:` and one optional space or tab.
        self.advance_next_nonspace();
        self.advance_offset(consumed, false);
        if is_sp_tab_opt(self.peek(self.offset)) {
            self.advance_offset(1, true);
        }
        1
    }

    /// Definition list: a `: definition` line attaches a description to the
    /// preceding term paragraph, opening a `<dl>`; a blank line before the
    /// marker makes the description loose.
    fn start_def_list(&mut self, container: usize) -> (r: u8)
        requires
            old(self).wf(),
            container < old(self).nodes@.len(),
        ensures
            final(self).extends(old(self)),
    {
        if !self.opts.deflist || self.indented || !self.is_def_marker() {
            return 0;
        }
        let loose = self.prev_blank;
        let ck = self.nd(container).kind;
        if ck == Kind::Paragraph {
            // The open paragraph above the marker is the term.
            let para = container;
            let parent = self.nd(para).parent;
            let mut m = self.nd(para);
            m.kind = Kind::DefTerm;
            m.open = false;
            set_node(&mut self.nodes, para, m);
            if self.nd(parent).kind == Kind::DefList {
                self.tip = parent;
            } else {
                let dl = self.splice_def_list(parent, para);
                self.tip = dl;
            }
        } else if ck == Kind::DefList {
            // Another description for the most recent term.
            self.close_unmatched_blocks();
            self.tip = container;
        } else {
            // A blank line separated the term: it is the container's closed
            // last-child paragraph.
            let lc = match self.last_child(container) {
                Some(lc) => lc,
                None => {
                    return 0;
                },
            };
            if self.nd(lc).kind != Kind::Paragraph {
                return 0;
            }
            let mut m = self.nd(lc);
            m.kind = Kind::DefTerm;
            m.open = false;
            set_node(&mut self.nodes, lc, m);
            let dl = self.splice_def_list(container, lc);
            self.tip = dl;
        }
        let dd = self.add_child(Kind::DefDesc);
        self.set_level(dd, if loose { 1 } else { 0 });
        // Consume `:` and one optional space or tab.
        self.advance_next_nonspace();
        self.advance_offset(1, false);
        if is_sp_tab_opt(self.peek(self.offset)) {
            self.advance_offset(1, true);
        }
        2
    }

    /// Put a fresh `DefList` where `para` sits among `parent`'s children and
    /// move `para` inside it. Returns the list.
    fn splice_def_list(&mut self, parent: usize, para: usize) -> (dl: usize)
        requires
            old(self).wf(),
            parent < old(self).nodes@.len(),
            0 < para < old(self).nodes@.len(),
        ensures
            final(self).extends(old(self)),
            dl < final(self).nodes@.len(),
    {
        let pn = self.nd(para);
        let mut node = Node::new(Kind::DefList, parent, pn.start_line);
        node.first_child = Some(para);
        node.last_child = Some(para);
        node.next_sibling = pn.next_sibling;
        let dl = push_node(&mut self.nodes, node);
        let par = self.nd(parent);
        if par.first_child == Some(para) {
            let mut m = self.nd(parent);
            m.first_child = Some(dl);
            set_node(&mut self.nodes, parent, m);
        } else {
            let mut prev = par.first_child;
            let mut fuel = self.nodes.len();
            while fuel > 0
                invariant
                    self.extends(old(self)),
                    dl < self.nodes@.len(),
                    link_ok(prev, self.nodes@.len() as int),
                decreases fuel,
            {
                match prev {
                    Some(p) => {
                        let ps = self.nd(p).next_sibling;
                        if ps == Some(para) {
                            let mut m = self.nd(p);
                            m.next_sibling = Some(dl);
                            set_node(&mut self.nodes, p, m);
                            break;
                        }
                        prev = ps;
                    },
                    None => {
                        break;
                    },
                }
                fuel -= 1;
            }
        }
        let par2 = self.nd(parent);
        if par2.last_child == Some(para) {
            let mut m = par2;
            m.last_child = Some(dl);
            set_node(&mut self.nodes, parent, m);
        }
        let mut pm = self.nd(para);
        pm.parent = dl;
        pm.next_sibling = None;
        set_node(&mut self.nodes, para, pm);
        dl
    }

    /// Block directives: a leaf `::name…` (one line) or a container
    /// `:::name…` … `:::`. The opening line must hold only the header.
    fn start_directive(&mut self) -> (r: u8)
        requires
            old(self).wf(),
        ensures
            final(self).extends(old(self)),
    {
        if !self.opts.directives || self.indented {
            return 0;
        }
        let base0 = self.line_start.saturating_add(self.next_nonspace);
        let (colons, name, attrs, label) = {
            let rest = self.rest(self.next_nonspace);
            let colons = crate::bytes::run_len(rest, 0, 0x3a);
            if colons < 2 {
                return 0;
            }
            let h = match parse_header(tail(rest, colons)) {
                Some(h) => h,
                None => {
                    return 0;
                },
            };
            // The remainder of the opening line must be blank.
            let after = tail(rest, colons.saturating_add(h.consumed));
            let mut k: usize = 0;
            while k < after.len()
                invariant
                    k <= after@.len(),
                decreases after.len() - k,
            {
                let b = after[k];
                if !(b == 0x20 || b == 0x09 || b == 0x0d || b == 0x0a) {
                    return 0;
                }
                k += 1;
            }
            let name = crate::bytes::to_vec(slice(tail(rest, colons), h.name_start, h.name_end));
            let base = base0.saturating_add(colons);
            let label = match h.label {
                Some((a, b)) => Some((base.saturating_add(a), base.saturating_add(b))),
                None => None,
            };
            (colons, name, h.attrs, label)
        };
        let di = self.directives.len();
        self.directives.push(DirData { name, attrs, label });
        self.close_unmatched_blocks();
        let kind = if colons == 2 {
            Kind::LeafDirective
        } else {
            Kind::ContainerDirective
        };
        let node = self.add_child(kind);
        let mut m = self.nd(node);
        m.fn_idx = Some(di);
        if colons >= 3 {
            m.fenced = true;
            m.fence_char = 0x3a;
            m.fence_len = colons;
        }
        set_node(&mut self.nodes, node, m);
        // The opening line never becomes child content.
        self.consume_line();
        if colons == 2 {
            2
        } else {
            1
        }
    }

    fn start_indented_code(&mut self) -> (r: u8)
        requires
            old(self).wf(),
        ensures
            final(self).extends(old(self)),
    {
        if self.indented && self.nd(self.tip).kind != Kind::Paragraph && !self.blank {
            self.advance_offset(CODE_INDENT, true);
            self.close_unmatched_blocks();
            self.add_child(Kind::CodeBlock);
            2
        } else {
            0
        }
    }

    /// A list marker at the first non-space byte: bullet `-+*`, or up to nine
    /// digits then `.`/`)`, followed by a space, tab or the line end. On a
    /// match the marker and its following spaces are consumed.
    fn parse_list_marker(&mut self, in_paragraph: bool) -> (r: Option<ListData>)
        requires
            old(self).wf(),
        ensures
            final(self).extends(old(self)),
            final(self).nodes@ == old(self).nodes@,
    {
        if self.indent >= 4 {
            return None;
        }
        let marker_offset = self.indent;
        let (ordered, bullet, start, delimiter, marker_width) = match list_marker(
            self.rest(self.next_nonspace),
            in_paragraph,
        ) {
            Some(m) => m,
            None => {
                return None;
            },
        };
        self.advance_next_nonspace();
        self.advance_offset(marker_width, true);
        let spaces_start_col = self.column;
        let spaces_start_offset = self.offset;
        let mut fuel: usize = 8;
        while fuel > 0
            invariant
                self.extends(old(self)),
                self.nodes@ == old(self).nodes@,
                self.column >= spaces_start_col,
            decreases fuel,
        {
            self.advance_offset(1, true);
            if self.column - spaces_start_col >= 5 || !is_sp_tab_opt(self.peek(self.offset)) {
                break;
            }
            fuel -= 1;
        }
        let blank_item = self.peek(self.offset).is_none();
        let spaces = self.column - spaces_start_col;
        let padding = if spaces < 1 || spaces >= 5 || blank_item {
            self.column = spaces_start_col;
            self.offset = spaces_start_offset;
            if is_sp_tab_opt(self.peek(self.offset)) {
                self.advance_offset(1, true);
            }
            marker_width + 1
        } else {
            marker_width + spaces
        };
        Some(
            ListData {
                ordered,
                bullet,
                start,
                delimiter,
                padding,
                marker_offset,
                tight: true,
            },
        )
    }
}

} // verus!
