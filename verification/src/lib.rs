//! sparkdown — a CommonMark 0.31.2 parser and HTML renderer, with opt-in
//! GFM extensions (strikethrough, task lists, extended autolinks, the tag
//! filter, pipe tables) and further extensions (hard wraps, diagrams,
//! frontmatter, footnote definitions, definition lists, directives).
//!
//! The block parser builds a node arena, the inline parser runs lazily per
//! block at render time, and the renderer walks the arena emitting HTML.

pub mod scan;
pub mod bytes;
pub mod entities;
pub mod std_calls;
pub mod chars;
pub mod options;
pub mod refmap;
pub mod escape;
pub mod syntax;
pub mod links;
pub mod gfm;
pub mod tagfilter;
pub mod inline;
pub mod lines;
pub mod directive;
pub mod block;
pub mod render;
pub mod arena;
pub mod frame;
pub mod ast;

pub use options::Options;

use vstd::prelude::*;
use vstd::string::StringSliceAdditionalSpecFns;
use block::{parse_with, parse_with_opts, Node};
use inline::Scratch;
use refmap::RefMap;

verus! {

/// Render CommonMark `src` to HTML (full CommonMark 0.31.2).
///
/// For opt-in GFM and extensions use [`to_html_with`]; for repeated
/// rendering use a reusable [`Renderer`].
pub fn to_html(src: &str) -> String {
    render_html(src, Options::default())
}

/// Render `src` to HTML with opt-in [`Options`]. With `Options::default()`
/// this is exactly [`to_html`].
pub fn to_html_with(src: &str, opts: &Options) -> String {
    render_html(src, *opts)
}

fn render_html(src: &str, opts: Options) -> String {
    let tree = parse_with_opts(src, opts);
    render::render(&tree)
}

/// A reusable rendering context that keeps its working buffers (node arena,
/// text buffer, reference map, inline scratch, and output) across renders.
pub struct Renderer {
    scratch: Scratch,
    out: String,
    nodes: Vec<Node>,
    buf: Vec<u8>,
    refmap: RefMap,
    opts: Options,
}

impl Renderer {
    /// An empty context (CommonMark, no options).
    pub fn new() -> (r: Self)
        ensures
            r.options_of() == Options::none_spec(),
    {
        Self::with_options(Options::default())
    }

    /// A context applying `opts` to every render.
    pub fn with_options(opts: Options) -> (r: Self)
        ensures
            r.options_of() == opts,
    {
        Renderer {
            scratch: Scratch::new(),
            out: String::new(),
            nodes: Vec::new(),
            buf: Vec::new(),
            refmap: RefMap::new(),
            opts,
        }
    }

    /// The options this context renders with.
    pub closed spec fn options_of(&self) -> Options {
        self.opts
    }

    /// Apply `opts` to the following renders.
    pub fn set_options(&mut self, opts: Options)
        ensures
            final(self).options_of() == opts,
    {
        self.opts = opts;
    }

    /// Render CommonMark `src` to HTML, reusing the held buffers. The
    /// returned string borrows the context until the next call.
    pub fn render(&mut self, src: &str) -> (r: &str)
        ensures
            final(self).options_of() == old(self).options_of(),
    {
        self.out = String::new();
        let mut nodes: Vec<Node> = Vec::new();
        let mut buf: Vec<u8> = Vec::new();
        let mut refmap = RefMap::new();
        core::mem::swap(&mut nodes, &mut self.nodes);
        core::mem::swap(&mut buf, &mut self.buf);
        core::mem::swap(&mut refmap, &mut self.refmap);
        let tree = parse_with(src, self.opts, nodes, buf, refmap);
        render::render_with(&tree, &mut self.out, &mut self.scratch);
        let (n, b, m) = tree.recycle();
        self.nodes = n;
        self.buf = b;
        self.refmap = m;
        self.out.as_str()
    }
}

impl Default for Renderer {
    fn default() -> (r: Self)
        ensures
            r.options_of() == Options::none_spec(),
    {
        Self::new()
    }
}

} // verus!
