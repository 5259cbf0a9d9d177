//! Opt-in parser/renderer options. The default (all off) is pure CommonMark;
//! every flag is checked at a block- or inline-type boundary.

use vstd::prelude::*;

verus! {

/// Feature flags layered on top of CommonMark 0.31.2. All default to off.
#[derive(Clone, Copy, Debug, PartialEq, Eq)]
pub struct Options {
    /// GFM `~~strikethrough~~` → `<del>`.
    pub strikethrough: bool,
    /// GFM task list items: `- [ ]` / `- [x]`.
    pub tasklist: bool,
    /// GFM extended autolinks (bare `www.`/`http(s)://`/email).
    pub autolink: bool,
    /// GFM tag filter — neutralize a few raw-HTML tags (`<script>`, …).
    pub tagfilter: bool,
    /// GFM pipe tables.
    pub tables: bool,
    /// Render every soft line break as `<br />`.
    pub hard_wraps: bool,
    /// Render `mermaid` fenced code blocks as a client-side
    /// `<pre class="mermaid">` wrapper.
    pub diagram: bool,
    /// Emit a slug `id` on every heading.
    pub heading_ids: bool,
    /// A YAML (`---`) or TOML (`+++`) fenced block at the very start of the
    /// document. Renders to nothing.
    pub frontmatter: bool,
    /// Emoji shortcodes `:smile:`.
    pub emoji: bool,
    /// Add `rel="nofollow"` to links whose href begins with `http://`/`https://`.
    pub external_links: bool,
    /// GFM footnotes: `[^label]` references and `[^label]: …` definitions.
    pub footnotes: bool,
    /// Definition lists: a term paragraph followed by `: definition` lines.
    pub deflist: bool,
    /// Directives: `:name[label]{attrs}`, `::name…`, `:::name…` … `:::`.
    pub directives: bool,
}

impl Options {
    /// Every flag off.
    pub open spec fn none_spec() -> Options {
        Options {
            strikethrough: false,
            tasklist: false,
            autolink: false,
            tagfilter: false,
            tables: false,
            hard_wraps: false,
            diagram: false,
            heading_ids: false,
            frontmatter: false,
            emoji: false,
            external_links: false,
            footnotes: false,
            deflist: false,
            directives: false,
        }
    }

    /// GitHub Flavored Markdown: every GFM extension enabled (strikethrough,
    /// task lists, extended autolinks, tag filter, tables), everything else off.
    pub fn gfm() -> (o: Self)
        ensures
            o == (Options {
                strikethrough: true,
                tasklist: true,
                autolink: true,
                tagfilter: true,
                tables: true,
                ..Options::none_spec()
            }),
    {
        Options {
            strikethrough: true,
            tasklist: true,
            autolink: true,
            tagfilter: true,
            tables: true,
            hard_wraps: false,
            diagram: false,
            heading_ids: false,
            frontmatter: false,
            emoji: false,
            external_links: false,
            footnotes: false,
            deflist: false,
            directives: false,
        }
    }
}

/// Is bit `bit` of `flags` set?
pub open spec fn bit_set(flags: u32, bit: u32) -> bool {
    flags & bit != 0
}

/// Decode an extension bitmask into [`Options`]. Bit layout, least
/// significant first: 0 strikethrough, 1 task lists, 2 autolinks, 3 tag
/// filter, 4 tables, 5 hard wraps, 6 diagram, 7 heading ids, 8 frontmatter,
/// 9 footnotes, 10 emoji, 11 external links, 12 definition lists, 13
/// directives.
pub fn opts_from_flags(flags: u32) -> (o: Options)
    ensures
        o == flags_spec(flags),
{
    Options {
        strikethrough: flags & 1 != 0,
        tasklist: flags & 2 != 0,
        autolink: flags & 4 != 0,
        tagfilter: flags & 8 != 0,
        tables: flags & 16 != 0,
        hard_wraps: flags & 32 != 0,
        diagram: flags & 64 != 0,
        heading_ids: flags & 128 != 0,
        frontmatter: flags & 256 != 0,
        footnotes: flags & 512 != 0,
        emoji: flags & 1024 != 0,
        external_links: flags & 2048 != 0,
        deflist: flags & 4096 != 0,
        directives: flags & 8192 != 0,
    }
}

/// The options a bitmask decodes to.
pub open spec fn flags_spec(flags: u32) -> Options {
    Options {
        strikethrough: bit_set(flags, 1),
        tasklist: bit_set(flags, 2),
        autolink: bit_set(flags, 4),
        tagfilter: bit_set(flags, 8),
        tables: bit_set(flags, 16),
        hard_wraps: bit_set(flags, 32),
        diagram: bit_set(flags, 64),
        heading_ids: bit_set(flags, 128),
        frontmatter: bit_set(flags, 256),
        footnotes: bit_set(flags, 512),
        emoji: bit_set(flags, 1024),
        external_links: bit_set(flags, 2048),
        deflist: bit_set(flags, 4096),
        directives: bit_set(flags, 8192),
    }
}

/// Flags law: only the fourteen low bits count; any higher bits are
/// ignored.
pub proof fn lemma_high_flags_ignored(flags: u32)
    ensures
        flags_spec(flags) == flags_spec(flags & 0x3fff),
{
    let m = flags & 0x3fff;
    assert(m == flags & 0x3fff ==> (m & 1 == flags & 1 && m & 2 == flags & 2 && m & 4 == flags & 4
        && m & 8 == flags & 8 && m & 16 == flags & 16 && m & 32 == flags & 32 && m & 64 == flags & 64
        && m & 128 == flags & 128 && m & 256 == flags & 256 && m & 512 == flags & 512 && m & 1024
        == flags & 1024 && m & 2048 == flags & 2048 && m & 4096 == flags & 4096 && m & 8192 == flags
        & 8192)) by (bit_vector);
}

impl Default for Options {
    /// Every flag off (pure CommonMark).
    fn default() -> (o: Self)
        ensures
            o == Options::none_spec(),
    {
        Options {
            strikethrough: false,
            tasklist: false,
            autolink: false,
            tagfilter: false,
            tables: false,
            hard_wraps: false,
            diagram: false,
            heading_ids: false,
            frontmatter: false,
            emoji: false,
            external_links: false,
            footnotes: false,
            deflist: false,
            directives: false,
        }
    }
}

} // verus!
