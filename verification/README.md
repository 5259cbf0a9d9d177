# sparkdown

A CommonMark 0.31.2 parser and HTML renderer written in Verus. Every
function verifies, but the contracts specify the work only in part: the
line classifiers, scanners, link syntax, entities, escaping, the
emphasis-free inline stream, the renderer for documents of block quotes,
lists and leaf blocks, and the mdast tree's HTML and JSON forms are
specified exactly; the block parser's tree shape, emphasis and link
resolution, and the top-level `to_html` output are not. Opt-in
`Options` add GFM strikethrough, task lists, extended autolinks, the tag
filter and pipe tables, plus hard wraps, `mermaid` diagram blocks,
frontmatter, footnote definitions, definition lists and directives.

```rust
assert_eq!(sparkdown::to_html("*b*"), "<p><em>b</em></p>\n");
```

## Layout

- `lib.rs` — `to_html`, `to_html_with`, and the reusable `Renderer`.
- `block.rs` — the block parser: line-by-line continuation, block starts,
  and a node arena (`Tree`) whose links always stay in range.
- `lines.rs` — line classifiers (thematic breaks, headings, fences, table
  rows, HTML block starts) with exact specifications.
- `inline.rs` — the inline parser: a streaming fast path, specified exactly
  for content without emphasis or link delimiters, and a node list with a
  delimiter stack for emphasis and links.
- `syntax.rs`, `links.rs`, `gfm.rs`, `entities.rs`, `chars.rs` — entities,
  code spans, autolinks, raw HTML, link destinations and labels, extended
  autolinks, UTF-8 decoding.
- `ast.rs` — the mdast syntax tree, its HTML rendering (as
  `mdast-util-to-hast` + `hast-util-to-html` give it) and its JSON form.
- `render.rs` — the HTML renderer; `escape.rs`, `tagfilter.rs` — escaping
  and the GFM tag filter.
- `directive.rs` — directive headers and their attributes.
- `refmap.rs` — link reference definitions (the first definition wins).
- `scan.rs`, `bytes.rs` — byte search and slice helpers.
- `options.rs` — the option flags and their bitmask encoding.
- `arena.rs` — bump-allocation arithmetic and the scope bookkeeping; `frame.rs` — the length-prefixed
  output framing of the C ABI.
- `std_calls.rs` — the trusted calls into `std` (UTF-8 decoding of the
  output, string appends, Unicode case and character classes).
