use sparkdown::{to_html, to_html_with, Options};

#[test]
fn block_quote_with_lazy_line() {
    assert_eq!(to_html("> quote\n"), "<blockquote>\n<p>quote</p>\n</blockquote>\n");
    assert_eq!(to_html("> a\nb\n"), "<blockquote>\n<p>a\nb</p>\n</blockquote>\n");
}

#[test]
fn headings_atx_and_setext() {
    assert_eq!(to_html("Foo\n===\n"), "<h1>Foo</h1>\n");
    assert_eq!(to_html("a\n---\n"), "<h2>a</h2>\n");
    assert_eq!(to_html("# foo #\n"), "<h1>foo</h1>\n");
    assert_eq!(to_html("###### six\n"), "<h6>six</h6>\n");
    assert_eq!(to_html("####### seven\n"), "<p>####### seven</p>\n");
}

#[test]
fn code_blocks_indented_and_fenced() {
    assert_eq!(to_html("    code\n"), "<pre><code>code\n</code></pre>\n");
    assert_eq!(
        to_html("```js\nlet x;\n```\n"),
        "<pre><code class=\"language-js\">let x;\n</code></pre>\n"
    );
    assert_eq!(to_html("```\n<a>\n```\n"), "<pre><code>&lt;a&gt;\n</code></pre>\n");
}

#[test]
fn reference_definition_is_used_and_hidden() {
    assert_eq!(
        to_html("[foo]: /url \"title\"\n\n[foo]\n"),
        "<p><a href=\"/url\" title=\"title\">foo</a></p>\n"
    );
}

#[test]
fn html_block_passes_through() {
    assert_eq!(to_html("<div>\nhi\n</div>\n"), "<div>\nhi\n</div>\n");
}

#[test]
fn ordered_lists_and_start() {
    assert_eq!(to_html("1. a\n2. b\n"), "<ol>\n<li>a</li>\n<li>b</li>\n</ol>\n");
    assert_eq!(to_html("3. a\n"), "<ol start=\"3\">\n<li>a</li>\n</ol>\n");
}

#[test]
fn loose_item_with_two_paragraphs() {
    assert_eq!(
        to_html("- a\n\n  b\n"),
        "<ul>\n<li>\n<p>a</p>\n<p>b</p>\n</li>\n</ul>\n"
    );
}

#[test]
fn thematic_break() {
    assert_eq!(to_html("***\n"), "<hr />\n");
    assert_eq!(to_html(" - - -\n"), "<hr />\n");
}

#[test]
fn gfm_table_with_alignment() {
    let opts = Options::gfm();
    assert_eq!(
        to_html_with("| a | b |\n| --- | :-: |\n| c | d |\n", &opts),
        "<table>\n<thead>\n<tr>\n<th>a</th>\n<th align=\"center\">b</th>\n</tr>\n</thead>\n\
         <tbody>\n<tr>\n<td>c</td>\n<td align=\"center\">d</td>\n</tr>\n</tbody>\n</table>\n"
    );
}

#[test]
fn frontmatter_renders_nothing() {
    let opts = Options { frontmatter: true, ..Options::default() };
    assert_eq!(to_html_with("---\ntitle: x\n---\n# H\n", &opts), "<h1>H</h1>\n");
    assert_eq!(to_html("---\ntitle: x\n---\n"), "<hr />\n<h2>title: x</h2>\n");
}

#[test]
fn gfm_extended_autolink() {
    let opts = Options { autolink: true, ..Options::default() };
    assert_eq!(
        to_html_with("www.example.com\n", &opts),
        "<p><a href=\"http://www.example.com\">www.example.com</a></p>\n"
    );
}

#[test]
fn tag_filter_neutralizes_script() {
    let opts = Options { tagfilter: true, ..Options::default() };
    assert_eq!(
        to_html_with("<script>\nalert(1)\n</script>\n", &opts),
        "&lt;script>\nalert(1)\n</script>\n"
    );
}

#[test]
fn text_line_makes_a_block() {
    let t = sparkdown::block::parse("plain text");
    assert!(t.len() >= 2);
    let empty = sparkdown::block::parse("");
    assert_eq!(empty.len(), 1);
}
