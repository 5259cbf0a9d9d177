use sparkdown::to_html;

#[test]
fn tabs_indented_code() {
    assert_eq!(to_html("\tfoo\tbaz\t\tbim\n"), "<pre><code>foo\tbaz\t\tbim\n</code></pre>\n");
}

#[test]
fn tabs_after_spaces() {
    assert_eq!(to_html("  \tfoo\tbaz\t\tbim\n"), "<pre><code>foo\tbaz\t\tbim\n</code></pre>\n");
}

#[test]
fn tab_continues_list_item() {
    assert_eq!(to_html("- foo\n\n\tbar\n"), "<ul>\n<li>\n<p>foo</p>\n<p>bar</p>\n</li>\n</ul>\n");
}

#[test]
fn tab_in_block_quote_code() {
    assert_eq!(to_html(">\t\tfoo\n"), "<blockquote>\n<pre><code>  foo\n</code></pre>\n</blockquote>\n");
}

#[test]
fn tab_after_atx_marker() {
    assert_eq!(to_html("#\tFoo\n"), "<h1>Foo</h1>\n");
}

#[test]
fn plus_run_is_no_break() {
    assert_eq!(to_html("+++\n"), "<p>+++</p>\n");
}

#[test]
fn short_runs_are_text() {
    assert_eq!(to_html("--\n**\n__\n"), "<p>--\n**\n__</p>\n");
}

#[test]
fn break_interrupts_paragraph() {
    assert_eq!(to_html("Foo\n***\nbar\n"), "<p>Foo</p>\n<hr />\n<p>bar</p>\n");
}

#[test]
fn break_between_lists() {
    assert_eq!(to_html("* Foo\n* * *\n* Bar\n"), "<ul>\n<li>Foo</li>\n</ul>\n<hr />\n<ul>\n<li>Bar</li>\n</ul>\n");
}

#[test]
fn atx_needs_space() {
    assert_eq!(to_html("#5 bolt\n\n#hashtag\n"), "<p>#5 bolt</p>\n<p>#hashtag</p>\n");
}

#[test]
fn escaped_atx() {
    assert_eq!(to_html("\\## foo\n"), "<p>## foo</p>\n");
}

#[test]
fn atx_inline_content() {
    assert_eq!(to_html("# foo *bar* \\*baz\\*\n"), "<h1>foo <em>bar</em> *baz*</h1>\n");
}

#[test]
fn atx_closing_needs_space() {
    assert_eq!(to_html("### foo ### b\n"), "<h3>foo ### b</h3>\n");
}

#[test]
fn empty_atx_headings() {
    assert_eq!(to_html("## \n#\n### ###\n"), "<h2></h2>\n<h1></h1>\n<h3></h3>\n");
}

#[test]
fn setext_inline_content() {
    assert_eq!(to_html("Foo *bar*\n=========\n\nFoo *bar*\n---------\n"), "<h1>Foo <em>bar</em></h1>\n<h2>Foo <em>bar</em></h2>\n");
}

#[test]
fn setext_multiline() {
    assert_eq!(to_html("Foo\nbar\n---\nbaz\n"), "<h2>Foo\nbar</h2>\n<p>baz</p>\n");
}

#[test]
fn list_item_paragraphs() {
    assert_eq!(to_html("  - foo\n\n    bar\n"), "<ul>\n<li>\n<p>foo</p>\n<p>bar</p>\n</li>\n</ul>\n");
}

#[test]
fn indented_code_blank_lines() {
    assert_eq!(to_html("    chunk1\n\n    chunk2\n  \n \n \n    chunk3\n"), "<pre><code>chunk1\n\nchunk2\n\n\n\nchunk3\n</code></pre>\n");
}

#[test]
fn two_backticks_are_code_span() {
    assert_eq!(to_html("``\nfoo\n``\n"), "<p><code>foo</code></p>\n");
}

#[test]
fn fence_needs_same_char() {
    assert_eq!(to_html("```\naaa\n~~~\n```\n"), "<pre><code>aaa\n~~~\n</code></pre>\n");
}

#[test]
fn unclosed_empty_fence() {
    assert_eq!(to_html("```\n"), "<pre><code></code></pre>\n");
}

#[test]
fn fence_indent_removed() {
    assert_eq!(to_html(" ```\n aaa\naaa\n```\n"), "<pre><code>aaa\naaa\n</code></pre>\n");
}

#[test]
fn tilde_fence_info() {
    assert_eq!(to_html("~~~ aa ``` ~~~\nfoo\n~~~\n"), "<pre><code class=\"language-aa\">foo\n</code></pre>\n");
}

#[test]
fn html_block_ends_at_blank() {
    assert_eq!(to_html("<table><tr><td>\n<pre>\n**Hello**,\n\n_world_.\n</pre>\n</td></tr></table>\n"), "<table><tr><td>\n<pre>\n**Hello**,\n<p><em>world</em>.\n</pre></p>\n</td></tr></table>\n");
}

#[test]
fn html_comment_block() {
    assert_eq!(to_html("<!-- foo -->*bar*\n*baz*\n"), "<!-- foo -->*bar*\n<p><em>baz</em></p>\n");
}

#[test]
fn ref_def_across_lines() {
    assert_eq!(to_html("   [foo]: \n      /url  \n           'the title'  \n\n[foo]\n"), "<p><a href=\"/url\" title=\"the title\">foo</a></p>\n");
}

#[test]
fn ref_title_no_blank_line() {
    assert_eq!(to_html("[foo]: /url 'title\n\nwith blank line'\n\n[foo]\n"), "<p>[foo]: /url 'title</p>\n<p>with blank line'</p>\n<p>[foo]</p>\n");
}

#[test]
fn ref_label_case_fold() {
    assert_eq!(to_html("[FOO]: /url\n\n[Foo]\n"), "<p><a href=\"/url\">Foo</a></p>\n");
}

#[test]
fn ref_label_unicode_case() {
    assert_eq!(to_html("[ΑΓΩ]: /φου\n\n[αγω]\n"), "<p><a href=\"/%CF%86%CE%BF%CF%85\">αγω</a></p>\n");
}

#[test]
fn quote_heading_and_text() {
    assert_eq!(to_html("> # Foo\n> bar\n> baz\n"), "<blockquote>\n<h1>Foo</h1>\n<p>bar\nbaz</p>\n</blockquote>\n");
}

#[test]
fn quote_list_no_laziness() {
    assert_eq!(to_html("> - foo\n- bar\n"), "<blockquote>\n<ul>\n<li>foo</li>\n</ul>\n</blockquote>\n<ul>\n<li>bar</li>\n</ul>\n");
}

#[test]
fn ordered_item_blocks() {
    assert_eq!(to_html("1.  A paragraph\n    with two lines.\n\n        indented code\n\n    > A block quote.\n"), "<ol>\n<li>\n<p>A paragraph\nwith two lines.</p>\n<pre><code>indented code\n</code></pre>\n<blockquote>\n<p>A block quote.</p>\n</blockquote>\n</li>\n</ol>\n");
}

#[test]
fn nested_lists() {
    assert_eq!(to_html("- foo\n  - bar\n    - baz\n      - boo\n"), "<ul>\n<li>foo\n<ul>\n<li>bar\n<ul>\n<li>baz\n<ul>\n<li>boo</li>\n</ul>\n</li>\n</ul>\n</li>\n</ul>\n</li>\n</ul>\n");
}

#[test]
fn loose_list_by_blank() {
    assert_eq!(to_html("- a\n- b\n\n- c\n"), "<ul>\n<li>\n<p>a</p>\n</li>\n<li>\n<p>b</p>\n</li>\n<li>\n<p>c</p>\n</li>\n</ul>\n");
}

#[test]
fn paren_ordered_start() {
    assert_eq!(to_html("10) foo\n    - bar\n"), "<ol start=\"10\">\n<li>foo\n<ul>\n<li>bar</li>\n</ul>\n</li>\n</ol>\n");
}

#[test]
fn number_cannot_interrupt() {
    assert_eq!(to_html("The number of windows in my house is\n14.  The number of doors is 6.\n"), "<p>The number of windows in my house is\n14.  The number of doors is 6.</p>\n");
}

#[test]
fn code_span_strip() {
    assert_eq!(to_html("`` foo ` bar ``\n"), "<p><code>foo ` bar</code></p>\n");
}

#[test]
fn code_span_beats_emphasis() {
    assert_eq!(to_html("*foo`*`\n"), "<p>*foo<code>*</code></p>\n");
}

#[test]
fn intraword_star() {
    assert_eq!(to_html("foo*bar*\n"), "<p>foo<em>bar</em></p>\n");
}

#[test]
fn intraword_underscore() {
    assert_eq!(to_html("_foo_bar_\n"), "<p><em>foo_bar</em></p>\n");
}

#[test]
fn unbalanced_strong() {
    assert_eq!(to_html("**foo*\n"), "<p>*<em>foo</em></p>\n");
}

#[test]
fn pointy_destination() {
    assert_eq!(to_html("[link](</my uri>)\n"), "<p><a href=\"/my%20uri\">link</a></p>\n");
}

#[test]
fn entity_in_destination() {
    assert_eq!(to_html("[link](foo%20b&auml;)\n"), "<p><a href=\"foo%20b%C3%A4\">link</a></p>\n");
}

#[test]
fn nested_brackets_in_text() {
    assert_eq!(to_html("[link [foo [bar]]](/uri)\n"), "<p><a href=\"/uri\">link [foo [bar]]</a></p>\n");
}

#[test]
fn no_links_in_links() {
    assert_eq!(to_html("[foo *bar [baz][ref]*][ref]\n\n[ref]: /uri\n"), "<p>[foo <em>bar <a href=\"/uri\">baz</a></em>]<a href=\"/uri\">ref</a></p>\n");
}

#[test]
fn collapsed_image_ref() {
    assert_eq!(to_html("![foo *bar*][]\n\n[foo *bar*]: train.jpg \"train & tracks\"\n"), "<p><img src=\"train.jpg\" alt=\"foo bar\" title=\"train &amp; tracks\" /></p>\n");
}

#[test]
fn invalid_raw_html() {
    assert_eq!(to_html("<a href='bar'title=title>\n"), "<p>&lt;a href='bar'title=title&gt;</p>\n");
}

#[test]
fn hard_break_spaces() {
    assert_eq!(to_html("foo  \nbar\n"), "<p>foo<br />\nbar</p>\n");
}

#[test]
fn hard_break_backslash() {
    assert_eq!(to_html("foo\\\nbar\n"), "<p>foo<br />\nbar</p>\n");
}

#[test]
fn named_entities() {
    assert_eq!(to_html("&nbsp; &amp; &copy; &AElig; &Dcaron;\n&frac34; &HilbertSpace; &DifferentialD;\n&ClockwiseContourIntegral; &ngE;\n"), "<p>\u{a0} &amp; © Æ Ď\n¾ ℋ ⅆ\n∲ ≧̸</p>\n");
}

#[test]
fn entities_in_ref_def() {
    assert_eq!(to_html("[foo]\n\n[foo]: /f&ouml;&ouml; \"f&ouml;&ouml;\"\n"), "<p><a href=\"/f%C3%B6%C3%B6\" title=\"föö\">foo</a></p>\n");
}

#[test]
fn entities_in_info_string() {
    assert_eq!(to_html("``` f&ouml;&ouml;\nfoo\n```\n"), "<pre><code class=\"language-föö\">foo\n</code></pre>\n");
}
