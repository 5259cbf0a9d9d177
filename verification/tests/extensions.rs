use sparkdown::{to_html, to_html_with, Options};

const MERMAID: &str = "```mermaid\ngraph TD; A-->B;\n```\n";

#[test]
fn renders_client_side_wrapper() {
    let opts = Options {
        diagram: true,
        ..Options::default()
    };
    assert_eq!(
        to_html_with(MERMAID, &opts),
        "<pre class=\"mermaid\">graph TD; A--&gt;B;\n</pre>\n"
    );
}

#[test]
fn off_by_default_is_a_normal_code_block() {
    let html = to_html_with(MERMAID, &Options::default());
    assert!(
        html.contains("<pre><code class=\"language-mermaid\">"),
        "{html}"
    );
}

#[test]
fn non_diagram_language_is_untouched() {
    let opts = Options {
        diagram: true,
        ..Options::default()
    };
    let html = to_html_with("```rust\nfn x() {}\n```\n", &opts);
    assert!(
        html.contains("<pre><code class=\"language-rust\">"),
        "{html}"
    );
}

fn dl() -> Options {
    Options {
        deflist: true,
        ..Options::default()
    }
}

#[test]
fn tight_single() {
    assert_eq!(
        to_html_with("Term\n: Definition\n", &dl()),
        "<dl>\n<dt>Term</dt>\n<dd>Definition\n</dd>\n</dl>\n"
    );
}

#[test]
fn multi_term_multi_def() {
    assert_eq!(
        to_html_with("T1\nT2\n: D\n", &dl()),
        "<dl>\n<dt>T1</dt>\n<dt>T2</dt>\n<dd>D\n</dd>\n</dl>\n"
    );
    assert_eq!(
        to_html_with("Apple\n: fruit\n: company\n", &dl()),
        "<dl>\n<dt>Apple</dt>\n<dd>fruit\n</dd>\n<dd>company\n</dd>\n</dl>\n"
    );
}

#[test]
fn loose_wraps_in_paragraph() {
    assert_eq!(
        to_html_with("Term\n\n: Loose def\n", &dl()),
        "<dl>\n<dt>Term</dt>\n<dd>\n<p>Loose def</p>\n</dd>\n</dl>\n"
    );
}

#[test]
fn groups_merge_across_blanks() {
    assert_eq!(
        to_html_with("T1\n: D1\n\nT2\n: D2\n", &dl()),
        "<dl>\n<dt>T1</dt>\n<dd>D1\n</dd>\n<dt>T2</dt>\n<dd>D2\n</dd>\n</dl>\n"
    );
}

#[test]
fn trailing_paragraph_is_evicted() {
    assert_eq!(
        to_html_with("before\n\nTerm\n: Def\n\nafter\n", &dl()),
        "<p>before</p>\n<dl>\n<dt>Term</dt>\n<dd>Def\n</dd>\n</dl>\n<p>after</p>\n"
    );
}

#[test]
fn inline_markup_in_term_and_def() {
    assert_eq!(
        to_html_with("*Rich* term\n: def with *em*\n", &dl()),
        "<dl>\n<dt><em>Rich</em> term</dt>\n<dd>def with <em>em</em>\n</dd>\n</dl>\n"
    );
}

#[test]
fn marker_requires_space() {
    assert_eq!(
        to_html_with("Term\n:NoSpace\n", &dl()),
        "<p>Term\n:NoSpace</p>\n"
    );
    assert_eq!(to_html_with(": orphan\n", &dl()), "<p>: orphan</p>\n");
}

fn dir() -> Options {
    Options {
        directives: true,
        ..Options::default()
    }
}

#[test]
fn trailing_colon_is_not_a_directive() {
    assert_eq!(to_html_with(":foo: bar\n", &dir()), "<p>:foo: bar</p>\n");
}

#[test]
fn leaf_directive() {
    assert_eq!(
        to_html_with("::leaf[lab]{.warn}\n", &dir()),
        "<leaf class=\"warn\">lab</leaf>\n"
    );
}

#[test]
fn container_directive() {
    assert_eq!(
        to_html_with(":::note\n## Title\n\ntext\n:::\n", &dir()),
        "<note>\n<h2>Title</h2>\n<p>text</p>\n</note>\n"
    );
}

#[test]
fn extensions_off_by_default() {
    assert_eq!(to_html(":smile:\n"), "<p>:smile:</p>\n");
    assert_eq!(
        to_html("Term\n: Definition\n"),
        "<p>Term\n: Definition</p>\n"
    );
    assert_eq!(to_html(":name[x]\n"), "<p>:name[x]</p>\n");
    assert_eq!(
        to_html(":::note\nbody\n:::\n"),
        "<p>:::note\nbody\n:::</p>\n"
    );
}

#[test]
fn text_directive() {
    assert_eq!(
        to_html_with(":name[label]{#id .cls}\n", &dir()),
        "<p><name id=\"id\" class=\"cls\">label</name></p>\n"
    );
}

#[test]
fn text_directive_mid_paragraph() {
    assert_eq!(to_html_with("a :em[x] b\n", &dir()), "<p>a <em>x</em> b</p>\n");
}

fn ext() -> Options {
    Options {
        external_links: true,
        ..Options::default()
    }
}

#[test]
fn external_links_get_nofollow() {
    assert_eq!(
        to_html_with("[a](http://x) [b](/y) <https://z> <me@x.org>\n", &ext()),
        "<p><a href=\"http://x\" rel=\"nofollow\">a</a> <a href=\"/y\">b</a> \
         <a href=\"https://z\" rel=\"nofollow\">https://z</a> \
         <a href=\"mailto:me@x.org\">me@x.org</a></p>\n"
    );
    assert_eq!(
        to_html_with("[a](http://x \"t\") ![i](http://img)\n", &ext()),
        "<p><a href=\"http://x\" title=\"t\" rel=\"nofollow\">a</a> <img src=\"http://img\" alt=\"i\" /></p>\n"
    );
    assert_eq!(
        to_html("[a](http://x)\n"),
        "<p><a href=\"http://x\">a</a></p>\n"
    );
}

fn emoji_on() -> Options {
    let mut o = Options::default();
    o.emoji = true;
    o
}

#[test]
fn unknown_and_case_sensitive_stay_literal() {
    assert_eq!(to_html_with(":notanemoji:\n", &emoji_on()), "<p>:notanemoji:</p>\n");
    // Shortcodes are lowercase; `:SMILE:` is not a match.
    assert_eq!(to_html_with(":SMILE:\n", &emoji_on()), "<p>:SMILE:</p>\n");
    // No closing colon → literal.
    assert_eq!(to_html_with(":smile\n", &emoji_on()), "<p>:smile</p>\n");
}

#[test]
fn code_span_is_untouched() {
    assert_eq!(to_html_with("`:smile:`\n", &emoji_on()), "<p><code>:smile:</code></p>\n");
}
