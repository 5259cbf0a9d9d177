use sparkdown::inline::{render_inline, Scratch};
use sparkdown::refmap::RefMap;
use sparkdown::Options;

fn inline(src: &str) -> String {
    let mut out = String::new();
    render_inline(
        src,
        &mut out,
        &RefMap::new(),
        &mut Scratch::new(),
        Options::default(),
    );
    out
}

#[test]
fn backslash_escapes_punctuation() {
    assert_eq!(inline(r"\*not emph\*"), "*not emph*");
    assert_eq!(inline(r"\<"), "&lt;");
    assert_eq!(inline(r"\foo"), r"\foo");
}

#[test]
fn still_escapes_html_specials() {
    assert_eq!(inline("a < b & c"), "a &lt; b &amp; c");
}

#[test]
fn entity_and_numeric_references() {
    assert_eq!(inline("&copy;"), "©");
    assert_eq!(inline("&amp;"), "&amp;");
    assert_eq!(inline("&#42;"), "*");
    assert_eq!(inline("&#x2A;"), "*");
    assert_eq!(inline("&#0;"), "\u{FFFD}");
    assert_eq!(inline("&unknown;"), "&amp;unknown;");
}

#[test]
fn code_spans() {
    assert_eq!(inline("`foo`"), "<code>foo</code>");
    assert_eq!(inline("``a`b``"), "<code>a`b</code>");
    assert_eq!(inline("`<&>`"), "<code>&lt;&amp;&gt;</code>");
}

#[test]
fn emphasis_and_strong() {
    assert_eq!(inline("*foo*"), "<em>foo</em>");
    assert_eq!(inline("**foo**"), "<strong>foo</strong>");
    assert_eq!(inline("***foo***"), "<em><strong>foo</strong></em>");
    assert_eq!(inline("foo_bar_baz"), "foo_bar_baz");
    assert_eq!(
        inline("*foo **bar** baz*"),
        "<em>foo <strong>bar</strong> baz</em>"
    );
}

#[test]
fn autolinks() {
    assert_eq!(
        inline("<http://foo.bar/?q=a&b>"),
        "<a href=\"http://foo.bar/?q=a&amp;b\">http://foo.bar/?q=a&amp;b</a>"
    );
    assert_eq!(
        inline("<foo@bar.example.com>"),
        "<a href=\"mailto:foo@bar.example.com\">foo@bar.example.com</a>"
    );
}

#[test]
fn raw_inline_html() {
    assert_eq!(inline("a <b>c</b> d"), "a <b>c</b> d");
    assert_eq!(inline("<a href=\"x\">"), "<a href=\"x\">");
    assert_eq!(inline("<!-- comment -->"), "<!-- comment -->");
    assert_eq!(inline("<br/>"), "<br/>");
    assert_eq!(inline("a < b"), "a &lt; b");
}

#[test]
fn inline_links_and_images() {
    assert_eq!(inline("[link](/uri)"), "<a href=\"/uri\">link</a>");
    assert_eq!(
        inline("[link](/uri \"title\")"),
        "<a href=\"/uri\" title=\"title\">link</a>"
    );
    assert_eq!(inline("[a *b*](/u)"), "<a href=\"/u\">a <em>b</em></a>");
    assert_eq!(
        inline("![alt](/img.png)"),
        "<img src=\"/img.png\" alt=\"alt\" />"
    );
    assert_eq!(inline("![a *b*](/i)"), "<img src=\"/i\" alt=\"a b\" />");
    assert_eq!(inline("[not a link"), "[not a link");
    assert_eq!(inline("[foo] bar"), "[foo] bar");
}

#[test]
fn reference_links_resolve_via_map() {
    let mut map = RefMap::new();
    map.insert(
        "foo".to_string(),
        ("/url".to_string(), Some("t".to_string())),
    );
    let mut sc = Scratch::new();
    let mut out = String::new();
    render_inline("[foo]", &mut out, &map, &mut sc, Options::default());
    assert_eq!(out, "<a href=\"/url\" title=\"t\">foo</a>");

    let mut out2 = String::new();
    render_inline("[bar][foo]", &mut out2, &map, &mut sc, Options::default());
    assert_eq!(out2, "<a href=\"/url\" title=\"t\">bar</a>");
}
