use sparkdown::render::escape_html;
use sparkdown::{to_html, to_html_with, Options, Renderer};

#[test]
fn escapes_text_specials() {
    let mut out = String::new();
    escape_html("a < b & c > d", &mut out);
    assert_eq!(out, "a &lt; b &amp; c &gt; d");
}

#[test]
fn paragraphs_and_escaping() {
    assert_eq!(to_html("aaa\n\nbbb\n"), "<p>aaa</p>\n<p>bbb</p>\n");
    assert_eq!(to_html("a < b & c\n"), "<p>a &lt; b &amp; c</p>\n");
    assert_eq!(to_html(""), "");
}

#[test]
fn renderer_reuses_buffers() {
    let mut r = Renderer::new();
    assert_eq!(r.render("# a"), "<h1>a</h1>\n");
    assert_eq!(r.render("*b*"), "<p><em>b</em></p>\n");
}

#[test]
fn options_hard_wraps_doc_example() {
    let opts = Options { hard_wraps: true, ..Options::default() };
    assert_eq!(to_html_with("a\nb", &opts), "<p>a<br />\nb</p>\n");
}
