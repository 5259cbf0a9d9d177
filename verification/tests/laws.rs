use sparkdown::block::parse;
use sparkdown::directive::parse_header;
use sparkdown::frame::framed;
use sparkdown::lines::{count_cells, fence_opener, is_closing_fence, is_thematic_break, setext_level};
use sparkdown::links::normalize_label;
use sparkdown::options::opts_from_flags;
use sparkdown::render::escape_html;
use sparkdown::syntax::is_uri_autolink;
use sparkdown::{to_html, Options, Renderer};

#[test]
fn escaping_in_pieces_equals_escaping_whole() {
    let mut whole = String::new();
    escape_html("a<b&c\"d>", &mut whole);
    let mut pieces = String::new();
    escape_html("a<b", &mut pieces);
    escape_html("&c\"d>", &mut pieces);
    assert_eq!(whole, pieces);
    assert_eq!(whole, "a&lt;b&amp;c&quot;d&gt;");
}

#[test]
fn blocks_are_separated_by_single_newlines() {
    assert_eq!(to_html("# a\n\n\n---\n"), "<h1>a</h1>\n<hr />\n");
}

#[test]
fn high_flag_bits_are_ignored() {
    assert_eq!(opts_from_flags(0xffff_c000 | 5), opts_from_flags(5));
    let o = opts_from_flags(5);
    assert!(o.strikethrough && !o.tasklist && o.autolink && !o.tagfilter);
    assert_eq!(opts_from_flags(0), Options::default());
    assert_eq!(opts_from_flags(31), Options::gfm());
}

#[test]
fn frame_prefixes_little_endian_length() {
    assert_eq!(framed(b"abc"), vec![3, 0, 0, 0, b'a', b'b', b'c']);
    let big = vec![b'x'; 0x0102];
    let f = framed(&big);
    assert_eq!(&f[..4], &[0x02, 0x01, 0, 0]);
    assert_eq!(f.len(), 4 + 0x0102);
}

#[test]
fn directive_attributes_merge_by_key() {
    let h = parse_header(b"x{.a .b #i #j k=1 k=\"2 3\"}").unwrap();
    let attrs: Vec<(String, String)> = h
        .attrs
        .iter()
        .map(|(k, v)| (String::from_utf8(k.clone()).unwrap(), String::from_utf8(v.clone()).unwrap()))
        .collect();
    assert_eq!(
        attrs,
        vec![
            ("class".to_string(), "a b".to_string()),
            ("id".to_string(), "j".to_string()),
            ("k".to_string(), "2 3".to_string()),
        ]
    );
    assert!(parse_header(b"").is_none());
    assert!(parse_header(b"[x]").is_none());
}

#[test]
fn first_reference_definition_wins() {
    assert_eq!(
        to_html("[a]: /1\n[a]: /2\n\n[a]\n"),
        "<p><a href=\"/1\">a</a></p>\n"
    );
}

#[test]
fn normalized_label_is_a_fixed_point() {
    assert_eq!(normalize_label(b"foo bar"), b"foo bar".to_vec());
    assert_eq!(normalize_label(b"  Foo \t BAR "), b"foo bar".to_vec());
    assert_eq!(normalize_label(b"Stra\xc3\x9fe"), b"strasse".to_vec());
}

#[test]
fn line_classifiers() {
    assert!(is_thematic_break(b"- - -"));
    assert!(is_thematic_break(b"___\t"));
    assert!(!is_thematic_break(b"-_-"));
    assert!(!is_thematic_break(b"--"));
    assert_eq!(setext_level(b"===  "), Some(1));
    assert_eq!(setext_level(b"--"), Some(2));
    assert_eq!(setext_level(b"= ="), None);
    assert_eq!(fence_opener(b"```rust"), Some((b'`', 3)));
    assert_eq!(fence_opener(b"~~~~ a`b"), Some((b'~', 4)));
    assert_eq!(fence_opener(b"``` a`b"), None);
    assert!(is_closing_fence(b"  ````  ", 2, b'`', 3));
    assert!(!is_closing_fence(b"``", 0, b'`', 3));
    assert_eq!(count_cells(b"| a | b \\| c |"), 2);
    assert_eq!(count_cells(b"a|b|c"), 3);
}

#[test]
fn uri_autolink_scheme_rules() {
    assert!(is_uri_autolink(b"http://x"));
    assert!(is_uri_autolink(b"a+b.c-d:"));
    assert!(!is_uri_autolink(b"a:b"));
    assert!(!is_uri_autolink(b"1ab:c"));
    assert!(!is_uri_autolink(b"ab:c d"));
}

#[test]
fn unicode_letter_before_underscore_blocks_emphasis() {
    assert_eq!(to_html("é_foo_\n"), "<p>é_foo_</p>\n");
    assert_eq!(to_html("é*foo*\n"), "<p>é<em>foo</em></p>\n");
}

#[test]
fn renderer_keeps_options_across_renders() {
    let mut r = Renderer::with_options(Options::gfm());
    assert_eq!(r.render("~~a~~"), "<p><del>a</del></p>\n");
    assert_eq!(r.render("~~b~~"), "<p><del>b</del></p>\n");
    r.set_options(Options::default());
    assert_eq!(r.render("~~c~~"), "<p>~~c~~</p>\n");
}

#[test]
fn parse_tree_links_stay_in_range() {
    let t = parse("- a\n  > b\n\n```\nc\n```\n");
    let n = t.len();
    for i in 0..n {
        if let Some(c) = t.first_child(i) {
            assert!(c < n);
        }
        if let Some(s) = t.next_sibling(i) {
            assert!(s < n);
        }
        assert!(t.parent(i) < n);
    }
}

#[test]
fn html_value_keeps_what_content_trims() {
    let t = parse("<div>\n  \n");
    let n = t.len();
    let mut found = false;
    for i in 0..n {
        if t.kind(i) == sparkdown::block::Kind::HtmlBlock {
            assert_eq!(t.content(i), b"<div>");
            assert_eq!(t.html_value(i), b"<div>");
            found = true;
        }
    }
    assert!(found);
    let t2 = parse("<script>\nx\n");
    for i in 0..t2.len() {
        if t2.kind(i) == sparkdown::block::Kind::HtmlBlock {
            assert_eq!(t2.content(i), b"<script>\nx");
            assert_eq!(t2.html_value(i), b"<script>\nx\n");
        }
    }
}
