use sparkdown::gfm::{gfm_scan_email, gfm_scan_url, gfm_scan_url_at_colon, gfm_trim_url, strip_tags};
use sparkdown::lines::{
    atx_content, code_indented_end, delim_row_cols, first_word, footnote_label_end, html_block_ends,
    html_block_open, html_trim_end, trim_ws, ws_len_at,
};
use sparkdown::links::{
    normalize_label, parse_dest, parse_inline_paren, parse_ref_def, parse_title, read_bracket_label, ref_line_end,
    ref_spnl, take_ref_def_spans, take_ref_defs,
};
use sparkdown::syntax::{is_email_autolink, parse_entity, raw_tag_len, try_raw_html, unescape_string, Resolved};
use sparkdown::tagfilter::{filter_html, is_filtered_tag};

fn filtered(s: &str) -> String {
    let mut out = Vec::new();
    filter_html(s.as_bytes(), &mut out);
    String::from_utf8(out).unwrap()
}

#[test]
fn tag_filter_names_and_delimiters() {
    assert!(is_filtered_tag(b"script>"));
    assert!(is_filtered_tag(b"TITLE"));
    assert!(is_filtered_tag(b"xmp/"));
    assert!(!is_filtered_tag(b"scripts>"));
    assert!(!is_filtered_tag(b"/script>"));
    assert!(!is_filtered_tag(b"em>"));
}

#[test]
fn tag_filter_rewrites_only_disallowed_openers() {
    assert_eq!(filtered("<strong> <title> <style> <em>"), "<strong> &lt;title> &lt;style> <em>");
    assert_eq!(filtered("<XMP> x </xmp>"), "&lt;XMP> x </xmp>");
    assert_eq!(filtered("no tags & text"), "no tags & text");
}

#[test]
fn strip_tags_keeps_text_and_image_alt() {
    assert_eq!(strip_tags(b"a <em>b</em> c"), b"a b c".to_vec());
    assert_eq!(strip_tags(b"x <img src=\"u\" alt=\"pic\" /> y"), b"x pic y".to_vec());
    assert_eq!(strip_tags(b"<img alt=\"open"), Vec::<u8>::new());
    assert_eq!(strip_tags(b"tail <b"), b"tail ".to_vec());
}

#[test]
fn email_autolink_shapes() {
    assert!(is_email_autolink(b"foo@bar.example.com"));
    assert!(is_email_autolink(b"a.b-c+d@x-y.z"));
    assert!(!is_email_autolink(b"@bar.com"));
    assert!(!is_email_autolink(b"foo@"));
    assert!(!is_email_autolink(b"foo@-bar.com"));
    assert!(!is_email_autolink(b"foo@bar..com"));
    assert!(!is_email_autolink(b"foo bar@baz.com"));
    let long = format!("a@{}.com", "x".repeat(64));
    assert!(!is_email_autolink(long.as_bytes()));
    let ok = format!("a@{}.com", "x".repeat(63));
    assert!(is_email_autolink(ok.as_bytes()));
}

#[test]
fn label_normalization_folds_unicode() {
    assert_eq!(normalize_label("  Foo\t \nBAR ".as_bytes()), b"foo bar".to_vec());
    assert_eq!(normalize_label("ẞ".as_bytes()), "ss".as_bytes().to_vec());
    assert_eq!(normalize_label("ÄÖ".as_bytes()), "äö".as_bytes().to_vec());
    assert_eq!(normalize_label(b"already normal"), b"already normal".to_vec());
}

#[test]
fn bracket_labels() {
    assert_eq!(read_bracket_label(b"[foo] x", 0), Some((1, 4, 5)));
    assert_eq!(read_bracket_label(b"[a\\]b]", 0), Some((1, 5, 6)));
    assert_eq!(read_bracket_label(b"[a[b]", 0), None);
    assert_eq!(read_bracket_label(b"[open", 0), None);
    let mut long = vec![b'['];
    long.extend(std::iter::repeat(b'x').take(999));
    long.push(b']');
    assert_eq!(read_bracket_label(&long, 0), Some((1, 1000, 1001)));
    let mut too_long = vec![b'['];
    too_long.extend(std::iter::repeat(b'x').take(1000));
    too_long.push(b']');
    assert_eq!(read_bracket_label(&too_long, 0), None);
}

#[test]
fn titles_and_destinations() {
    assert_eq!(parse_title(b"\"a\\\"b\" x", 0), Some((1, 5, 6)));
    assert_eq!(parse_title(b"(a(b)", 0), None);
    assert_eq!(parse_title(b"'t'", 0), Some((1, 2, 3)));
    assert_eq!(parse_title(b"t", 0), None);
    assert_eq!(parse_dest(b"<a b>", 0), Some((1, 4, 5, true)));
    assert_eq!(parse_dest(b"<a\nb>", 0), None);
    assert_eq!(parse_dest(b"f(o)o) x", 0), Some((0, 5, 5, false)));
    assert_eq!(parse_dest(b"f(oo x", 0), None);
    assert_eq!(parse_dest(b"a\\(b", 0), Some((0, 4, 4, false)));
    assert_eq!(parse_dest(b" x", 0), Some((0, 0, 0, false)));
}

#[test]
fn reference_line_helpers() {
    assert_eq!(ref_line_end(b"  \t\nx", 0), Some(4));
    assert_eq!(ref_line_end(b"   ", 0), Some(3));
    assert_eq!(ref_line_end(b"  x", 0), None);
    assert_eq!(ref_spnl(b"  \n  x", 0), 5);
    assert_eq!(ref_spnl(b" \n\nx", 0), 2);
}

#[test]
fn raw_inline_html_constructs() {
    assert_eq!(try_raw_html(b"<!-- c --> t", 0), Some(10));
    assert_eq!(try_raw_html(b"<!-->", 0), Some(5));
    assert_eq!(try_raw_html(b"<!--->", 0), Some(6));
    assert_eq!(try_raw_html(b"<![CDATA[x]]>", 0), Some(13));
    assert_eq!(try_raw_html(b"<!DOCTYPE html>", 0), Some(15));
    assert_eq!(try_raw_html(b"<?php x ?>", 0), Some(10));
    assert_eq!(try_raw_html(b"</a  >", 0), Some(6));
    assert_eq!(try_raw_html(b"<a href=\"x\" title='y' data-z=w />", 0), Some(33));
    assert_eq!(try_raw_html(b"<a href=>", 0), None);
    assert_eq!(try_raw_html(b"<a b=\"x>", 0), None);
    assert_eq!(try_raw_html(b"<ab=1>", 0), None);
    assert_eq!(try_raw_html(b"<1>", 0), None);
    assert_eq!(raw_tag_len(b"<div class=\"x\">rest"), Some(15));
    assert_eq!(raw_tag_len(b"<!-- c -->"), None);
    assert_eq!(raw_tag_len(b"<?x ?>"), None);
}

#[test]
fn character_references() {
    match parse_entity(b"&#65;", 0) {
        Some((Resolved::Cp(cp), n)) => {
            assert_eq!(cp, 65);
            assert_eq!(n, 5);
        },
        _ => panic!("decimal reference"),
    }
    match parse_entity(b"&#X22;", 0) {
        Some((Resolved::Cp(cp), n)) => {
            assert_eq!(cp, 0x22);
            assert_eq!(n, 6);
        },
        _ => panic!("hex reference"),
    }
    match parse_entity(b"&#0;", 0) {
        Some((Resolved::Cp(cp), _)) => assert_eq!(cp, 0xFFFD),
        _ => panic!("zero reference"),
    }
    assert!(parse_entity(b"&#12345678;", 0).is_none());
    assert!(parse_entity(b"&#x1234567;", 0).is_none());
    assert!(parse_entity(b"&#;", 0).is_none());
    match parse_entity(b"&amp; x", 0) {
        Some((Resolved::Text(t), n)) => {
            assert_eq!(t, "&");
            assert_eq!(n, 5);
        },
        _ => panic!("named reference"),
    }
    assert!(parse_entity(b"&nosuchname;", 0).is_none());
}

#[test]
fn unescaping_values() {
    assert_eq!(unescape_string(b"a\\*b &amp; &#x41; \\q &bogus;"), b"a*b & A \\q &bogus;".to_vec());
    assert_eq!(unescape_string("plain é".as_bytes()), "plain é".as_bytes().to_vec());
}

#[test]
fn html_block_kinds() {
    assert_eq!(html_block_open(b"<script>", false), Some(1));
    assert_eq!(html_block_open(b"<PRE", false), Some(1));
    assert_eq!(html_block_open(b"<!-- x", false), Some(2));
    assert_eq!(html_block_open(b"<?x", false), Some(3));
    assert_eq!(html_block_open(b"<!DOCTYPE", false), Some(4));
    assert_eq!(html_block_open(b"<![CDATA[", false), Some(5));
    assert_eq!(html_block_open(b"</DIV>", false), Some(6));
    assert_eq!(html_block_open(b"<table/>", false), Some(6));
    assert_eq!(html_block_open(b"<custom a=\"1\">  ", false), Some(7));
    assert_eq!(html_block_open(b"<custom a=\"1\">  ", true), None);
    assert_eq!(html_block_open(b"<custom> text", false), None);
    assert_eq!(html_block_open(b"<scripts>", false), None);
    assert_eq!(html_block_open(b"text", false), None);
    assert!(html_block_ends(1, b"x </SCRIPT> y"));
    assert!(!html_block_ends(1, b"x </div> y"));
    assert!(html_block_ends(2, b"-->"));
    assert!(html_block_ends(4, b"a>"));
    assert!(!html_block_ends(6, b"-->"));
}

#[test]
fn footnote_openers() {
    assert_eq!(footnote_label_end(b"[^note]: text"), Some(6));
    assert_eq!(footnote_label_end(b"[^a\\]b]: t"), Some(6));
    assert_eq!(footnote_label_end(b"[^]: t"), None);
    assert_eq!(footnote_label_end(b"[^a b]: t"), None);
    assert_eq!(footnote_label_end(b"[^ab] t"), None);
}

#[test]
fn unicode_whitespace_helpers() {
    assert_eq!(ws_len_at(" x".as_bytes(), 0), 1);
    assert_eq!(ws_len_at("\u{a0}x".as_bytes(), 0), 2);
    assert_eq!(ws_len_at("\u{3000}x".as_bytes(), 0), 3);
    assert_eq!(ws_len_at("x".as_bytes(), 0), 0);
    let s = "\u{2003} a b \u{a0}";
    assert_eq!(trim_ws(s.as_bytes()), (4, 7));
    assert_eq!(first_word("  ab cd".as_bytes()), Some("ab".as_bytes()));
    assert_eq!(first_word(" \u{a0} ".as_bytes()), None);
}

#[test]
fn block_text_trimming() {
    assert_eq!(html_trim_end(b"<div>\n  \n"), 5);
    assert_eq!(html_trim_end(b"<div>  "), 7);
    assert_eq!(code_indented_end(b"a\n  \n\n"), 2);
    assert_eq!(code_indented_end(b"a\nb"), 3);
    assert_eq!(code_indented_end(b" \n\t\n"), 0);
    assert_eq!(atx_content(b" foo ## "), b"foo");
    assert_eq!(atx_content(b" foo#"), b"foo#");
    assert_eq!(atx_content(b" ###"), b"");
    assert_eq!(atx_content(b"  bar  "), b"bar");
}

#[test]
fn delimiter_rows() {
    assert_eq!(delim_row_cols(b"| --- | :-: | --: |"), Some(3));
    assert_eq!(delim_row_cols(b"--- | ---"), Some(2));
    assert_eq!(delim_row_cols(b"---"), None);
    assert_eq!(delim_row_cols(b"| --- | x |"), None);
    assert_eq!(delim_row_cols(b"| --- ||"), None);
}

#[test]
fn extended_autolink_scanners() {
    let b = b"see www.example.com/a_(b)). next";
    assert_eq!(gfm_scan_url(b, 4), Some(25));
    assert_eq!(gfm_trim_url(b"x.com/a?.", 0, 9), 7);
    assert_eq!(gfm_trim_url(b"x.com/&amp;", 0, 11), 6);
    assert_eq!(gfm_scan_url(b"www.nodot", 0), None);
    assert_eq!(gfm_scan_url(b"http://a.b/c d", 0), Some(12));
    let c = b"go https://x.org/p now";
    assert_eq!(gfm_scan_url_at_colon(c, 8), Some((3, 18)));
    assert_eq!(gfm_scan_url_at_colon(b"xhttp://x.org", 5), None);
    let e = b"mail foo.bar@ex-ample.com. end";
    assert_eq!(gfm_scan_email(e, 12), Some((5, 25)));
    assert_eq!(gfm_scan_email(b"a@b", 1), None);
    assert_eq!(gfm_scan_email(b"x@y.z", 1), Some((0, 5)));
}

#[test]
fn inline_link_tails() {
    assert_eq!(parse_inline_paren(b"( /u \"t\" )x", 0), Some(((2, 4), Some((6, 7)), 10)));
    assert_eq!(parse_inline_paren(b"(<a b>)", 0), Some(((2, 5), None, 7)));
    assert_eq!(parse_inline_paren(b"()", 0), Some(((1, 1), None, 2)));
    assert_eq!(parse_inline_paren(b"(/u \"t)", 0), None);
    assert_eq!(parse_inline_paren(b"(/u x)", 0), None);
}

#[test]
fn reference_definitions() {
    let d = parse_ref_def(b"   [Foo]: /url \"t\"\nrest", 0).unwrap();
    assert_eq!(d.bracket, 3);
    assert_eq!(d.label, (4, 7));
    assert_eq!(d.dest, (10, 14));
    assert_eq!(d.title, Some((16, 17)));
    assert_eq!(d.content_end, 18);
    assert_eq!(d.end, 19);
    assert!(parse_ref_def(b"    [foo]: /url", 0).is_none());
    assert!(parse_ref_def(b"[ ]: /url", 0).is_none());
    assert!(parse_ref_def(b"[foo]:", 0).is_none());
    assert!(parse_ref_def(b"[foo]: <>", 0).is_some());
    let junk = parse_ref_def(b"[a]: /u\n\"t\" junk", 0).unwrap();
    assert_eq!(junk.title, None);
    assert_eq!(junk.end, 8);
    assert!(parse_ref_def(b"[a]: /u \"t\" junk", 0).is_none());
}

#[test]
fn leading_definitions_of_a_paragraph() {
    let text = b"[a]: /x\n[b]: /y 'T'\ntext";
    let (pos, defs) = take_ref_defs(text);
    assert_eq!(pos, 20);
    assert_eq!(defs.len(), 2);
    assert_eq!(defs[0], (b"a".to_vec(), b"/x".to_vec(), None));
    assert_eq!(defs[1], (b"b".to_vec(), b"/y".to_vec(), Some(b"T".to_vec())));
    assert_eq!(take_ref_def_spans(text), vec![(0, 7), (8, 19)]);
    let (none_pos, none) = take_ref_defs(b"plain");
    assert_eq!(none_pos, 0);
    assert!(none.is_empty());
}

#[test]
fn directive_attribute_tokens() {
    let mut attrs: Vec<(Vec<u8>, Vec<u8>)> = Vec::new();
    sparkdown::directive::parse_attrs(b"#a .b .c key=v k2='x y' bare = #z", &mut attrs);
    assert_eq!(
        attrs,
        vec![
            (b"id".to_vec(), b"z".to_vec()),
            (b"class".to_vec(), b"b c".to_vec()),
            (b"key".to_vec(), b"v".to_vec()),
            (b"k2".to_vec(), b"x y".to_vec()),
            (b"bare".to_vec(), Vec::new()),
        ]
    );
}

#[test]
fn directive_header_parts() {
    let h = sparkdown::directive::parse_header(b"note[a [b] c]{x=\"}\"} rest").unwrap();
    assert_eq!(h.name_end, 4);
    assert_eq!(h.label, Some((5, 12)));
    assert_eq!(h.attrs, vec![(b"x".to_vec(), b"}".to_vec())]);
    assert_eq!(h.consumed, 20);
    let bare = sparkdown::directive::parse_header(b"tip[open").unwrap();
    assert_eq!(bare.label, None);
    assert_eq!(bare.consumed, 3);
    assert!(sparkdown::directive::parse_header(b"[x]").is_none());
}

#[test]
fn code_points_before_an_index() {
    let s = "aé".as_bytes();
    assert_eq!(sparkdown::chars::char_before(s, 3), Some(0xE9));
    assert_eq!(sparkdown::chars::char_before(s, 1), Some(0x61));
    assert_eq!(sparkdown::chars::char_before(s, 0), None);
    assert_eq!(sparkdown::chars::char_before(&[0x80, 0x80, 0x80, 0x80], 4), Some(0x80));
}

#[test]
fn nofollow_marks_external_links_only() {
    let mut out = Vec::new();
    sparkdown::render::add_nofollow(b"<a href=\"https://x\">t</a> <a href=\"/y\">u</a>", &mut out);
    assert_eq!(out, b"<a href=\"https://x\" rel=\"nofollow\">t</a> <a href=\"/y\">u</a>".to_vec());
    let mut plain = Vec::new();
    sparkdown::render::add_nofollow(b"<p>no links</p>", &mut plain);
    assert_eq!(plain, b"<p>no links</p>".to_vec());
}

#[test]
fn code_span_and_autolink_refusals() {
    let mut out = Vec::new();
    assert_eq!(sparkdown::syntax::try_code_span(b"``a`", 0, &mut out), None);
    assert!(out.is_empty());
    assert_eq!(sparkdown::syntax::try_code_span(b"`a``b`", 0, &mut out), Some(6));
    assert_eq!(out, b"<code>a``b</code>".to_vec());
    assert!(sparkdown::syntax::try_autolink(b"<foo bar>", 0).is_none());
    assert!(sparkdown::syntax::try_autolink(b"<x", 0).is_none());
    let (n, html) = sparkdown::syntax::try_autolink(b"<a@b.c> x", 0).unwrap();
    assert_eq!(n, 7);
    assert_eq!(html, b"<a href=\"mailto:a@b.c\">a@b.c</a>".to_vec());
}

#[test]
fn line_classifiers_stop_at_the_first_newline() {
    assert!(sparkdown::lines::is_thematic_break(b"- - -\nx"));
    assert!(!sparkdown::lines::is_thematic_break(b"--\n-"));
    assert_eq!(sparkdown::lines::fence_opener(b"```rust\n`"), Some((b'`', 3)));
    assert_eq!(sparkdown::lines::fence_opener(b"``` a`b"), None);
    assert_eq!(sparkdown::lines::fence_opener(b"~~~~ x`y"), Some((b'~', 4)));
}

#[test]
fn list_markers() {
    assert_eq!(sparkdown::lines::list_marker(b"- x", false), Some((false, b'-', 0, 0, 1)));
    assert_eq!(sparkdown::lines::list_marker(b"12) x", false), Some((true, 0, 12, b')', 3)));
    assert_eq!(sparkdown::lines::list_marker(b"123456789. x", false), Some((true, 0, 123456789, b'.', 10)));
    assert_eq!(sparkdown::lines::list_marker(b"1234567890. x", false), None);
    assert_eq!(sparkdown::lines::list_marker(b"2. x", true), None);
    assert_eq!(sparkdown::lines::list_marker(b"1. x", true), Some((true, 0, 1, b'.', 2)));
    assert_eq!(sparkdown::lines::list_marker(b"-   ", true), None);
    assert_eq!(sparkdown::lines::list_marker(b"-", false), Some((false, b'-', 0, 0, 1)));
    assert_eq!(sparkdown::lines::list_marker(b"-x", false), None);
    assert_eq!(sparkdown::lines::list_marker(b"7", false), None);
}
