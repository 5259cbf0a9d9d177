use sparkdown::ast::{node_count, render_mdast, write_json, write_json_pos, Mdast, Pos, RefKind};

fn text(s: &str) -> Mdast {
    Mdast::Text(s.as_bytes().to_vec())
}

fn json(n: &Mdast) -> String {
    let mut out = Vec::new();
    write_json(n, &mut out);
    String::from_utf8(out).unwrap()
}

#[test]
fn mdast_paragraph_and_emphasis_render() {
    let tree = Mdast::Root(vec![
        Mdast::Heading { depth: 2, children: vec![text("Title")] },
        Mdast::Paragraph(vec![text("a "), Mdast::Emphasis(vec![text("b")]), text(" & <c>")]),
        Mdast::ThematicBreak,
    ]);
    assert_eq!(render_mdast(&tree), "<h2>Title</h2>\n<p>a <em>b</em> &#x26; &#x3C;c></p>\n<hr>\n");
}

#[test]
fn mdast_tight_and_loose_lists() {
    let item = |s: &str| Mdast::ListItem { spread: false, children: vec![Mdast::Paragraph(vec![text(s)])] };
    let tight = Mdast::List { ordered: false, start: None, spread: false, children: vec![item("a"), item("b")] };
    assert_eq!(render_mdast(&tight), "<ul>\n<li>a</li>\n<li>b</li>\n</ul>\n");
    let loose = Mdast::List { ordered: true, start: Some(3), spread: true, children: vec![item("a")] };
    assert_eq!(render_mdast(&loose), "<ol start=\"3\">\n<li>\n<p>a</p>\n</li>\n</ol>\n");
}

#[test]
fn mdast_references_resolve_first_definition() {
    let def = |u: &str| Mdast::Definition {
        identifier: b"x".to_vec(),
        label: b"x".to_vec(),
        url: u.as_bytes().to_vec(),
        title: None,
    };
    let tree = Mdast::Root(vec![
        Mdast::Paragraph(vec![Mdast::LinkReference {
            identifier: b"x".to_vec(),
            label: b"X".to_vec(),
            reftype: RefKind::Full,
            children: vec![text("t")],
        }]),
        def("/first"),
        def("/second"),
        Mdast::Paragraph(vec![Mdast::LinkReference {
            identifier: b"y".to_vec(),
            label: b"Y".to_vec(),
            reftype: RefKind::Full,
            children: vec![text("u")],
        }]),
    ]);
    assert_eq!(render_mdast(&tree), "<p><a href=\"/first\">t</a></p>\n<p>[u][Y]</p>\n");
}

#[test]
fn mdast_code_urls_and_raw_html() {
    let tree = Mdast::Root(vec![
        Mdast::Code { lang: Some(b"rust x".to_vec()), meta: None, value: b"a<b".to_vec() },
        Mdast::Html(b"<div>".to_vec()),
        Mdast::Paragraph(vec![Mdast::Link {
            url: "/a b?q=1&r='é".as_bytes().to_vec(),
            title: Some(b"T\"".to_vec()),
            children: vec![Mdast::InlineCode(b"x\ny".to_vec())],
        }]),
    ]);
    assert_eq!(
        render_mdast(&tree),
        "<pre><code class=\"language-rust\">a&#x3C;b\n</code></pre>\n<p><a href=\"/a%20b?q=1&#x26;r=&#x27;%C3%A9\" title=\"T&#x22;\"><code>x y</code></a></p>\n"
    );
}

#[test]
fn mdast_node_count_skips_positions() {
    let p = Pos { start: (1, 1, 0), end: (1, 2, 1) };
    let tree = Mdast::Root(vec![Mdast::Positioned(p, Box::new(Mdast::Paragraph(vec![text("a"), Mdast::Break])))]);
    assert_eq!(node_count(&tree), 4);
}

#[test]
fn mdast_json_objects() {
    let tree = Mdast::Root(vec![Mdast::Paragraph(vec![text("a\"\n\u{1}")])]);
    assert_eq!(
        json(&tree),
        "{\"type\":\"root\",\"children\":[{\"type\":\"paragraph\",\"children\":[{\"type\":\"text\",\"value\":\"a\\\"\\n\\u0001\"}]}]}"
    );
    let p = Pos { start: (1, 1, 0), end: (1, 4, 3) };
    let mut out = Vec::new();
    write_json_pos(&Mdast::Positioned(p, Box::new(Mdast::ThematicBreak)), None, &mut out);
    assert_eq!(
        String::from_utf8(out).unwrap(),
        "{\"type\":\"thematicBreak\",\"position\":{\"start\":{\"line\":1,\"column\":1,\"offset\":0},\"end\":{\"line\":1,\"column\":4,\"offset\":3}}}"
    );
    let list = Mdast::List { ordered: true, start: Some(2), spread: false, children: vec![] };
    assert_eq!(json(&list), "{\"type\":\"list\",\"ordered\":true,\"start\":2,\"spread\":false,\"children\":[]}");
}
