use sparkdown::{to_html, to_html_with, Options, Renderer};

#[test]
fn default_matches_to_html() {
    for src in [
        "# h\n\npara *em* `code`\n\n- a\n- b\n",
        "> quote\n\n```\nfenced\n```\n",
        "a [link](/u) and ~~tilde~~ and www.x.com\n",
    ] {
        assert_eq!(to_html(src), to_html_with(src, &Options::default()));
    }
}

#[test]
fn hard_wraps() {
    let on = Options {
        hard_wraps: true,
        ..Options::default()
    };
    assert_eq!(to_html("a\nb"), "<p>a\nb</p>\n");
    assert_eq!(to_html_with("a\nb", &on), "<p>a<br />\nb</p>\n");
    assert_eq!(to_html("a  \nb"), "<p>a<br />\nb</p>\n");
    assert_eq!(to_html_with("a  \nb", &on), "<p>a<br />\nb</p>\n");
}

#[test]
fn renderer_carries_options() {
    let mut r = Renderer::with_options(Options {
        hard_wraps: true,
        ..Options::default()
    });
    assert_eq!(r.render("a\nb"), "<p>a<br />\nb</p>\n");
    assert_eq!(r.render("c\nd"), "<p>c<br />\nd</p>\n");
}

#[test]
fn gfm_preset_is_all_on() {
    let g = Options::gfm();
    assert!(g.strikethrough && g.tasklist && g.autolink && g.tagfilter && g.tables);
}

#[test]
fn strikethrough() {
    let st = Options {
        strikethrough: true,
        ..Options::default()
    };
    let go = |s: &str| to_html_with(s, &st);
    assert_eq!(go("~~foo~~"), "<p><del>foo</del></p>\n");
    assert_eq!(go("~foo~"), "<p><del>foo</del></p>\n");
    assert_eq!(
        go("~~Hi~~ Hello, ~there~ world!"),
        "<p><del>Hi</del> Hello, <del>there</del> world!</p>\n"
    );
    assert_eq!(go("a~~b~~c"), "<p>a<del>b</del>c</p>\n");
    assert_eq!(go("~~foo~"), "<p>~~foo~</p>\n");
    assert_eq!(go("~~ foo ~~"), "<p>~~ foo ~~</p>\n");
    assert_eq!(
        go("~~~foo~~~"),
        "<pre><code class=\"language-foo~~~\"></code></pre>\n"
    );
    assert_eq!(to_html("~~foo~~"), "<p>~~foo~~</p>\n");
}

#[test]
fn tasklist() {
    let tl = Options {
        tasklist: true,
        ..Options::default()
    };
    let go = |s: &str| to_html_with(s, &tl);
    assert_eq!(
        go("- [ ] foo\n- [x] bar\n"),
        "<ul>\n<li><input disabled=\"\" type=\"checkbox\"> foo</li>\n\
         <li><input checked=\"\" disabled=\"\" type=\"checkbox\"> bar</li>\n</ul>\n"
    );
    assert_eq!(
        go("- [ ] a\n\n- [x] b\n"),
        "<ul>\n<li>\n<p><input disabled=\"\" type=\"checkbox\"> a</p>\n</li>\n\
         <li>\n<p><input checked=\"\" disabled=\"\" type=\"checkbox\"> b</p>\n</li>\n</ul>\n"
    );
    assert_eq!(
        go("* [X] up\n"),
        "<ul>\n<li><input checked=\"\" disabled=\"\" type=\"checkbox\"> up</li>\n</ul>\n"
    );
    assert_eq!(go("- [ ]x\n"), "<ul>\n<li>[ ]x</li>\n</ul>\n");
    assert_eq!(to_html("- [ ] foo\n"), "<ul>\n<li>[ ] foo</li>\n</ul>\n");
}
