use sparkdown::inline::{render_inline, Scratch};
use sparkdown::refmap::RefMap;
use sparkdown::Options;

fn stream(src: &str, opts: Options) -> String {
    let mut out = String::new();
    render_inline(src, &mut out, &RefMap::new(), &mut Scratch::new(), opts);
    out
}

#[test]
fn stream_breaks_hard_and_soft() {
    let o = Options::default();
    assert_eq!(stream("a  \n   b", o), "a<br />\nb");
    assert_eq!(stream("a \n b", o), "a\nb");
    assert_eq!(stream("a\\\n  b", o), "a<br />\nb");
    let mut hw = Options::default();
    hw.hard_wraps = true;
    assert_eq!(stream("a\nb", hw), "a<br />\nb");
}

#[test]
fn stream_code_entities_and_angles() {
    let o = Options::default();
    assert_eq!(stream("x `` a`b `` y", o), "x <code>a`b</code> y");
    assert_eq!(stream("``a` tail", o), "``a` tail");
    assert_eq!(stream("&copy; &#x3C; &#1234567890; &bogusname;", o), "© &lt; &amp;#1234567890; &amp;bogusname;");
    assert_eq!(stream("<https://x.y/z> <a@b.co>", o), "<a href=\"https://x.y/z\">https://x.y/z</a> <a href=\"mailto:a@b.co\">a@b.co</a>");
    assert_eq!(stream("<span class=\"c\">t</span> < 3", o), "<span class=\"c\">t</span> &lt; 3");
}

#[test]
fn stream_tag_filter_applies_to_raw_html() {
    let mut tf = Options::default();
    tf.tagfilter = true;
    assert_eq!(stream("<script>x</script> <em>y</em>", tf), "&lt;script>x</script> <em>y</em>");
    let o = Options::default();
    assert_eq!(stream("<script>x</script>", o), "<script>x</script>");
}

#[test]
fn stream_drops_trailing_spaces_at_end() {
    assert_eq!(stream("end   ", Options::default()), "end");
}
