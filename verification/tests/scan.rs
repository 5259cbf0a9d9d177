use sparkdown::scan::{find_emph, find_escape, find_inline, find_stream, memchr1, memchr3};

const W: usize = std::mem::size_of::<usize>();

fn scalar(hay: &[u8], a: u8, b: u8, c: u8) -> Option<usize> {
    hay.iter().position(|&x| x == a || x == b || x == c)
}

#[test]
fn memchr1_matches_scalar_reference() {
    let bytes: Vec<u8> = (0u8..=255).cycle().take(300).collect();
    for len in 0..bytes.len() {
        let hay = &bytes[..len];
        for needle in [b'\n', b'x', 0u8, 255u8] {
            assert_eq!(
                memchr1(hay, needle),
                hay.iter().position(|&x| x == needle),
                "len={len} needle={needle}"
            );
        }
    }
}

#[test]
fn matches_scalar_reference() {
    let bytes: Vec<u8> = (0u8..=255).cycle().take(300).collect();
    for len in 0..bytes.len() {
        let hay = &bytes[..len];
        for (a, b, c) in [(b'&', b'<', b'>'), (b'\n', b'\n', b'\n'), (0, 1, 2)] {
            assert_eq!(
                memchr3(hay, a, b, c),
                scalar(hay, a, b, c),
                "len={len} set=({a},{b},{c})"
            );
        }
    }
}

#[test]
fn target_at_each_position_within_a_word() {
    for pos in 0..(3 * W) {
        let mut hay = vec![b'x'; 3 * W];
        hay[pos] = b'<';
        assert_eq!(memchr3(&hay, b'&', b'<', b'>'), Some(pos), "pos={pos}");
    }
}

#[test]
fn empty_and_no_match() {
    assert_eq!(memchr3(b"", b'&', b'<', b'>'), None);
    assert_eq!(
        memchr3(b"plain prose, no specials here", b'&', b'<', b'>'),
        None
    );
}

#[test]
fn find_escape_matches_scalar() {
    let escape_scalar = |h: &[u8]| {
        h.iter()
            .position(|&b| matches!(b, b'&' | b'<' | b'>' | b'"'))
    };
    let bytes: Vec<u8> = (0u8..=255).cycle().take(400).collect();
    for len in 0..bytes.len() {
        let hay = &bytes[..len];
        assert_eq!(find_escape(hay), escape_scalar(hay), "len={len}");
    }
    for pos in 0..40 {
        for &sp in b"&<>\"" {
            let mut h = vec![b'x'; 40];
            h[pos] = sp;
            assert_eq!(find_escape(&h), Some(pos), "pos={pos} sp={sp}");
        }
    }
    assert_eq!(find_escape(b""), None);
    assert_eq!(find_escape(b"no specials at all here, just prose"), None);
}

#[test]
fn find_set_matches_scalar() {
    let inline_scalar = |h: &[u8]| {
        h.iter().position(|&b| {
            matches!(
                b,
                b'\\' | b'`' | b'&' | b'<' | b'\n' | b'*' | b'_' | b'[' | b']' | b'!'
            )
        })
    };
    let stream_scalar = |h: &[u8]| {
        h.iter()
            .position(|&b| matches!(b, b'\\' | b'`' | b'&' | b'<' | b'\n'))
    };
    let emph_scalar = |h: &[u8]| h.iter().position(|&b| matches!(b, b'*' | b'_' | b'['));
    let bytes: Vec<u8> = (0u8..=255).cycle().take(400).collect();
    for len in 0..bytes.len() {
        let hay = &bytes[..len];
        assert_eq!(find_inline(hay), inline_scalar(hay), "inline len={len}");
        assert_eq!(find_stream(hay), stream_scalar(hay), "stream len={len}");
        assert_eq!(find_emph(hay), emph_scalar(hay), "emph len={len}");
    }
    for pos in 0..40 {
        for &sp in b"\\`&<\n*_[]!" {
            let mut h = vec![b'x'; 40];
            h[pos] = sp;
            assert_eq!(find_inline(&h), Some(pos), "inline pos={pos} sp={sp}");
        }
        for &sp in b"\\`&<\n" {
            let mut h = vec![b'x'; 40];
            h[pos] = sp;
            assert_eq!(find_stream(&h), Some(pos), "stream pos={pos} sp={sp}");
        }
    }
    for &b in b"!*_[]>{ );0a" {
        let h = vec![b; 40];
        assert_eq!(find_stream(&h), None, "stream non-member {b}");
    }
    for &b in b">{ );0a^)" {
        let h = vec![b; 40];
        assert_eq!(find_inline(&h), None, "inline non-member {b}");
    }
}
