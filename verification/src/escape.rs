//! HTML escaping: text (`&` `<` `>` `"`), attribute values, and `href`
//! percent-encoding.

use vstd::prelude::*;

verus! {

/// `&amp;`
pub open spec fn amp_spec() -> Seq<u8> {
    seq![0x26u8, 0x61, 0x6d, 0x70, 0x3b]
}

/// `&lt;`
pub open spec fn lt_spec() -> Seq<u8> {
    seq![0x26u8, 0x6c, 0x74, 0x3b]
}

/// `&gt;`
pub open spec fn gt_spec() -> Seq<u8> {
    seq![0x26u8, 0x67, 0x74, 0x3b]
}

/// `&quot;`
pub open spec fn quot_spec() -> Seq<u8> {
    seq![0x26u8, 0x71, 0x75, 0x6f, 0x74, 0x3b]
}

/// The text escape of one byte: the four specials become entities, every
/// other byte is kept.
pub open spec fn esc_byte(b: u8) -> Seq<u8> {
    if b == 0x26 {
        amp_spec()
    } else if b == 0x3c {
        lt_spec()
    } else if b == 0x3e {
        gt_spec()
    } else if b == 0x22 {
        quot_spec()
    } else {
        seq![b]
    }
}

/// The text escape of a byte string.
pub open spec fn esc_text(s: Seq<u8>) -> Seq<u8>
    decreases s.len(),
{
    if s.len() == 0 {
        Seq::empty()
    } else {
        esc_text(s.drop_last()) + esc_byte(s.last())
    }
}

/// Escape law: escaping a text piecewise is escaping it whole, so text may
/// be escaped in runs as it streams.
pub proof fn lemma_esc_text_concat(a: Seq<u8>, b: Seq<u8>)
    ensures
        esc_text(a + b) == esc_text(a) + esc_text(b),
    decreases b.len(),
{
    if b.len() == 0 {
        assert(a + b =~= a);
        assert(esc_text(b) =~= Seq::<u8>::empty());
        assert(esc_text(a) + esc_text(b) =~= esc_text(a));
    } else {
        lemma_esc_text_concat(a, b.drop_last());
        assert((a + b).drop_last() =~= a + b.drop_last());
        assert((a + b).last() == b.last());
        assert(esc_text(a) + esc_text(b) =~= esc_text(a) + esc_text(b.drop_last()) + esc_byte(
            b.last(),
        ));
    }
}

/// Escape law: text without `&`, `<`, `>`, `"` is its own escape.
pub proof fn lemma_esc_text_plain(s: Seq<u8>)
    requires
        forall|k: int| 0 <= k < s.len() ==> !crate::scan::is_escape_spec(#[trigger] s[k]),
    ensures
        esc_text(s) == s,
    decreases s.len(),
{
    if s.len() > 0 {
        lemma_esc_text_plain(s.drop_last());
        assert(s.drop_last().push(s.last()) =~= s);
    }
}

/// Append the text escape of one byte.
pub fn push_escaped_byte(out: &mut Vec<u8>, b: u8)
    ensures
        final(out)@ == old(out)@ + esc_byte(b),
{
    if b == 0x26 {
        out.push(0x26);
        out.push(0x61);
        out.push(0x6d);
        out.push(0x70);
        out.push(0x3b);
    } else if b == 0x3c {
        out.push(0x26);
        out.push(0x6c);
        out.push(0x74);
        out.push(0x3b);
    } else if b == 0x3e {
        out.push(0x26);
        out.push(0x67);
        out.push(0x74);
        out.push(0x3b);
    } else if b == 0x22 {
        out.push(0x26);
        out.push(0x71);
        out.push(0x75);
        out.push(0x6f);
        out.push(0x74);
        out.push(0x3b);
    } else {
        out.push(b);
    }
}

/// Append `s` to `out`, escaping the HTML text specials `&`, `<`, `>`, `"`
/// (the double quote is escaped in text and code as well as attributes).
pub fn escape_html_bytes(s: &[u8], out: &mut Vec<u8>)
    ensures
        final(out)@ == old(out)@ + esc_text(s@),
{
    let mut i: usize = 0;
    while i < s.len()
        invariant
            i <= s.len(),
            out@ == old(out)@ + esc_text(s@.subrange(0, i as int)),
        decreases s.len() - i,
    {
        let ghost before = out@;
        push_escaped_byte(out, s[i]);
        proof {
            let p = s@.subrange(0, i + 1);
            assert(p.drop_last() == s@.subrange(0, i as int));
            assert(p.last() == s@[i as int]);
            assert(out@ == before + esc_byte(s@[i as int]));
        }
        i += 1;
    }
    assert(s@.subrange(0, s@.len() as int) == s@);
}

/// Is `b` safe to leave unescaped in an `href` (cmark's HREF_SAFE set)?
pub open spec fn href_safe_spec(b: u8) -> bool {
    b == 0x21 || b == 0x23 || b == 0x24 || b == 0x25 || b == 0x27 || b == 0x28 || b == 0x29
        || b == 0x2a || b == 0x2b || b == 0x2c || b == 0x2d || b == 0x2e || b == 0x2f || (0x30
        <= b <= 0x39) || b == 0x3a || b == 0x3b || b == 0x3d || b == 0x3f || b == 0x40 || (0x41
        <= b <= 0x5a) || b == 0x5f || (0x61 <= b <= 0x7a) || b == 0x7e
}

pub fn href_safe(b: u8) -> (r: bool)
    ensures
        r == href_safe_spec(b),
{
    b == 0x21 || b == 0x23 || b == 0x24 || b == 0x25 || b == 0x27 || b == 0x28 || b == 0x29
        || b == 0x2a || b == 0x2b || b == 0x2c || b == 0x2d || b == 0x2e || b == 0x2f || (0x30
        <= b && b <= 0x39) || b == 0x3a || b == 0x3b || b == 0x3d || b == 0x3f || b == 0x40
        || (0x41 <= b && b <= 0x5a) || b == 0x5f || (0x61 <= b && b <= 0x7a) || b == 0x7e
}

/// Uppercase hex digit of a nibble.
pub open spec fn hex_digit_spec(n: u8) -> u8 {
    if n < 10 {
        (0x30 + n) as u8
    } else {
        (0x41 + n - 10) as u8
    }
}

pub(crate) fn hex_digit(n: u8) -> (r: u8)
    requires
        n < 16,
    ensures
        r == hex_digit_spec(n),
{
    if n < 10 {
        0x30 + n
    } else {
        0x41 + n - 10
    }
}

/// The `href` escape of one byte: safe bytes are kept, `&` → `&amp;`, `'` →
/// `&#x27;`, everything else is percent-encoded with uppercase hex.
pub open spec fn href_byte(b: u8) -> Seq<u8> {
    if href_safe_spec(b) {
        seq![b]
    } else if b == 0x26 {
        amp_spec()
    } else if b == 0x27 {
        seq![0x26u8, 0x23, 0x78, 0x32, 0x37, 0x3b]
    } else {
        seq![0x25u8, hex_digit_spec(b / 16), hex_digit_spec(b % 16)]
    }
}

pub open spec fn href_text(s: Seq<u8>) -> Seq<u8>
    decreases s.len(),
{
    if s.len() == 0 {
        Seq::empty()
    } else {
        href_text(s.drop_last()) + href_byte(s.last())
    }
}

/// Append `s` escaped for an `href` attribute, matching cmark's
/// `houdini_href`.
pub fn escape_href(s: &[u8], out: &mut Vec<u8>)
    ensures
        final(out)@ == old(out)@ + href_text(s@),
{
    let mut i: usize = 0;
    while i < s.len()
        invariant
            i <= s.len(),
            out@ == old(out)@ + href_text(s@.subrange(0, i as int)),
        decreases s.len() - i,
    {
        let b = s[i];
        let ghost before = out@;
        if href_safe(b) {
            out.push(b);
        } else if b == 0x26 {
            out.push(0x26);
            out.push(0x61);
            out.push(0x6d);
            out.push(0x70);
            out.push(0x3b);
        } else if b == 0x27 {
            out.push(0x26);
            out.push(0x23);
            out.push(0x78);
            out.push(0x32);
            out.push(0x37);
            out.push(0x3b);
        } else {
            out.push(0x25);
            out.push(hex_digit(b / 16));
            out.push(hex_digit(b % 16));
        }
        proof {
            let p = s@.subrange(0, i + 1);
            assert(p.drop_last() == s@.subrange(0, i as int));
            assert(p.last() == b);
            assert(out@ == before + href_byte(b));
        }
        i += 1;
    }
    assert(s@.subrange(0, s@.len() as int) == s@);
}

/// Append `s` escaped for a double-quoted attribute (`&<>"`), the same
/// rewrite as the text escape.
pub fn escape_attr(s: &[u8], out: &mut Vec<u8>)
    ensures
        final(out)@ == old(out)@ + esc_text(s@),
{
    escape_html_bytes(s, out)
}


/// Bytes below `0x80` are valid UTF-8.
pub proof fn lemma_ascii_valid(s: Seq<u8>)
    requires
        forall|k: int| 0 <= k < s.len() ==> #[trigger] s[k] < 0x80,
    ensures
        vstd::utf8::valid_utf8(s),
    decreases s.len(),
{
    if s.len() > 0 {
        let t = s.subrange(1, s.len() as int);
        assert forall|k: int| 0 <= k < t.len() implies #[trigger] t[k] < 0x80 by {
            assert(t[k] == s[k + 1]);
        }
        lemma_ascii_valid(t);
        assert(vstd::utf8::pop_first_scalar(s) =~= t);
    }
}

/// Escaping keeps UTF-8 valid: it replaces ASCII bytes by ASCII text and
/// leaves every other byte as it is.
pub proof fn lemma_esc_text_valid(s: Seq<u8>)
    requires
        vstd::utf8::valid_utf8(s),
    ensures
        vstd::utf8::valid_utf8(esc_text(s)),
    decreases s.len(),
{
    if s.len() > 0 {
        let l = vstd::utf8::length_of_first_scalar(s);
        let head = s.subrange(0, l);
        let tail = s.subrange(l, s.len() as int);
        assert(s =~= head + tail);
        lemma_esc_text_concat(head, tail);
        lemma_esc_text_valid(tail);
        if l == 1 {
            assert(head =~= seq![s[0]]);
            assert(head.drop_last() =~= Seq::<u8>::empty());
            assert(esc_text(head) == esc_text(Seq::<u8>::empty()) + esc_byte(s[0]));
            assert(esc_text(head) =~= esc_byte(s[0]));
            lemma_ascii_valid(esc_byte(s[0]));
        } else {
            assert forall|k: int| 0 <= k < head.len() implies !crate::scan::is_escape_spec(#[trigger] head[k]) by {
                assert(head[k] == s[k]);
                assert(head[k] >= 0x80);
            }
            lemma_esc_text_plain(head);
            assert(head.len() == l);
            assert(head[0] == s[0]);
            assert(head[1] == s[1]);
            if l >= 3 {
                assert(head[2] == s[2]);
            }
            if l >= 4 {
                assert(head[3] == s[3]);
            }
            assert(vstd::utf8::valid_leading_and_continuation_bytes_first_codepoint(head));
            assert(vstd::utf8::length_of_first_codepoint(head) == l);
            assert(vstd::utf8::decode_first_codepoint(head) == vstd::utf8::decode_first_codepoint(s));
            assert(vstd::utf8::valid_first_scalar(head));
            assert(vstd::utf8::pop_first_scalar(head) =~= Seq::<u8>::empty());
            assert(vstd::utf8::valid_utf8(Seq::<u8>::empty()));
            assert(vstd::utf8::valid_utf8(head));
        }
        vstd::utf8::valid_utf8_concat(esc_text(head), esc_text(tail));
        assert(esc_text(s) == esc_text(head) + esc_text(tail));
    }
}

} // verus!
