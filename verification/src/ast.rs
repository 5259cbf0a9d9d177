#![verifier::loop_isolation(false)]
//! The mdast syntax tree (the `unist` markdown AST) and its rendering back
//! to HTML, byte for byte as `mdast-util-to-hast` + `hast-util-to-html`
//! render it with their default options.

use vstd::prelude::*;
use vstd::string::StringSliceAdditionalSpecFns;
use vstd::string::StringExecFns;
use crate::bytes::{append, append_str, to_vec};
use crate::escape::{hex_digit, hex_digit_spec};
use crate::render::{decimal, push_u64};

verus! {

/// How a link or image reference was written: `[x]`, `[x][]` or `[x][y]`.
#[derive(Clone, Copy, PartialEq, Eq)]
pub enum RefKind {
    Shortcut,
    Collapsed,
    Full,
}

/// A unist position: `(line, column, offset)` for start and end.
pub struct Pos {
    pub start: (u32, u32, u32),
    pub end: (u32, u32, u32),
}

/// An mdast node; text fields hold UTF-8 bytes.
pub enum Mdast {
    Root(Vec<Mdast>),
    Paragraph(Vec<Mdast>),
    Heading { depth: u8, children: Vec<Mdast> },
    Blockquote(Vec<Mdast>),
    List { ordered: bool, start: Option<u64>, spread: bool, children: Vec<Mdast> },
    ListItem { spread: bool, children: Vec<Mdast> },
    ThematicBreak,
    Code { lang: Option<Vec<u8>>, meta: Option<Vec<u8>>, value: Vec<u8> },
    Definition { identifier: Vec<u8>, label: Vec<u8>, url: Vec<u8>, title: Option<Vec<u8>> },
    Html(Vec<u8>),
    Yaml(Vec<u8>),
    Toml(Vec<u8>),
    FootnoteDefinition { identifier: Vec<u8>, label: Vec<u8>, children: Vec<Mdast> },
    DefList(Vec<Mdast>),
    DefListTerm(Vec<Mdast>),
    DefListDescription { spread: bool, children: Vec<Mdast> },
    ContainerDirective { name: Vec<u8>, attributes: Vec<(Vec<u8>, Vec<u8>)>, children: Vec<Mdast> },
    LeafDirective { name: Vec<u8>, attributes: Vec<(Vec<u8>, Vec<u8>)>, children: Vec<Mdast> },
    DirectiveLabel(Vec<Mdast>),
    Text(Vec<u8>),
    Emphasis(Vec<Mdast>),
    Strong(Vec<Mdast>),
    Delete(Vec<Mdast>),
    InlineCode(Vec<u8>),
    Break,
    Link { url: Vec<u8>, title: Option<Vec<u8>>, children: Vec<Mdast> },
    Image { url: Vec<u8>, title: Option<Vec<u8>>, alt: Vec<u8> },
    LinkReference { identifier: Vec<u8>, label: Vec<u8>, reftype: RefKind, children: Vec<Mdast> },
    ImageReference { identifier: Vec<u8>, label: Vec<u8>, reftype: RefKind, alt: Vec<u8> },
    FootnoteReference { identifier: Vec<u8>, label: Vec<u8> },
    TextDirective { name: Vec<u8>, attributes: Vec<(Vec<u8>, Vec<u8>)>, children: Vec<Mdast> },
    /// A node with its source position.
    Positioned(Pos, Box<Mdast>),
}

// ---- escaping -------------------------------------------------------------

/// The hast text escape of one byte: `&` and `<` as numeric references.
pub open spec fn hesc_byte(b: u8) -> Seq<u8> {
    if b == 0x26 {
        "&#x26;".spec_bytes()
    } else if b == 0x3c {
        "&#x3C;".spec_bytes()
    } else {
        seq![b]
    }
}

/// The hast text escape of `s`.
pub open spec fn hesc(s: Seq<u8>) -> Seq<u8>
    decreases s.len(),
{
    if s.len() == 0 {
        Seq::empty()
    } else {
        hesc(s.drop_last()) + hesc_byte(s.last())
    }
}

/// The hast attribute escape of one byte: `&`, `"`, `'` and backtick as
/// numeric references.
pub open spec fn hattr_byte(b: u8) -> Seq<u8> {
    if b == 0x26 {
        "&#x26;".spec_bytes()
    } else if b == 0x22 {
        "&#x22;".spec_bytes()
    } else if b == 0x27 {
        "&#x27;".spec_bytes()
    } else if b == 0x60 {
        "&#x60;".spec_bytes()
    } else {
        seq![b]
    }
}

/// The hast attribute escape of `s`.
pub open spec fn hattr(s: Seq<u8>) -> Seq<u8>
    decreases s.len(),
{
    if s.len() == 0 {
        Seq::empty()
    } else {
        hattr(s.drop_last()) + hattr_byte(s.last())
    }
}

/// Append the hast text escape of `s`.
fn esc_text(s: &[u8], out: &mut Vec<u8>)
    ensures
        final(out)@ == old(out)@ + hesc(s@),
{
    let mut i: usize = 0;
    while i < s.len()
        invariant
            i <= s@.len(),
            out@ == old(out)@ + hesc(s@.subrange(0, i as int)),
        decreases s.len() - i,
    {
        let b = s[i];
        proof {
            assert(s@.subrange(0, i + 1).drop_last() =~= s@.subrange(0, i as int));
        }
        if b == 0x26 {
            append_str(out, "&#x26;");
        } else if b == 0x3c {
            append_str(out, "&#x3C;");
        } else {
            out.push(b);
        }
        i += 1;
    }
    proof {
        assert(s@.subrange(0, s@.len() as int) =~= s@);
    }
}

/// Append the hast attribute escape of `s`.
fn esc_attr(s: &[u8], out: &mut Vec<u8>)
    ensures
        final(out)@ == old(out)@ + hattr(s@),
{
    let mut i: usize = 0;
    while i < s.len()
        invariant
            i <= s@.len(),
            out@ == old(out)@ + hattr(s@.subrange(0, i as int)),
        decreases s.len() - i,
    {
        let b = s[i];
        proof {
            assert(s@.subrange(0, i + 1).drop_last() =~= s@.subrange(0, i as int));
        }
        if b == 0x26 {
            append_str(out, "&#x26;");
        } else if b == 0x22 {
            append_str(out, "&#x22;");
        } else if b == 0x27 {
            append_str(out, "&#x27;");
        } else if b == 0x60 {
            append_str(out, "&#x60;");
        } else {
            out.push(b);
        }
        i += 1;
    }
    proof {
        assert(s@.subrange(0, s@.len() as int) =~= s@);
    }
}

/// A byte that `normalizeUri` leaves as it is: `!`, `#`, `$` to `;`, `=`,
/// `?` to `Z`, `_`, `a` to `z`, `~`.
pub open spec fn uri_safe(b: u8) -> bool {
    b == 0x21 || b == 0x23 || (0x24 <= b <= 0x3b) || b == 0x3d || (0x3f <= b <= 0x5a) || b == 0x5f || (
    0x61 <= b <= 0x7a) || b == 0x7e
}

/// `%XX` for byte `b`.
pub open spec fn pct(b: u8) -> Seq<u8> {
    seq![0x25u8, hex_digit_spec(b >> 4), hex_digit_spec(b & 0xf)]
}

/// The UTF-8 sequence length a lead byte announces.
pub open spec fn lead_len(b: u8) -> int {
    if b >= 0xf0 {
        4
    } else if b >= 0xe0 {
        3
    } else if b >= 0xc0 {
        2
    } else {
        1
    }
}

/// `%XX` for each byte of `s[i..j]`.
pub open spec fn pct_run(s: Seq<u8>, i: int, j: int) -> Seq<u8>
    decreases j - i,
{
    if i >= j || i < 0 || j > s.len() {
        Seq::empty()
    } else {
        pct(s[i]) + pct_run(s, i + 1, j)
    }
}

/// A URL from `i` on as a normalized, attribute-escaped value: an existing
/// `%XX` with alphanumeric `X`s is kept, `&` and `'` become references,
/// other unsafe ASCII and every byte of a non-ASCII character are
/// percent-encoded.
pub open spec fn uri_from(s: Seq<u8>, i: int) -> Seq<u8>
    decreases s.len() - i,
{
    if i < 0 || i >= s.len() {
        Seq::empty()
    } else {
        let b = s[i];
        if b == 0x25 && i + 2 < s.len() && crate::bytes::is_alnum_spec(s[i + 1]) && crate::bytes::is_alnum_spec(
            s[i + 2],
        ) {
            seq![0x25u8, s[i + 1], s[i + 2]] + uri_from(s, i + 3)
        } else if b == 0x26 {
            "&#x26;".spec_bytes() + uri_from(s, i + 1)
        } else if b == 0x27 {
            "&#x27;".spec_bytes() + uri_from(s, i + 1)
        } else if b < 0x80 {
            (if uri_safe(b) {
                seq![b]
            } else {
                pct(b)
            }) + uri_from(s, i + 1)
        } else {
            let e = if i + lead_len(b) <= s.len() {
                i + lead_len(b)
            } else {
                s.len() as int
            };
            pct_run(s, i, e) + uri_from(s, e)
        }
    }
}

/// Append `%XX` for `b`.
fn push_pct(b: u8, out: &mut Vec<u8>)
    ensures
        final(out)@ == old(out)@ + pct(b),
{
    out.push(0x25);
    assert(b >> 4 < 16) by (bit_vector);
    assert(b & 0xf < 16) by (bit_vector);
    out.push(hex_digit(b >> 4));
    out.push(hex_digit(b & 0xf));
    proof {
        assert(out@ =~= old(out)@ + pct(b));
    }
}

/// Append a URL normalized and escaped for a double-quoted attribute.
fn emit_uri_attr(url: &[u8], out: &mut Vec<u8>)
    ensures
        final(out)@ == old(out)@ + uri_from(url@, 0),
{
    let n = url.len();
    let mut i: usize = 0;
    while i < n
        invariant
            i <= n,
            n == url@.len(),
            out@ + uri_from(url@, i as int) == old(out)@ + uri_from(url@, 0),
        decreases n - i,
    {
        let ghost prev = out@;
        let b = url[i];
        if b == 0x25 && n - i > 2 && crate::bytes::is_alnum(url[i + 1]) && crate::bytes::is_alnum(url[i + 2]) {
            out.push(0x25);
            out.push(url[i + 1]);
            out.push(url[i + 2]);
            proof {
                assert(out@ + uri_from(url@, i + 3) =~= prev + uri_from(url@, i as int));
            }
            i += 3;
        } else if b == 0x26 {
            append_str(out, "&#x26;");
            proof {
                assert(out@ + uri_from(url@, i + 1) =~= prev + uri_from(url@, i as int));
            }
            i += 1;
        } else if b == 0x27 {
            append_str(out, "&#x27;");
            proof {
                assert(out@ + uri_from(url@, i + 1) =~= prev + uri_from(url@, i as int));
            }
            i += 1;
        } else if b < 0x80 {
            if b == 0x21 || b == 0x23 || (0x24 <= b && b <= 0x3b) || b == 0x3d || (0x3f <= b && b <= 0x5a)
                || b == 0x5f || (0x61 <= b && b <= 0x7a) || b == 0x7e {
                out.push(b);
            } else {
                push_pct(b, out);
            }
            proof {
                assert(out@ + uri_from(url@, i + 1) =~= prev + uri_from(url@, i as int));
            }
            i += 1;
        } else {
            let len: usize = if b >= 0xf0 {
                4
            } else if b >= 0xe0 {
                3
            } else if b >= 0xc0 {
                2
            } else {
                1
            };
            let e = if len <= n - i { i + len } else { n };
            let mut k = i;
            while k < e
                invariant
                    i <= k <= e <= n,
                    n == url@.len(),
                    out@ + pct_run(url@, k as int, e as int) == prev + pct_run(url@, i as int, e as int),
                decreases e - k,
            {
                let ghost before = out@;
                push_pct(url[k], out);
                proof {
                    assert(out@ + pct_run(url@, k + 1, e as int) =~= before + pct_run(url@, k as int, e as int));
                }
                k += 1;
            }
            proof {
                assert(out@ + uri_from(url@, e as int) =~= prev + uri_from(url@, i as int));
            }
            i = e;
        }
    }
    proof {
        assert(out@ =~= out@ + uri_from(url@, i as int));
    }
}


/// The first index from `k` on holding a line ending byte (`\n`, `\r`), or
/// the length.
pub open spec fn brk_at(s: Seq<u8>, k: int) -> int
    decreases s.len() - k,
{
    if 0 <= k < s.len() && s[k] != 0x0a && s[k] != 0x0d {
        brk_at(s, k + 1)
    } else {
        k
    }
}

/// `brk_at` moves forward and stays within `s`.
pub proof fn lemma_brk_at(s: Seq<u8>, k: int)
    requires
        0 <= k <= s.len(),
    ensures
        k <= brk_at(s, k) <= s.len(),
    decreases s.len() - k,
{
    if k < s.len() && s[k] != 0x0a && s[k] != 0x0d {
        lemma_brk_at(s, k + 1);
    }
}

/// Past the spaces and tabs of `s[a..b]` from the front.
pub open spec fn sp_fwd(s: Seq<u8>, a: int, b: int) -> int
    decreases b - a,
{
    if a < b && (s[a] == 0x20 || s[a] == 0x09) {
        sp_fwd(s, a + 1, b)
    } else {
        a
    }
}

/// Before the spaces and tabs of `s[a..b]` from the back.
pub open spec fn sp_back(s: Seq<u8>, a: int, b: int) -> int
    decreases b - a,
{
    if b > a && (s[b - 1] == 0x20 || s[b - 1] == 0x09) {
        sp_back(s, a, b - 1)
    } else {
        b
    }
}

/// `sp_fwd` and `sp_back` stay within `[a, b]`.
pub proof fn lemma_sp(s: Seq<u8>, a: int, b: int)
    requires
        a <= b,
    ensures
        a <= sp_fwd(s, a, b) <= b,
        a <= sp_back(s, a, b) <= b,
    decreases b - a,
{
    if a < b {
        lemma_sp(s, a + 1, b);
        lemma_sp(s, a, b - 1);
    }
}

/// Text from the line starting at `ls` on, as `trim-lines` leaves it and
/// escaped: spaces and tabs are dropped at the start of every line but the
/// first and at the end of every line but the last; line endings stay.
pub open spec fn trimmed_from(s: Seq<u8>, ls: int, first: bool) -> Seq<u8>
    decreases s.len() - ls,
{
    if ls < 0 || ls > s.len() {
        Seq::empty()
    } else {
        let e = brk_at(s, ls);
        proof {
            lemma_brk_at(s, ls);
        }
        let a = if first {
            ls
        } else {
            sp_fwd(s, ls, e)
        };
        proof {
            lemma_sp(s, ls, e);
        }
        let b = if e >= s.len() {
            e
        } else {
            sp_back(s, a, e)
        };
        proof {
            lemma_sp(s, a, e);
        }
        let piece = hesc(s.subrange(a, b));
        if e >= s.len() {
            piece
        } else {
            let w = if s[e] == 0x0d && e + 1 < s.len() && s[e + 1] == 0x0a {
                2int
            } else {
                1int
            };
            piece + s.subrange(e, e + w) + trimmed_from(s, e + w, false)
        }
    }
}

/// Append a text value as `trim-lines` leaves it, escaped.
fn emit_text_trimmed(s: &[u8], out: &mut Vec<u8>)
    ensures
        final(out)@ == old(out)@ + trimmed_from(s@, 0, true),
{
    let n = s.len();
    let mut ls: usize = 0;
    let mut first = true;
    loop
        invariant
            ls <= n == s@.len(),
            out@ + trimmed_from(s@, ls as int, first) == old(out)@ + trimmed_from(s@, 0, true),
        decreases n - ls,
    {
        let ghost prev = out@;
        let mut e = ls;
        while e < n && s[e] != 0x0a && s[e] != 0x0d
            invariant
                ls <= e <= n,
                n == s@.len(),
                brk_at(s@, e as int) == brk_at(s@, ls as int),
            decreases n - e,
        {
            e += 1;
        }
        let mut a = ls;
        if !first {
            while a < e && (s[a] == 0x20 || s[a] == 0x09)
                invariant
                    ls <= a <= e,
                    e <= n == s@.len(),
                    sp_fwd(s@, a as int, e as int) == sp_fwd(s@, ls as int, e as int),
                decreases e - a,
            {
                a += 1;
            }
        }
        let mut b = e;
        if e < n {
            while b > a && (s[b - 1] == 0x20 || s[b - 1] == 0x09)
                invariant
                    a <= b <= e,
                    e <= n == s@.len(),
                    sp_back(s@, a as int, b as int) == sp_back(s@, a as int, e as int),
                decreases b,
            {
                b -= 1;
            }
        }
        let piece = crate::bytes::slice(s, a, b);
        proof {
            assert(piece@ =~= s@.subrange(a as int, b as int));
        }
        esc_text(piece, out);
        if e >= n {
            proof {
                assert(out@ =~= prev + trimmed_from(s@, ls as int, first));
            }
            return;
        }
        let w: usize = if s[e] == 0x0d && e + 1 < n && s[e + 1] == 0x0a { 2 } else { 1 };
        let brk = crate::bytes::slice(s, e, e + w);
        proof {
            assert(brk@ =~= s@.subrange(e as int, e + w));
        }
        append(out, brk);
        proof {
            assert(out@ + trimmed_from(s@, e + w, false) =~= prev + trimmed_from(s@, ls as int, first));
        }
        ls = e + w;
        first = false;
    }
}

/// An inline code value from `i` on: each line ending (`\r\n` counting as
/// one) becomes a space, the rest is text-escaped.
pub open spec fn code_value_from(s: Seq<u8>, i: int) -> Seq<u8>
    decreases s.len() - i,
{
    if i < 0 || i >= s.len() {
        Seq::empty()
    } else if s[i] == 0x0d && i + 1 < s.len() && s[i + 1] == 0x0a {
        seq![0x20u8] + code_value_from(s, i + 2)
    } else if s[i] == 0x0a || s[i] == 0x0d {
        seq![0x20u8] + code_value_from(s, i + 1)
    } else {
        hesc_byte(s[i]) + code_value_from(s, i + 1)
    }
}

/// Append an inline code value: line endings collapse to spaces, then the
/// text is escaped.
fn emit_inline_code(s: &[u8], out: &mut Vec<u8>)
    ensures
        final(out)@ == old(out)@ + code_value_from(s@, 0),
{
    let n = s.len();
    let mut i: usize = 0;
    while i < n
        invariant
            i <= n == s@.len(),
            out@ + code_value_from(s@, i as int) == old(out)@ + code_value_from(s@, 0),
        decreases n - i,
    {
        let ghost prev = out@;
        let b = s[i];
        if b == 0x0d && i + 1 < n && s[i + 1] == 0x0a {
            out.push(0x20);
            proof {
                assert(out@ + code_value_from(s@, i + 2) =~= prev + code_value_from(s@, i as int));
            }
            i += 2;
        } else if b == 0x0a || b == 0x0d {
            out.push(0x20);
            proof {
                assert(out@ + code_value_from(s@, i + 1) =~= prev + code_value_from(s@, i as int));
            }
            i += 1;
        } else {
            let one = crate::bytes::slice(s, i, i + 1);
            proof {
                assert(one@ =~= seq![b]);
                assert(seq![b].drop_last() =~= Seq::<u8>::empty());
                assert(seq![b].last() == b);
                assert(hesc(Seq::<u8>::empty()) == Seq::<u8>::empty());
                assert(hesc(seq![b]) =~= hesc_byte(b));
            }
            esc_text(one, out);
            proof {
                assert(out@ + code_value_from(s@, i + 1) =~= prev + code_value_from(s@, i as int));
            }
            i += 1;
        }
    }
    proof {
        assert(out@ =~= out@ + code_value_from(s@, n as int));
    }
}


// ---- definitions ------------------------------------------------------------

/// A link reference definition as the renderer uses it: identifier, URL and
/// title.
pub type DefEntry = (Vec<u8>, Vec<u8>, Option<Vec<u8>>);

/// An optional byte string as a plain value.
pub open spec fn opt_bytes(o: Option<Vec<u8>>) -> Option<Seq<u8>> {
    match o {
        Some(v) => Some(v@),
        None => None,
    }
}

/// Definitions as plain values.
pub open spec fn defs_view(d: Seq<DefEntry>) -> Seq<(Seq<u8>, Seq<u8>, Option<Seq<u8>>)> {
    d.map_values(|e: DefEntry| (e.0@, e.1@, opt_bytes(e.2)))
}

/// Every definition in the tree under `n`, in document order.
pub open spec fn defs_of(n: Mdast) -> Seq<(Seq<u8>, Seq<u8>, Option<Seq<u8>>)>
    decreases n, 0int,
{
    match n {
        Mdast::Positioned(_, b) => defs_of(*b),
        Mdast::Definition { identifier, url, title, .. } => seq![(identifier@, url@, opt_bytes(title))],
        Mdast::Root(c) => defs_seq(c@, 0),
        Mdast::Paragraph(c) => defs_seq(c@, 0),
        Mdast::Blockquote(c) => defs_seq(c@, 0),
        Mdast::Emphasis(c) => defs_seq(c@, 0),
        Mdast::Strong(c) => defs_seq(c@, 0),
        Mdast::Delete(c) => defs_seq(c@, 0),
        Mdast::Heading { children, .. } => defs_seq(children@, 0),
        Mdast::List { children, .. } => defs_seq(children@, 0),
        Mdast::ListItem { children, .. } => defs_seq(children@, 0),
        Mdast::Link { children, .. } => defs_seq(children@, 0),
        Mdast::LinkReference { children, .. } => defs_seq(children@, 0),
        Mdast::FootnoteDefinition { children, .. } => defs_seq(children@, 0),
        _ => Seq::empty(),
    }
}

/// The definitions under `cs[k..]`, in order.
pub open spec fn defs_seq(cs: Seq<Mdast>, k: int) -> Seq<(Seq<u8>, Seq<u8>, Option<Seq<u8>>)>
    decreases cs, cs.len() - k,
{
    if k < 0 || k >= cs.len() {
        Seq::empty()
    } else {
        defs_of(cs[k]) + defs_seq(cs, k + 1)
    }
}

/// The URL and title of the first definition of `id` from `k` on.
pub open spec fn def_lookup(d: Seq<(Seq<u8>, Seq<u8>, Option<Seq<u8>>)>, id: Seq<u8>, k: int) -> Option<
    (Seq<u8>, Option<Seq<u8>>),
>
    decreases d.len() - k,
{
    if k < 0 || k >= d.len() {
        None
    } else if d[k].0 == id {
        Some((d[k].1, d[k].2))
    } else {
        def_lookup(d, id, k + 1)
    }
}

fn bytes_eq(a: &[u8], b: &[u8]) -> (r: bool)
    ensures
        r == (a@ == b@),
{
    if a.len() != b.len() {
        return false;
    }
    let mut k: usize = 0;
    while k < a.len()
        invariant
            a@.len() == b@.len(),
            k <= a@.len(),
            forall|j: int| 0 <= j < k ==> a@[j] == b@[j],
        decreases a.len() - k,
    {
        if a[k] != b[k] {
            return false;
        }
        k += 1;
    }
    assert(a@ =~= b@);
    true
}

fn opt_to_vec(o: &Option<Vec<u8>>) -> (r: Option<Vec<u8>>)
    ensures
        opt_bytes(r) == opt_bytes(*o),
{
    match o {
        Some(v) => Some(to_vec(v.as_slice())),
        None => None,
    }
}

/// Append every definition under `n` to `defs`, in document order.
fn collect_definitions(n: &Mdast, defs: &mut Vec<DefEntry>)
    ensures
        defs_view(final(defs)@) == defs_view(old(defs)@) + defs_of(*n),
    decreases n, 0int,
{
    match n {
        Mdast::Positioned(_, b) => collect_definitions(b, defs),
        Mdast::Definition { identifier, url, title, .. } => {
            let e = (to_vec(identifier.as_slice()), to_vec(url.as_slice()), opt_to_vec(title));
            let ghost before = defs@;
            defs.push(e);
            proof {
                assert(defs_view(defs@) =~= defs_view(before) + defs_of(*n));
            }
        },
        Mdast::Root(c) => collect_seq(c, defs),
        Mdast::Paragraph(c) => collect_seq(c, defs),
        Mdast::Blockquote(c) => collect_seq(c, defs),
        Mdast::Emphasis(c) => collect_seq(c, defs),
        Mdast::Strong(c) => collect_seq(c, defs),
        Mdast::Delete(c) => collect_seq(c, defs),
        Mdast::Heading { children, .. } => collect_seq(children, defs),
        Mdast::List { children, .. } => collect_seq(children, defs),
        Mdast::ListItem { children, .. } => collect_seq(children, defs),
        Mdast::Link { children, .. } => collect_seq(children, defs),
        Mdast::LinkReference { children, .. } => collect_seq(children, defs),
        Mdast::FootnoteDefinition { children, .. } => collect_seq(children, defs),
        _ => {
            proof {
                assert(defs_view(defs@) =~= defs_view(old(defs)@) + defs_of(*n));
            }
        },
    }
}

fn collect_seq(cs: &Vec<Mdast>, defs: &mut Vec<DefEntry>)
    ensures
        defs_view(final(defs)@) == defs_view(old(defs)@) + defs_seq(cs@, 0),
    decreases cs@, cs@.len() + 1,
{
    let mut k: usize = 0;
    while k < cs.len()
        invariant
            k <= cs@.len(),
            defs_view(defs@) + defs_seq(cs@, k as int) == defs_view(old(defs)@) + defs_seq(cs@, 0),
        decreases cs.len() - k,
    {
        let ghost before = defs_view(defs@);
        collect_definitions(&cs[k], defs);
        proof {
            assert(defs_view(defs@) + defs_seq(cs@, k + 1) =~= before + defs_seq(cs@, k as int));
        }
        k += 1;
    }
    proof {
        assert(defs_view(defs@) =~= defs_view(defs@) + defs_seq(cs@, k as int));
    }
}

/// The URL and title defined first for `id`.
fn lookup_def(defs: &Vec<DefEntry>, id: &[u8]) -> (r: Option<(Vec<u8>, Option<Vec<u8>>)>)
    ensures
        match r {
            Some((u, t)) => def_lookup(defs_view(defs@), id@, 0) == Some((u@, opt_bytes(t))),
            None => def_lookup(defs_view(defs@), id@, 0) is None,
        },
{
    let mut k: usize = 0;
    while k < defs.len()
        invariant
            k <= defs@.len(),
            def_lookup(defs_view(defs@), id@, k as int) == def_lookup(defs_view(defs@), id@, 0),
        decreases defs.len() - k,
    {
        proof {
            assert(defs_view(defs@)[k as int] == (defs@[k as int].0@, defs@[k as int].1@, opt_bytes(defs@[k as int].2)));
        }
        if bytes_eq(defs[k].0.as_slice(), id) {
            return Some((to_vec(defs[k].1.as_slice()), opt_to_vec(&defs[k].2)));
        }
        k += 1;
    }
    None
}


// ---- rendering back to HTML ---------------------------------------------------

/// Definitions as the renderer consults them.
pub type Defs = Seq<(Seq<u8>, Seq<u8>, Option<Seq<u8>>)>;

/// The node under any position wrappers.
pub open spec fn unwrap_spec(n: Mdast) -> Mdast
    decreases n,
{
    match n {
        Mdast::Positioned(_, b) => unwrap_spec(*b),
        _ => n,
    }
}

/// Nodes that render to nothing: raw HTML (dropped by default), definitions
/// and frontmatter.
pub open spec fn renders_empty(n: Mdast) -> bool {
    match unwrap_spec(n) {
        Mdast::Html(_) | Mdast::Definition { .. } | Mdast::Yaml(_) | Mdast::Toml(_) => true,
        _ => false,
    }
}

/// The node is a paragraph (under any position wrappers).
pub open spec fn is_para(n: Mdast) -> bool {
    unwrap_spec(n) is Paragraph
}

/// Some node of `cs[k..]` renders to something.
pub open spec fn any_rendered(cs: Seq<Mdast>, k: int) -> bool {
    exists|j: int| k <= j < cs.len() && 0 <= j && !renders_empty(#[trigger] cs[j])
}

/// The line ending that closes a list item's children `cs[k..]`, where
/// `last` tells whether the last rendered child so far was a paragraph: one
/// when a child was rendered and the item is loose or the last rendered child
/// is not a paragraph.
pub open spec fn item_tail(cs: Seq<Mdast>, k: int, loose: bool, last: Option<bool>) -> Seq<u8>
    decreases cs.len() - k,
{
    if k < 0 || k >= cs.len() {
        match last {
            Some(p) => if loose || !p {
                seq![0x0au8]
            } else {
                Seq::empty()
            },
            None => Seq::empty(),
        }
    } else if renders_empty(cs[k]) {
        item_tail(cs, k + 1, loose, last)
    } else {
        item_tail(cs, k + 1, loose, Some(is_para(cs[k])))
    }
}

/// Some item of `cs[k..]` is a spread list item.
pub open spec fn any_spread_item(cs: Seq<Mdast>) -> bool {
    exists|j: int| 0 <= j < cs.len() && (unwrap_spec(#[trigger] cs[j]) matches Mdast::ListItem { spread, .. } && spread)
}

/// ` title="…"` for a present title.
pub open spec fn title_attr(t: Option<Seq<u8>>) -> Seq<u8> {
    match t {
        Some(v) => " title=\"".spec_bytes() + hattr(v) + seq![0x22u8],
        None => Seq::empty(),
    }
}

/// The first index from `k` on where a code language word ends.
pub open spec fn word_stop(l: Seq<u8>, k: int) -> int
    decreases l.len() - k,
{
    if 0 <= k < l.len() && l[k] != 0x20 && l[k] != 0x09 && l[k] != 0x0a && l[k] != 0x0d && l[k] != 0x0c {
        word_stop(l, k + 1)
    } else {
        k
    }
}

/// ` class="language-…"` from the first word of a code block's language.
pub open spec fn lang_attr(lang: Option<Seq<u8>>) -> Seq<u8> {
    match lang {
        Some(l) => if word_stop(l, 0) > 0 {
            " class=\"language-".spec_bytes() + hattr(l.subrange(0, word_stop(l, 0))) + seq![0x22u8]
        } else {
            Seq::empty()
        },
        None => Seq::empty(),
    }
}

/// The closing part of a reference written as `kind`: `]`, `][]` or
/// `][label]` (the identifier when the label is empty).
pub open spec fn ref_suffix(label: Seq<u8>, id: Seq<u8>, kind: RefKind) -> Seq<u8> {
    match kind {
        RefKind::Shortcut => seq![0x5du8],
        RefKind::Collapsed => seq![0x5du8, 0x5b, 0x5d],
        RefKind::Full => seq![0x5du8, 0x5b] + (if label.len() == 0 {
            id
        } else {
            label
        }) + seq![0x5du8],
    }
}

/// `<a href="…" title="…">` for a link target.
pub open spec fn a_open(url: Seq<u8>, title: Option<Seq<u8>>) -> Seq<u8> {
    "<a href=\"".spec_bytes() + uri_from(url, 0) + seq![0x22u8] + title_attr(title) + seq![0x3eu8]
}

/// `<img …>` for an image target.
pub open spec fn img_tag(url: Seq<u8>, alt: Seq<u8>, title: Option<Seq<u8>>) -> Seq<u8> {
    "<img src=\"".spec_bytes() + uri_from(url, 0) + "\" alt=\"".spec_bytes() + hattr(alt) + seq![0x22u8]
        + title_attr(title) + seq![0x3eu8]
}

/// The opening tag of a list.
pub open spec fn list_open(ordered: bool, start: Option<u64>) -> Seq<u8> {
    if ordered {
        match start {
            Some(n) => if n != 1 {
                "<ol start=\"".spec_bytes() + decimal(n as nat) + "\">".spec_bytes()
            } else {
                "<ol>".spec_bytes()
            },
            None => "<ol>".spec_bytes(),
        }
    } else {
        "<ul>".spec_bytes()
    }
}

/// What node `n` renders to, given the document's definitions `d`.
pub open spec fn html_of(n: Mdast, d: Defs) -> Seq<u8>
    decreases n, 0int,
{
    match n {
        Mdast::Positioned(_, b) => html_of(*b, d),
        Mdast::Root(c) => wrapped_seq(c@, 0, false, d),
        Mdast::Paragraph(c) => "<p>".spec_bytes() + inline_seq(c@, 0, d) + "</p>".spec_bytes(),
        Mdast::Heading { depth, children } => "<h".spec_bytes() + decimal(depth as nat) + seq![0x3eu8]
            + inline_seq(children@, 0, d) + "</h".spec_bytes() + decimal(depth as nat) + seq![0x3eu8],
        Mdast::Blockquote(c) => "<blockquote>\n".spec_bytes() + wrapped_seq(c@, 0, false, d) + (if any_rendered(
            c@,
            0,
        ) {
            seq![0x0au8]
        } else {
            Seq::empty()
        }) + "</blockquote>".spec_bytes(),
        Mdast::List { ordered, start, spread, children } => list_open(ordered, start) + seq![0x0au8] + items_seq(
            children@,
            0,
            spread || any_spread_item(children@),
            d,
        ) + seq![0x0au8] + (if ordered {
            "</ol>".spec_bytes()
        } else {
            "</ul>".spec_bytes()
        }),
        Mdast::ListItem { children, .. } => item_inner(children@, true, d),
        Mdast::ThematicBreak => "<hr>".spec_bytes(),
        Mdast::Code { lang, value, .. } => "<pre><code".spec_bytes() + lang_attr(opt_bytes(lang)) + seq![0x3eu8]
            + (if value@.len() > 0 {
            hesc(value@) + seq![0x0au8]
        } else {
            Seq::empty()
        }) + "</code></pre>".spec_bytes(),
        Mdast::Text(t) => trimmed_from(t@, 0, true),
        Mdast::Emphasis(c) => "<em>".spec_bytes() + inline_seq(c@, 0, d) + "</em>".spec_bytes(),
        Mdast::Strong(c) => "<strong>".spec_bytes() + inline_seq(c@, 0, d) + "</strong>".spec_bytes(),
        Mdast::Delete(c) => "<del>".spec_bytes() + inline_seq(c@, 0, d) + "</del>".spec_bytes(),
        Mdast::InlineCode(t) => "<code>".spec_bytes() + code_value_from(t@, 0) + "</code>".spec_bytes(),
        Mdast::Break => "<br>\n".spec_bytes(),
        Mdast::Link { url, title, children } => a_open(url@, opt_bytes(title)) + inline_seq(children@, 0, d)
            + "</a>".spec_bytes(),
        Mdast::Image { url, title, alt } => img_tag(url@, alt@, opt_bytes(title)),
        Mdast::LinkReference { identifier, label, reftype, children } => match def_lookup(d, identifier@, 0) {
            Some((u, t)) => a_open(u, t) + inline_seq(children@, 0, d) + "</a>".spec_bytes(),
            None => hesc(seq![0x5bu8]) + inline_seq(children@, 0, d) + hesc(ref_suffix(label@, identifier@, reftype)),
        },
        Mdast::ImageReference { identifier, label, reftype, alt } => match def_lookup(d, identifier@, 0) {
            Some((u, t)) => img_tag(u, alt@, t),
            None => hesc(seq![0x21u8, 0x5b] + alt@ + ref_suffix(label@, identifier@, reftype)),
        },
        Mdast::FootnoteDefinition { children, .. } => wrapped_seq(children@, 0, false, d),
        Mdast::DefList(c) => "<dl>\n".spec_bytes() + dl_seq(c@, 0, d) + "</dl>".spec_bytes(),
        Mdast::DefListTerm(c) => "<dt>".spec_bytes() + inline_seq(c@, 0, d) + "</dt>".spec_bytes(),
        Mdast::DefListDescription { children, .. } => "<dd>".spec_bytes() + inline_seq(children@, 0, d)
            + "</dd>".spec_bytes(),
        Mdast::ContainerDirective { children, .. } => inline_seq(children@, 0, d),
        Mdast::LeafDirective { children, .. } => inline_seq(children@, 0, d),
        Mdast::DirectiveLabel(c) => inline_seq(c@, 0, d),
        Mdast::TextDirective { children, .. } => inline_seq(children@, 0, d),
        _ => Seq::empty(),
    }
}

/// The nodes `cs[k..]` rendered one after another.
pub open spec fn inline_seq(cs: Seq<Mdast>, k: int, d: Defs) -> Seq<u8>
    decreases cs, cs.len() - k,
{
    if k < 0 || k >= cs.len() {
        Seq::empty()
    } else {
        html_of(cs[k], d) + inline_seq(cs, k + 1, d)
    }
}

/// The nodes `cs[k..]` that render to something, separated by line endings
/// (one before each when `any`, that is when one came earlier).
pub open spec fn wrapped_seq(cs: Seq<Mdast>, k: int, any: bool, d: Defs) -> Seq<u8>
    decreases cs, cs.len() - k,
{
    if k < 0 || k >= cs.len() {
        Seq::empty()
    } else if renders_empty(cs[k]) {
        wrapped_seq(cs, k + 1, any, d)
    } else {
        (if any {
            seq![0x0au8]
        } else {
            Seq::empty()
        }) + html_of(cs[k], d) + wrapped_seq(cs, k + 1, true, d)
    }
}

/// Definition list children, each followed by a line ending.
pub open spec fn dl_seq(cs: Seq<Mdast>, k: int, d: Defs) -> Seq<u8>
    decreases cs, cs.len() - k,
{
    if k < 0 || k >= cs.len() {
        Seq::empty()
    } else {
        html_of(cs[k], d) + seq![0x0au8] + dl_seq(cs, k + 1, d)
    }
}

/// List items `cs[k..]`, separated by line endings.
pub open spec fn items_seq(cs: Seq<Mdast>, k: int, loose: bool, d: Defs) -> Seq<u8>
    decreases cs, cs.len() - k,
{
    if k < 0 || k >= cs.len() {
        Seq::empty()
    } else {
        (if k > 0 {
            seq![0x0au8]
        } else {
            Seq::empty()
        }) + item_html(cs[k], loose, d) + items_seq(cs, k + 1, loose, d)
    }
}

/// A list's child: a list item rendered with the list's looseness; any
/// other node as itself.
pub open spec fn item_html(n: Mdast, loose: bool, d: Defs) -> Seq<u8>
    decreases n, 1int,
{
    match n {
        Mdast::Positioned(_, b) => item_html(*b, loose, d),
        Mdast::ListItem { children, .. } => item_inner(children@, loose, d),
        _ => html_of(n, d),
    }
}

/// `<li>…</li>` around the item's children: a line ending before each child
/// but a tight leading paragraph, a tight paragraph unwrapped to its
/// content, and a final line ending unless the last child is a tight
/// paragraph.
pub open spec fn item_inner(cs: Seq<Mdast>, loose: bool, d: Defs) -> Seq<u8>
    decreases cs, cs.len() + 1,
{
    "<li>".spec_bytes() + item_seq(cs, 0, loose, false, d) + item_tail(cs, 0, loose, None) + "</li>".spec_bytes()
}

/// The children `cs[k..]` of a list item (`seen`: one was rendered before).
pub open spec fn item_seq(cs: Seq<Mdast>, k: int, loose: bool, seen: bool, d: Defs) -> Seq<u8>
    decreases cs, cs.len() - k,
{
    if k < 0 || k >= cs.len() {
        Seq::empty()
    } else if renders_empty(cs[k]) {
        item_seq(cs, k + 1, loose, seen, d)
    } else {
        let p = is_para(cs[k]);
        (if loose || seen || !p {
            seq![0x0au8]
        } else {
            Seq::empty()
        }) + (if p && !loose {
            para_inline(cs[k], d)
        } else {
            html_of(cs[k], d)
        }) + item_seq(cs, k + 1, loose, true, d)
    }
}

/// A paragraph's content without its tags.
pub open spec fn para_inline(n: Mdast, d: Defs) -> Seq<u8>
    decreases n, 0int,
{
    match n {
        Mdast::Positioned(_, b) => para_inline(*b, d),
        Mdast::Paragraph(c) => inline_seq(c@, 0, d),
        _ => Seq::empty(),
    }
}

/// What `render_mdast` gives for `n`: the tree rendered with its own
/// definitions, then a line ending.
pub open spec fn mdast_html(n: Mdast) -> Seq<u8> {
    html_of(n, defs_of(n)) + seq![0x0au8]
}


/// The node under any position wrappers.
fn unwrap_pos(n: &Mdast) -> (r: &Mdast)
    ensures
        *r == unwrap_spec(*n),
    decreases n,
{
    match n {
        Mdast::Positioned(_, b) => unwrap_pos(b),
        _ => n,
    }
}

fn renders_empty_exec(n: &Mdast) -> (r: bool)
    ensures
        r == renders_empty(*n),
{
    match unwrap_pos(n) {
        Mdast::Html(_) | Mdast::Definition { .. } | Mdast::Yaml(_) | Mdast::Toml(_) => true,
        _ => false,
    }
}

fn is_para_exec(n: &Mdast) -> (r: bool)
    ensures
        r == is_para(*n),
{
    match unwrap_pos(n) {
        Mdast::Paragraph(_) => true,
        _ => false,
    }
}

fn any_spread_exec(cs: &Vec<Mdast>) -> (r: bool)
    ensures
        r == any_spread_item(cs@),
{
    let mut k: usize = 0;
    while k < cs.len()
        invariant
            k <= cs@.len(),
            forall|j: int| 0 <= j < k ==> !(unwrap_spec(#[trigger] cs@[j]) matches Mdast::ListItem { spread, .. } && spread),
        decreases cs.len() - k,
    {
        match unwrap_pos(&cs[k]) {
            Mdast::ListItem { spread, .. } => {
                if *spread {
                    return true;
                }
            },
            _ => {},
        }
        k += 1;
    }
    false
}

fn push_title(title: &Option<Vec<u8>>, out: &mut Vec<u8>)
    ensures
        final(out)@ == old(out)@ + title_attr(opt_bytes(*title)),
{
    match title {
        Some(t) => {
            append_str(out, " title=\"");
            esc_attr(t.as_slice(), out);
            out.push(0x22);
        },
        None => {},
    }
}

fn push_a_open(url: &[u8], title: &Option<Vec<u8>>, out: &mut Vec<u8>)
    ensures
        final(out)@ == old(out)@ + a_open(url@, opt_bytes(*title)),
{
    append_str(out, "<a href=\"");
    emit_uri_attr(url, out);
    out.push(0x22);
    push_title(title, out);
    out.push(0x3e);
    proof {
        assert(out@ =~= old(out)@ + a_open(url@, opt_bytes(*title)));
    }
}

fn push_img(url: &[u8], alt: &[u8], title: &Option<Vec<u8>>, out: &mut Vec<u8>)
    ensures
        final(out)@ == old(out)@ + img_tag(url@, alt@, opt_bytes(*title)),
{
    append_str(out, "<img src=\"");
    emit_uri_attr(url, out);
    append_str(out, "\" alt=\"");
    esc_attr(alt, out);
    out.push(0x22);
    push_title(title, out);
    out.push(0x3e);
    proof {
        assert(out@ =~= old(out)@ + img_tag(url@, alt@, opt_bytes(*title)));
    }
}

fn push_suffix(label: &[u8], id: &[u8], kind: RefKind, out: &mut Vec<u8>)
    ensures
        final(out)@ == old(out)@ + ref_suffix(label@, id@, kind),
{
    out.push(0x5d);
    match kind {
        RefKind::Shortcut => {},
        RefKind::Collapsed => {
            out.push(0x5b);
            out.push(0x5d);
        },
        RefKind::Full => {
            out.push(0x5b);
            if label.len() == 0 {
                append(out, id);
            } else {
                append(out, label);
            }
            out.push(0x5d);
        },
    }
    proof {
        assert(out@ =~= old(out)@ + ref_suffix(label@, id@, kind));
    }
}

fn push_lang(lang: &Option<Vec<u8>>, out: &mut Vec<u8>)
    ensures
        final(out)@ == old(out)@ + lang_attr(opt_bytes(*lang)),
{
    match lang {
        Some(l) => {
            let mut k: usize = 0;
            while k < l.len() && l[k] != 0x20 && l[k] != 0x09 && l[k] != 0x0a && l[k] != 0x0d && l[k] != 0x0c
                invariant
                    k <= l@.len(),
                    word_stop(l@, k as int) == word_stop(l@, 0),
                decreases l.len() - k,
            {
                k += 1;
            }
            if k > 0 {
                append_str(out, " class=\"language-");
                let w = crate::bytes::slice(l.as_slice(), 0, k);
                esc_attr(w, out);
                out.push(0x22);
                proof {
                    assert(out@ =~= old(out)@ + lang_attr(opt_bytes(*lang)));
                }
            }
        },
        None => {},
    }
}

/// Append what node `n` renders to with definitions `defs`.
fn emit(n: &Mdast, out: &mut Vec<u8>, defs: &Vec<DefEntry>)
    ensures
        final(out)@ == old(out)@ + html_of(*n, defs_view(defs@)),
    decreases n, 1int,
{
    match n {
        Mdast::Positioned(_, b) => emit(b, out, defs),
        Mdast::Blockquote { .. } => emit_blockquote(n, out, defs),
        Mdast::Break { .. } => emit_break(n, out, defs),
        Mdast::Code { .. } => emit_code(n, out, defs),
        Mdast::ContainerDirective { .. } => emit_container_directive(n, out, defs),
        Mdast::DefList { .. } => emit_def_list(n, out, defs),
        Mdast::DefListDescription { .. } => emit_def_list_description(n, out, defs),
        Mdast::DefListTerm { .. } => emit_def_list_term(n, out, defs),
        Mdast::Delete { .. } => emit_delete(n, out, defs),
        Mdast::DirectiveLabel { .. } => emit_directive_label(n, out, defs),
        Mdast::Emphasis { .. } => emit_emphasis(n, out, defs),
        Mdast::FootnoteDefinition { .. } => emit_footnote_definition(n, out, defs),
        Mdast::Heading { .. } => emit_heading(n, out, defs),
        Mdast::Image { .. } => emit_image(n, out, defs),
        Mdast::ImageReference { .. } => emit_image_reference(n, out, defs),
        Mdast::InlineCode { .. } => emit_inline_code_node(n, out, defs),
        Mdast::LeafDirective { .. } => emit_leaf_directive(n, out, defs),
        Mdast::Link { .. } => emit_link(n, out, defs),
        Mdast::LinkReference { .. } => emit_link_reference(n, out, defs),
        Mdast::List { .. } => emit_list(n, out, defs),
        Mdast::ListItem { .. } => emit_list_item(n, out, defs),
        Mdast::Paragraph { .. } => emit_paragraph(n, out, defs),
        Mdast::Root { .. } => emit_root(n, out, defs),
        Mdast::Strong { .. } => emit_strong(n, out, defs),
        Mdast::Text { .. } => emit_text(n, out, defs),
        Mdast::TextDirective { .. } => emit_text_directive(n, out, defs),
        Mdast::ThematicBreak { .. } => emit_thematic_break(n, out, defs),
        _ => {},
    }
}

#[verifier::rlimit(100)]
fn emit_blockquote(n: &Mdast, out: &mut Vec<u8>, defs: &Vec<DefEntry>)
    requires
        n is Blockquote,
    ensures
        final(out)@ == old(out)@ + html_of(*n, defs_view(defs@)),
    decreases n, 0int,
{
    let ghost d = defs_view(defs@);
    match n {
        Mdast::Blockquote(c) => {
            append_str(out, "<blockquote>\n");
            let any = emit_wrapped(c, out, defs);
            if any {
                out.push(0x0a);
            }
            append_str(out, "</blockquote>");
        },
        _ => {},
    }
    proof {
        assert(out@ =~= old(out)@ + html_of(*n, d));
    }
}

#[verifier::rlimit(100)]
fn emit_break(n: &Mdast, out: &mut Vec<u8>, defs: &Vec<DefEntry>)
    requires
        n is Break,
    ensures
        final(out)@ == old(out)@ + html_of(*n, defs_view(defs@)),
    decreases n, 0int,
{
    let ghost d = defs_view(defs@);
    match n {
        Mdast::Break => append_str(out, "<br>\n"),
        _ => {},
    }
    proof {
        assert(out@ =~= old(out)@ + html_of(*n, d));
    }
}

#[verifier::rlimit(100)]
fn emit_code(n: &Mdast, out: &mut Vec<u8>, defs: &Vec<DefEntry>)
    requires
        n is Code,
    ensures
        final(out)@ == old(out)@ + html_of(*n, defs_view(defs@)),
    decreases n, 0int,
{
    let ghost d = defs_view(defs@);
    match n {
        Mdast::Code { lang, value, .. } => {
            append_str(out, "<pre><code");
            push_lang(lang, out);
            out.push(0x3e);
            if value.len() > 0 {
                esc_text(value.as_slice(), out);
                out.push(0x0a);
            }
            append_str(out, "</code></pre>");
        },
        _ => {},
    }
    proof {
        assert(out@ =~= old(out)@ + html_of(*n, d));
    }
}

#[verifier::rlimit(100)]
fn emit_container_directive(n: &Mdast, out: &mut Vec<u8>, defs: &Vec<DefEntry>)
    requires
        n is ContainerDirective,
    ensures
        final(out)@ == old(out)@ + html_of(*n, defs_view(defs@)),
    decreases n, 0int,
{
    let ghost d = defs_view(defs@);
    match n {
        Mdast::ContainerDirective { children, .. } => emit_inline(children, out, defs),
        _ => {},
    }
    proof {
        assert(out@ =~= old(out)@ + html_of(*n, d));
    }
}

#[verifier::rlimit(100)]
fn emit_def_list(n: &Mdast, out: &mut Vec<u8>, defs: &Vec<DefEntry>)
    requires
        n is DefList,
    ensures
        final(out)@ == old(out)@ + html_of(*n, defs_view(defs@)),
    decreases n, 0int,
{
    let ghost d = defs_view(defs@);
    match n {
        Mdast::DefList(c) => {
            append_str(out, "<dl>\n");
            emit_dl(c, out, defs);
            append_str(out, "</dl>");
        },
        _ => {},
    }
    proof {
        assert(out@ =~= old(out)@ + html_of(*n, d));
    }
}

#[verifier::rlimit(100)]
fn emit_def_list_description(n: &Mdast, out: &mut Vec<u8>, defs: &Vec<DefEntry>)
    requires
        n is DefListDescription,
    ensures
        final(out)@ == old(out)@ + html_of(*n, defs_view(defs@)),
    decreases n, 0int,
{
    let ghost d = defs_view(defs@);
    match n {
        Mdast::DefListDescription { children, .. } => {
            append_str(out, "<dd>");
            emit_inline(children, out, defs);
            append_str(out, "</dd>");
        },
        _ => {},
    }
    proof {
        assert(out@ =~= old(out)@ + html_of(*n, d));
    }
}

#[verifier::rlimit(100)]
fn emit_def_list_term(n: &Mdast, out: &mut Vec<u8>, defs: &Vec<DefEntry>)
    requires
        n is DefListTerm,
    ensures
        final(out)@ == old(out)@ + html_of(*n, defs_view(defs@)),
    decreases n, 0int,
{
    let ghost d = defs_view(defs@);
    match n {
        Mdast::DefListTerm(c) => {
            append_str(out, "<dt>");
            emit_inline(c, out, defs);
            append_str(out, "</dt>");
        },
        _ => {},
    }
    proof {
        assert(out@ =~= old(out)@ + html_of(*n, d));
    }
}

#[verifier::rlimit(100)]
fn emit_delete(n: &Mdast, out: &mut Vec<u8>, defs: &Vec<DefEntry>)
    requires
        n is Delete,
    ensures
        final(out)@ == old(out)@ + html_of(*n, defs_view(defs@)),
    decreases n, 0int,
{
    let ghost d = defs_view(defs@);
    match n {
        Mdast::Delete(c) => {
            append_str(out, "<del>");
            emit_inline(c, out, defs);
            append_str(out, "</del>");
        },
        _ => {},
    }
    proof {
        assert(out@ =~= old(out)@ + html_of(*n, d));
    }
}

#[verifier::rlimit(100)]
fn emit_directive_label(n: &Mdast, out: &mut Vec<u8>, defs: &Vec<DefEntry>)
    requires
        n is DirectiveLabel,
    ensures
        final(out)@ == old(out)@ + html_of(*n, defs_view(defs@)),
    decreases n, 0int,
{
    let ghost d = defs_view(defs@);
    match n {
        Mdast::DirectiveLabel(c) => emit_inline(c, out, defs),
        _ => {},
    }
    proof {
        assert(out@ =~= old(out)@ + html_of(*n, d));
    }
}

#[verifier::rlimit(100)]
fn emit_emphasis(n: &Mdast, out: &mut Vec<u8>, defs: &Vec<DefEntry>)
    requires
        n is Emphasis,
    ensures
        final(out)@ == old(out)@ + html_of(*n, defs_view(defs@)),
    decreases n, 0int,
{
    let ghost d = defs_view(defs@);
    match n {
        Mdast::Emphasis(c) => {
            append_str(out, "<em>");
            emit_inline(c, out, defs);
            append_str(out, "</em>");
        },
        _ => {},
    }
    proof {
        assert(out@ =~= old(out)@ + html_of(*n, d));
    }
}

#[verifier::rlimit(100)]
fn emit_footnote_definition(n: &Mdast, out: &mut Vec<u8>, defs: &Vec<DefEntry>)
    requires
        n is FootnoteDefinition,
    ensures
        final(out)@ == old(out)@ + html_of(*n, defs_view(defs@)),
    decreases n, 0int,
{
    let ghost d = defs_view(defs@);
    match n {
        Mdast::FootnoteDefinition { children, .. } => {
            emit_wrapped(children, out, defs);
        },
        _ => {},
    }
    proof {
        assert(out@ =~= old(out)@ + html_of(*n, d));
    }
}

#[verifier::rlimit(100)]
fn emit_heading(n: &Mdast, out: &mut Vec<u8>, defs: &Vec<DefEntry>)
    requires
        n is Heading,
    ensures
        final(out)@ == old(out)@ + html_of(*n, defs_view(defs@)),
    decreases n, 0int,
{
    let ghost d = defs_view(defs@);
    match n {
        Mdast::Heading { depth, children } => {
            append_str(out, "<h");
            push_u64(out, *depth as u64);
            out.push(0x3e);
            emit_inline(children, out, defs);
            append_str(out, "</h");
            push_u64(out, *depth as u64);
            out.push(0x3e);
        },
        _ => {},
    }
    proof {
        assert(out@ =~= old(out)@ + html_of(*n, d));
    }
}

#[verifier::rlimit(100)]
fn emit_image(n: &Mdast, out: &mut Vec<u8>, defs: &Vec<DefEntry>)
    requires
        n is Image,
    ensures
        final(out)@ == old(out)@ + html_of(*n, defs_view(defs@)),
    decreases n, 0int,
{
    let ghost d = defs_view(defs@);
    match n {
        Mdast::Image { url, title, alt } => push_img(url.as_slice(), alt.as_slice(), title, out),
        _ => {},
    }
    proof {
        assert(out@ =~= old(out)@ + html_of(*n, d));
    }
}

#[verifier::rlimit(100)]
fn emit_image_reference(n: &Mdast, out: &mut Vec<u8>, defs: &Vec<DefEntry>)
    requires
        n is ImageReference,
    ensures
        final(out)@ == old(out)@ + html_of(*n, defs_view(defs@)),
    decreases n, 0int,
{
    let ghost d = defs_view(defs@);
    match n {
        Mdast::ImageReference { identifier, label, reftype, alt } => {
            match lookup_def(defs, identifier.as_slice()) {
                Some((u, t)) => push_img(u.as_slice(), alt.as_slice(), &t, out),
                None => {
                    let mut s: Vec<u8> = Vec::new();
                    s.push(0x21);
                    s.push(0x5b);
                    append(&mut s, alt.as_slice());
                    push_suffix(label.as_slice(), identifier.as_slice(), *reftype, &mut s);
                    proof {
                        assert(s@ =~= seq![0x21u8, 0x5b] + alt@ + ref_suffix(label@, identifier@, *reftype));
                    }
                    esc_text(s.as_slice(), out);
                },
            }
        },
        _ => {},
    }
    proof {
        assert(out@ =~= old(out)@ + html_of(*n, d));
    }
}

#[verifier::rlimit(100)]
fn emit_inline_code_node(n: &Mdast, out: &mut Vec<u8>, defs: &Vec<DefEntry>)
    requires
        n is InlineCode,
    ensures
        final(out)@ == old(out)@ + html_of(*n, defs_view(defs@)),
    decreases n, 0int,
{
    let ghost d = defs_view(defs@);
    match n {
        Mdast::InlineCode(t) => {
            append_str(out, "<code>");
            emit_inline_code(t.as_slice(), out);
            append_str(out, "</code>");
        },
        _ => {},
    }
    proof {
        assert(out@ =~= old(out)@ + html_of(*n, d));
    }
}

#[verifier::rlimit(100)]
fn emit_leaf_directive(n: &Mdast, out: &mut Vec<u8>, defs: &Vec<DefEntry>)
    requires
        n is LeafDirective,
    ensures
        final(out)@ == old(out)@ + html_of(*n, defs_view(defs@)),
    decreases n, 0int,
{
    let ghost d = defs_view(defs@);
    match n {
        Mdast::LeafDirective { children, .. } => emit_inline(children, out, defs),
        _ => {},
    }
    proof {
        assert(out@ =~= old(out)@ + html_of(*n, d));
    }
}

#[verifier::rlimit(100)]
fn emit_link(n: &Mdast, out: &mut Vec<u8>, defs: &Vec<DefEntry>)
    requires
        n is Link,
    ensures
        final(out)@ == old(out)@ + html_of(*n, defs_view(defs@)),
    decreases n, 0int,
{
    let ghost d = defs_view(defs@);
    match n {
        Mdast::Link { url, title, children } => {
            push_a_open(url.as_slice(), title, out);
            emit_inline(children, out, defs);
            append_str(out, "</a>");
        },
        _ => {},
    }
    proof {
        assert(out@ =~= old(out)@ + html_of(*n, d));
    }
}

#[verifier::rlimit(100)]
fn emit_link_reference(n: &Mdast, out: &mut Vec<u8>, defs: &Vec<DefEntry>)
    requires
        n is LinkReference,
    ensures
        final(out)@ == old(out)@ + html_of(*n, defs_view(defs@)),
    decreases n, 0int,
{
    let ghost d = defs_view(defs@);
    match n {
        Mdast::LinkReference { identifier, label, reftype, children } => {
            match lookup_def(defs, identifier.as_slice()) {
                Some((u, t)) => {
                    push_a_open(u.as_slice(), &t, out);
                    emit_inline(children, out, defs);
                    append_str(out, "</a>");
                },
                None => {
                    let mut lead: Vec<u8> = Vec::new();
                    lead.push(0x5b);
                    esc_text(lead.as_slice(), out);
                    emit_inline(children, out, defs);
                    let mut suffix: Vec<u8> = Vec::new();
                    push_suffix(label.as_slice(), identifier.as_slice(), *reftype, &mut suffix);
                    esc_text(suffix.as_slice(), out);
                    proof {
                        assert(lead@ =~= seq![0x5bu8]);
                        assert(suffix@ =~= ref_suffix(label@, identifier@, *reftype));
                    }
                },
            }
        },
        _ => {},
    }
    proof {
        assert(out@ =~= old(out)@ + html_of(*n, d));
    }
}

#[verifier::rlimit(100)]
fn emit_list(n: &Mdast, out: &mut Vec<u8>, defs: &Vec<DefEntry>)
    requires
        n is List,
    ensures
        final(out)@ == old(out)@ + html_of(*n, defs_view(defs@)),
    decreases n, 0int,
{
    let ghost d = defs_view(defs@);
    match n {
        Mdast::List { ordered, start, spread, children } => {
            if *ordered {
                match start {
                    Some(v) => {
                        if *v != 1 {
                            append_str(out, "<ol start=\"");
                            push_u64(out, *v);
                            append_str(out, "\">");
                        } else {
                            append_str(out, "<ol>");
                        }
                    },
                    None => append_str(out, "<ol>"),
                }
            } else {
                append_str(out, "<ul>");
            }
            let loose = *spread || any_spread_exec(children);
            out.push(0x0a);
            emit_items(children, loose, out, defs);
            out.push(0x0a);
            if *ordered {
                append_str(out, "</ol>");
            } else {
                append_str(out, "</ul>");
            }
        },
        _ => {},
    }
    proof {
        assert(out@ =~= old(out)@ + html_of(*n, d));
    }
}

#[verifier::rlimit(100)]
fn emit_list_item(n: &Mdast, out: &mut Vec<u8>, defs: &Vec<DefEntry>)
    requires
        n is ListItem,
    ensures
        final(out)@ == old(out)@ + html_of(*n, defs_view(defs@)),
    decreases n, 0int,
{
    let ghost d = defs_view(defs@);
    match n {
        Mdast::ListItem { children, .. } => emit_item_inner(children, true, out, defs),
        _ => {},
    }
    proof {
        assert(out@ =~= old(out)@ + html_of(*n, d));
    }
}

#[verifier::rlimit(100)]
fn emit_paragraph(n: &Mdast, out: &mut Vec<u8>, defs: &Vec<DefEntry>)
    requires
        n is Paragraph,
    ensures
        final(out)@ == old(out)@ + html_of(*n, defs_view(defs@)),
    decreases n, 0int,
{
    let ghost d = defs_view(defs@);
    match n {
        Mdast::Paragraph(c) => {
            append_str(out, "<p>");
            emit_inline(c, out, defs);
            append_str(out, "</p>");
        },
        _ => {},
    }
    proof {
        assert(out@ =~= old(out)@ + html_of(*n, d));
    }
}

#[verifier::rlimit(100)]
fn emit_root(n: &Mdast, out: &mut Vec<u8>, defs: &Vec<DefEntry>)
    requires
        n is Root,
    ensures
        final(out)@ == old(out)@ + html_of(*n, defs_view(defs@)),
    decreases n, 0int,
{
    let ghost d = defs_view(defs@);
    match n {
        Mdast::Root(c) => {
            emit_wrapped(c, out, defs);
        },
        _ => {},
    }
    proof {
        assert(out@ =~= old(out)@ + html_of(*n, d));
    }
}

#[verifier::rlimit(100)]
fn emit_strong(n: &Mdast, out: &mut Vec<u8>, defs: &Vec<DefEntry>)
    requires
        n is Strong,
    ensures
        final(out)@ == old(out)@ + html_of(*n, defs_view(defs@)),
    decreases n, 0int,
{
    let ghost d = defs_view(defs@);
    match n {
        Mdast::Strong(c) => {
            append_str(out, "<strong>");
            emit_inline(c, out, defs);
            append_str(out, "</strong>");
        },
        _ => {},
    }
    proof {
        assert(out@ =~= old(out)@ + html_of(*n, d));
    }
}

#[verifier::rlimit(100)]
fn emit_text(n: &Mdast, out: &mut Vec<u8>, defs: &Vec<DefEntry>)
    requires
        n is Text,
    ensures
        final(out)@ == old(out)@ + html_of(*n, defs_view(defs@)),
    decreases n, 0int,
{
    let ghost d = defs_view(defs@);
    match n {
        Mdast::Text(t) => emit_text_trimmed(t.as_slice(), out),
        _ => {},
    }
    proof {
        assert(out@ =~= old(out)@ + html_of(*n, d));
    }
}

#[verifier::rlimit(100)]
fn emit_text_directive(n: &Mdast, out: &mut Vec<u8>, defs: &Vec<DefEntry>)
    requires
        n is TextDirective,
    ensures
        final(out)@ == old(out)@ + html_of(*n, defs_view(defs@)),
    decreases n, 0int,
{
    let ghost d = defs_view(defs@);
    match n {
        Mdast::TextDirective { children, .. } => emit_inline(children, out, defs),
        _ => {},
    }
    proof {
        assert(out@ =~= old(out)@ + html_of(*n, d));
    }
}

#[verifier::rlimit(100)]
fn emit_thematic_break(n: &Mdast, out: &mut Vec<u8>, defs: &Vec<DefEntry>)
    requires
        n is ThematicBreak,
    ensures
        final(out)@ == old(out)@ + html_of(*n, defs_view(defs@)),
    decreases n, 0int,
{
    let ghost d = defs_view(defs@);
    match n {
        Mdast::ThematicBreak => append_str(out, "<hr>"),
        _ => {},
    }
    proof {
        assert(out@ =~= old(out)@ + html_of(*n, d));
    }
}








/// Append the nodes `cs` one after another.
fn emit_inline(cs: &Vec<Mdast>, out: &mut Vec<u8>, defs: &Vec<DefEntry>)
    ensures
        final(out)@ == old(out)@ + inline_seq(cs@, 0, defs_view(defs@)),
    decreases cs@, 0int,
{
    let ghost d = defs_view(defs@);
    let mut k: usize = 0;
    while k < cs.len()
        invariant
            k <= cs@.len(),
            d == defs_view(defs@),
            out@ + inline_seq(cs@, k as int, d) == old(out)@ + inline_seq(cs@, 0, d),
        decreases cs.len() - k,
    {
        let ghost prev = out@;
        emit(&cs[k], out, defs);
        proof {
            assert(out@ + inline_seq(cs@, k + 1, d) =~= prev + inline_seq(cs@, k as int, d));
        }
        k += 1;
    }
    proof {
        assert(out@ =~= out@ + inline_seq(cs@, k as int, d));
    }
}

/// Append the rendered nodes of `cs` separated by line endings; whether any
/// rendered.
fn emit_wrapped(cs: &Vec<Mdast>, out: &mut Vec<u8>, defs: &Vec<DefEntry>) -> (any: bool)
    ensures
        final(out)@ == old(out)@ + wrapped_seq(cs@, 0, false, defs_view(defs@)),
        any == any_rendered(cs@, 0),
    decreases cs@, 0int,
{
    let ghost d = defs_view(defs@);
    let mut any = false;
    let mut k: usize = 0;
    while k < cs.len()
        invariant
            k <= cs@.len(),
            d == defs_view(defs@),
            out@ + wrapped_seq(cs@, k as int, any, d) == old(out)@ + wrapped_seq(cs@, 0, false, d),
            any == exists|j: int| 0 <= j < k && !renders_empty(#[trigger] cs@[j]),
        decreases cs.len() - k,
    {
        let ghost prev = out@;
        let ghost prev_any = any;
        if renders_empty_exec(&cs[k]) {
        } else {
            if any {
                out.push(0x0a);
            }
            emit(&cs[k], out, defs);
            any = true;
        }
        proof {
            assert(out@ + wrapped_seq(cs@, k + 1, any, d) =~= prev + wrapped_seq(cs@, k as int, prev_any, d));
            if !renders_empty(cs@[k as int]) {
                assert(exists|j: int| 0 <= j < k + 1 && !renders_empty(#[trigger] cs@[j]));
            }
        }
        k += 1;
    }
    proof {
        assert(out@ =~= out@ + wrapped_seq(cs@, k as int, any, d));
    }
    any
}

/// Append definition list children, each followed by a line ending.
fn emit_dl(cs: &Vec<Mdast>, out: &mut Vec<u8>, defs: &Vec<DefEntry>)
    ensures
        final(out)@ == old(out)@ + dl_seq(cs@, 0, defs_view(defs@)),
    decreases cs@, 0int,
{
    let ghost d = defs_view(defs@);
    let mut k: usize = 0;
    while k < cs.len()
        invariant
            k <= cs@.len(),
            d == defs_view(defs@),
            out@ + dl_seq(cs@, k as int, d) == old(out)@ + dl_seq(cs@, 0, d),
        decreases cs.len() - k,
    {
        let ghost prev = out@;
        emit(&cs[k], out, defs);
        out.push(0x0a);
        proof {
            assert(out@ + dl_seq(cs@, k + 1, d) =~= prev + dl_seq(cs@, k as int, d));
        }
        k += 1;
    }
    proof {
        assert(out@ =~= out@ + dl_seq(cs@, k as int, d));
    }
}

/// Append a list's items separated by line endings.
fn emit_items(cs: &Vec<Mdast>, loose: bool, out: &mut Vec<u8>, defs: &Vec<DefEntry>)
    ensures
        final(out)@ == old(out)@ + items_seq(cs@, 0, loose, defs_view(defs@)),
    decreases cs@, 0int,
{
    let ghost d = defs_view(defs@);
    let mut k: usize = 0;
    while k < cs.len()
        invariant
            k <= cs@.len(),
            d == defs_view(defs@),
            out@ + items_seq(cs@, k as int, loose, d) == old(out)@ + items_seq(cs@, 0, loose, d),
        decreases cs.len() - k,
    {
        let ghost prev = out@;
        if k > 0 {
            out.push(0x0a);
        }
        emit_item(&cs[k], loose, out, defs);
        proof {
            assert(out@ + items_seq(cs@, k + 1, loose, d) =~= prev + items_seq(cs@, k as int, loose, d));
        }
        k += 1;
    }
    proof {
        assert(out@ =~= out@ + items_seq(cs@, k as int, loose, d));
    }
}

/// Append one child of a list.
fn emit_item(n: &Mdast, loose: bool, out: &mut Vec<u8>, defs: &Vec<DefEntry>)
    ensures
        final(out)@ == old(out)@ + item_html(*n, loose, defs_view(defs@)),
    decreases n, 2int,
{
    match n {
        Mdast::Positioned(_, b) => emit_item(b, loose, out, defs),
        Mdast::ListItem { children, .. } => emit_item_inner(children, loose, out, defs),
        _ => emit(n, out, defs),
    }
}

/// Append a paragraph's content without its tags.
fn emit_para_inline(n: &Mdast, out: &mut Vec<u8>, defs: &Vec<DefEntry>)
    ensures
        final(out)@ == old(out)@ + para_inline(*n, defs_view(defs@)),
    decreases n, 0int,
{
    match n {
        Mdast::Positioned(_, b) => emit_para_inline(b, out, defs),
        Mdast::Paragraph(c) => emit_inline(c, out, defs),
        _ => {
            proof {
                assert(out@ =~= old(out)@ + para_inline(*n, defs_view(defs@)));
            }
        },
    }
}

/// Append `<li>…</li>` for a list item's children.
fn emit_item_inner(cs: &Vec<Mdast>, loose: bool, out: &mut Vec<u8>, defs: &Vec<DefEntry>)
    ensures
        final(out)@ == old(out)@ + item_inner(cs@, loose, defs_view(defs@)),
    decreases cs@, 0int,
{
    let ghost d = defs_view(defs@);
    append_str(out, "<li>");
    let ghost start = out@;
    let mut seen = false;
    let mut last: Option<bool> = None;
    let mut k: usize = 0;
    while k < cs.len()
        invariant
            k <= cs@.len(),
            d == defs_view(defs@),
            out@ + item_seq(cs@, k as int, loose, seen, d) == start + item_seq(cs@, 0, loose, false, d),
            item_tail(cs@, k as int, loose, last) == item_tail(cs@, 0, loose, None),
            seen == (last is Some),
        decreases cs.len() - k,
    {
        let ghost prev = out@;
        let ghost prev_seen = seen;
        if !renders_empty_exec(&cs[k]) {
            let p = is_para_exec(&cs[k]);
            if loose || seen || !p {
                out.push(0x0a);
            }
            if p && !loose {
                emit_para_inline(&cs[k], out, defs);
            } else {
                emit(&cs[k], out, defs);
            }
            seen = true;
            last = Some(p);
        }
        proof {
            assert(out@ + item_seq(cs@, k + 1, loose, seen, d) =~= prev + item_seq(cs@, k as int, loose, prev_seen, d));
        }
        k += 1;
    }
    let ghost body = out@;
    match last {
        Some(p) => {
            if loose || !p {
                out.push(0x0a);
            }
        },
        None => {},
    }
    append_str(out, "</li>");
    proof {
        assert(out@ =~= old(out)@ + item_inner(cs@, loose, d));
    }
}

/// Render an mdast tree to HTML bytes as `mdast-util-to-hast` and
/// `hast-util-to-html` do by default, with a final line ending. Link and
/// image references resolve against the tree's own definitions (the first
/// of each identifier wins); raw HTML is dropped.
pub fn render_mdast_bytes(node: &Mdast, out: &mut Vec<u8>)
    ensures
        final(out)@ == old(out)@ + mdast_html(*node),
{
    let mut defs: Vec<DefEntry> = Vec::new();
    collect_definitions(node, &mut defs);
    proof {
        assert(defs_view(defs@) =~= defs_of(*node));
    }
    emit(node, out, &defs);
    out.push(0x0a);
}


/// Render an mdast tree to HTML (see [`render_mdast_bytes`]).
pub fn render_mdast(node: &Mdast) -> (r: String)
    ensures
        vstd::utf8::valid_utf8(mdast_html(*node)) ==> r@ == vstd::utf8::decode_utf8(mdast_html(*node)),
{
    let mut out = String::new();
    render_mdast_into(node, &mut out);
    out
}

/// Render an mdast tree to HTML, appending to `out`.
pub fn render_mdast_into(node: &Mdast, out: &mut String)
    ensures
        exists|h: Seq<char>| final(out)@ == old(out)@ + h,
        vstd::utf8::valid_utf8(mdast_html(*node)) ==> final(out)@ == old(out)@ + vstd::utf8::decode_utf8(
            mdast_html(*node),
        ),
{
    let mut bytes: Vec<u8> = Vec::new();
    render_mdast_bytes(node, &mut bytes);
    proof {
        assert(bytes@ =~= mdast_html(*node));
    }
    let s = crate::std_calls::string_from_bytes(bytes.as_slice());
    out.append(s.as_str());
}

// ---- node count -----------------------------------------------------------------

/// The number of nodes in the tree under `n`; position wrappers do not
/// count.
pub open spec fn count_of(n: Mdast) -> nat
    decreases n, 0int,
{
    match n {
        Mdast::Positioned(_, b) => count_of(*b),
        Mdast::Root(c) => 1 + count_seq(c@, 0),
        Mdast::Paragraph(c) => 1 + count_seq(c@, 0),
        Mdast::Blockquote(c) => 1 + count_seq(c@, 0),
        Mdast::Emphasis(c) => 1 + count_seq(c@, 0),
        Mdast::Strong(c) => 1 + count_seq(c@, 0),
        Mdast::Delete(c) => 1 + count_seq(c@, 0),
        Mdast::DirectiveLabel(c) => 1 + count_seq(c@, 0),
        Mdast::DefList(c) => 1 + count_seq(c@, 0),
        Mdast::DefListTerm(c) => 1 + count_seq(c@, 0),
        Mdast::DefListDescription { children, .. } => 1 + count_seq(children@, 0),
        Mdast::FootnoteDefinition { children, .. } => 1 + count_seq(children@, 0),
        Mdast::ContainerDirective { children, .. } => 1 + count_seq(children@, 0),
        Mdast::LeafDirective { children, .. } => 1 + count_seq(children@, 0),
        Mdast::TextDirective { children, .. } => 1 + count_seq(children@, 0),
        Mdast::Heading { children, .. } => 1 + count_seq(children@, 0),
        Mdast::List { children, .. } => 1 + count_seq(children@, 0),
        Mdast::ListItem { children, .. } => 1 + count_seq(children@, 0),
        Mdast::Link { children, .. } => 1 + count_seq(children@, 0),
        Mdast::LinkReference { children, .. } => 1 + count_seq(children@, 0),
        _ => 1,
    }
}

/// The number of nodes under `cs[k..]`.
pub open spec fn count_seq(cs: Seq<Mdast>, k: int) -> nat
    decreases cs, cs.len() - k,
{
    if k < 0 || k >= cs.len() {
        0
    } else {
        count_of(cs[k]) + count_seq(cs, k + 1)
    }
}

/// The number of nodes in the tree (position wrappers excluded).
pub fn node_count(node: &Mdast) -> (r: usize)
    requires
        count_of(*node) <= usize::MAX,
    ensures
        r == count_of(*node),
    decreases node, 0int,
{
    match node {
        Mdast::Positioned(_, b) => node_count(b),
        Mdast::Root(c) => 1 + kids(c),
        Mdast::Paragraph(c) => 1 + kids(c),
        Mdast::Blockquote(c) => 1 + kids(c),
        Mdast::Emphasis(c) => 1 + kids(c),
        Mdast::Strong(c) => 1 + kids(c),
        Mdast::Delete(c) => 1 + kids(c),
        Mdast::DirectiveLabel(c) => 1 + kids(c),
        Mdast::DefList(c) => 1 + kids(c),
        Mdast::DefListTerm(c) => 1 + kids(c),
        Mdast::DefListDescription { children, .. } => 1 + kids(children),
        Mdast::FootnoteDefinition { children, .. } => 1 + kids(children),
        Mdast::ContainerDirective { children, .. } => 1 + kids(children),
        Mdast::LeafDirective { children, .. } => 1 + kids(children),
        Mdast::TextDirective { children, .. } => 1 + kids(children),
        Mdast::Heading { children, .. } => 1 + kids(children),
        Mdast::List { children, .. } => 1 + kids(children),
        Mdast::ListItem { children, .. } => 1 + kids(children),
        Mdast::Link { children, .. } => 1 + kids(children),
        Mdast::LinkReference { children, .. } => 1 + kids(children),
        _ => 1,
    }
}

/// The number of nodes under the children `cs`.
fn kids(cs: &Vec<Mdast>) -> (r: usize)
    requires
        count_seq(cs@, 0) < usize::MAX,
    ensures
        r == count_seq(cs@, 0),
    decreases cs@, 0int,
{
    let mut total: usize = 0;
    let mut k: usize = 0;
    while k < cs.len()
        invariant
            k <= cs@.len(),
            count_seq(cs@, 0) < usize::MAX,
            total + count_seq(cs@, k as int) == count_seq(cs@, 0),
        decreases cs.len() - k,
    {
        proof {
            assert(count_seq(cs@, k as int) == count_of(cs@[k as int]) + count_seq(cs@, k + 1));
        }
        let c = node_count(&cs[k]);
        total = total + c;
        k += 1;
    }
    total
}


// ---- JSON -------------------------------------------------------------------------

/// The JSON string escape of one byte: `"`, `\`, line feed, carriage return
/// and tab by their short escapes, other control bytes as `\u00XX` (lower
/// case hex), every other byte as it is.
pub open spec fn jesc_byte(b: u8) -> Seq<u8> {
    if b == 0x22 {
        seq![0x5cu8, 0x22]
    } else if b == 0x5c {
        seq![0x5cu8, 0x5c]
    } else if b == 0x0a {
        seq![0x5cu8, 0x6e]
    } else if b == 0x0d {
        seq![0x5cu8, 0x72]
    } else if b == 0x09 {
        seq![0x5cu8, 0x74]
    } else if b < 0x20 {
        seq![0x5cu8, 0x75, 0x30, 0x30, lower_hex(b >> 4), lower_hex(b & 0xf)]
    } else {
        seq![b]
    }
}

/// A lowercase hex digit.
pub open spec fn lower_hex(n: u8) -> u8 {
    if n < 10 {
        (0x30 + n) as u8
    } else {
        (0x61 + n - 10) as u8
    }
}

/// The JSON string escape of `s`.
pub open spec fn jesc(s: Seq<u8>) -> Seq<u8>
    decreases s.len(),
{
    if s.len() == 0 {
        Seq::empty()
    } else {
        jesc(s.drop_last()) + jesc_byte(s.last())
    }
}

/// `s` as a JSON string literal.
pub open spec fn jstr(s: Seq<u8>) -> Seq<u8> {
    seq![0x22u8] + jesc(s) + seq![0x22u8]
}

/// An optional string as JSON: a literal or `null`.
pub open spec fn jopt(o: Option<Seq<u8>>) -> Seq<u8> {
    match o {
        Some(s) => jstr(s),
        None => "null".spec_bytes(),
    }
}

/// A boolean as JSON followed by a comma.
pub open spec fn jbool_comma(b: bool) -> Seq<u8> {
    if b {
        "true,".spec_bytes()
    } else {
        "false,".spec_bytes()
    }
}

/// A directive's attributes as a JSON object, from the `k`-th on (`k > 0`
/// puts a comma first).
pub open spec fn jattrs_from(a: Seq<(Vec<u8>, Vec<u8>)>, k: int) -> Seq<u8>
    decreases a.len() - k,
{
    if k < 0 || k >= a.len() {
        Seq::empty()
    } else {
        (if k > 0 {
            seq![0x2cu8]
        } else {
            Seq::empty()
        }) + jstr(a[k].0@) + seq![0x3au8] + jstr(a[k].1@) + jattrs_from(a, k + 1)
    }
}

/// A unist point as JSON.
pub open spec fn jpoint(p: (u32, u32, u32)) -> Seq<u8> {
    "{\"line\":".spec_bytes() + decimal(p.0 as nat) + ",\"column\":".spec_bytes() + decimal(p.1 as nat)
        + ",\"offset\":".spec_bytes() + decimal(p.2 as nat) + seq![0x7du8]
}

/// The `,"position":{…}` member for a position.
pub open spec fn jpos(p: Option<Pos>) -> Seq<u8> {
    match p {
        Some(q) => ",\"position\":{\"start\":".spec_bytes() + jpoint(q.start) + ",\"end\":".spec_bytes() + jpoint(
            q.end,
        ) + seq![0x7du8],
        None => Seq::empty(),
    }
}

/// The reference kind's name.
pub open spec fn ref_name(k: RefKind) -> Seq<u8> {
    match k {
        RefKind::Shortcut => "shortcut".spec_bytes(),
        RefKind::Collapsed => "collapsed".spec_bytes(),
        RefKind::Full => "full".spec_bytes(),
    }
}

/// `"children":[…]` for `cs`.
pub open spec fn jkids(cs: Seq<Mdast>) -> Seq<u8>
    decreases cs, cs.len() + 1,
{
    "\"children\":[".spec_bytes() + json_seq(cs, 0) + seq![0x5du8]
}

/// The nodes `cs[k..]` as JSON, comma-separated (`k > 0` puts a comma first).
pub open spec fn json_seq(cs: Seq<Mdast>, k: int) -> Seq<u8>
    decreases cs, cs.len() - k,
{
    if k < 0 || k >= cs.len() {
        Seq::empty()
    } else {
        (if k > 0 {
            seq![0x2cu8]
        } else {
            Seq::empty()
        }) + json_of(cs[k], None) + json_seq(cs, k + 1)
    }
}

/// The members of node `n`'s JSON object after `"type":`.
pub open spec fn json_body(n: Mdast) -> Seq<u8>
    decreases n, 1int,
{
    match n {
        Mdast::Root(c) => "\"root\",".spec_bytes() + jkids(c@),
        Mdast::Paragraph(c) => "\"paragraph\",".spec_bytes() + jkids(c@),
        Mdast::Heading { depth, children } => "\"heading\",".spec_bytes() + "\"depth\":".spec_bytes() + seq![
            (0x30 + depth) as u8,
            0x2cu8,
        ] + jkids(children@),
        Mdast::Blockquote(c) => "\"blockquote\",".spec_bytes() + jkids(c@),
        Mdast::List { ordered, start, spread, children } => "\"list\",".spec_bytes() + "\"ordered\":".spec_bytes() + jbool_comma(ordered) + "\"start\":".spec_bytes() + (match start {
            Some(s) => decimal(s as nat),
            None => "null".spec_bytes(),
        }) + seq![0x2cu8] + "\"spread\":".spec_bytes() + jbool_comma(spread) + jkids(children@),
        Mdast::ListItem { spread, children } => "\"listItem\",".spec_bytes() + "\"spread\":".spec_bytes()
            + jbool_comma(spread) + "\"checked\":".spec_bytes() + "null,".spec_bytes() + jkids(children@),
        Mdast::ThematicBreak => "\"thematicBreak\"".spec_bytes(),
        Mdast::Code { lang, meta, value } => "\"code\",".spec_bytes() + "\"lang\":".spec_bytes() + jopt(
            opt_bytes(lang),
        ) + seq![0x2cu8] + "\"meta\":".spec_bytes() + jopt(opt_bytes(meta)) + seq![0x2cu8] + "\"value\":".spec_bytes() + jstr(value@),
        Mdast::Html(v) => "\"html\",".spec_bytes() + "\"value\":".spec_bytes() + jstr(v@),
        Mdast::Yaml(v) => "\"yaml\",".spec_bytes() + "\"value\":".spec_bytes() + jstr(v@),
        Mdast::Toml(v) => "\"toml\",".spec_bytes() + "\"value\":".spec_bytes() + jstr(v@),
        Mdast::FootnoteDefinition { identifier, label, children } => "\"footnoteDefinition\",".spec_bytes()
            + "\"identifier\":".spec_bytes() + jstr(identifier@) + seq![0x2cu8] + "\"label\":".spec_bytes()
            + jstr(label@) + seq![0x2cu8] + jkids(children@),
        Mdast::DefList(c) => "\"defList\",".spec_bytes() + jkids(c@),
        Mdast::DefListTerm(c) => "\"defListTerm\",".spec_bytes() + jkids(c@),
        Mdast::DefListDescription { spread, children } => "\"defListDescription\",".spec_bytes() + "\"spread\":".spec_bytes() + jbool_comma(spread) + jkids(children@),
        Mdast::ContainerDirective { name, attributes, children } => "\"containerDirective\",".spec_bytes()
            + "\"name\":".spec_bytes() + jstr(name@) + seq![0x2cu8] + "\"attributes\":".spec_bytes()
            + seq![0x7bu8] + jattrs_from(attributes@, 0) + "},".spec_bytes() + jkids(children@),
        Mdast::LeafDirective { name, attributes, children } => "\"leafDirective\",".spec_bytes() + "\"name\":".spec_bytes() + jstr(name@) + seq![0x2cu8] + "\"attributes\":".spec_bytes() + seq![0x7bu8] + jattrs_from(
            attributes@,
            0,
        ) + "},".spec_bytes() + jkids(children@),
        Mdast::TextDirective { name, attributes, children } => "\"textDirective\",".spec_bytes() + "\"name\":".spec_bytes() + jstr(name@) + seq![0x2cu8] + "\"attributes\":".spec_bytes() + seq![0x7bu8] + jattrs_from(
            attributes@,
            0,
        ) + "},".spec_bytes() + jkids(children@),
        Mdast::DirectiveLabel(c) => "\"paragraph\",".spec_bytes() + "\"data\":".spec_bytes()
            + "{\"directiveLabel\":true},".spec_bytes() + jkids(c@),
        Mdast::FootnoteReference { identifier, label } => "\"footnoteReference\",".spec_bytes() + "\"identifier\":".spec_bytes() + jstr(identifier@) + seq![0x2cu8] + "\"label\":".spec_bytes() + jstr(label@),
        Mdast::Text(v) => "\"text\",".spec_bytes() + "\"value\":".spec_bytes() + jstr(v@),
        Mdast::Emphasis(c) => "\"emphasis\",".spec_bytes() + jkids(c@),
        Mdast::Strong(c) => "\"strong\",".spec_bytes() + jkids(c@),
        Mdast::Delete(c) => "\"delete\",".spec_bytes() + jkids(c@),
        Mdast::InlineCode(v) => "\"inlineCode\",".spec_bytes() + "\"value\":".spec_bytes() + jstr(v@),
        Mdast::Break => "\"break\"".spec_bytes(),
        Mdast::Link { url, title, children } => "\"link\",".spec_bytes() + "\"url\":".spec_bytes() + jstr(url@)
            + seq![0x2cu8] + "\"title\":".spec_bytes() + jopt(opt_bytes(title)) + seq![0x2cu8] + jkids(
            children@,
        ),
        Mdast::Image { url, title, alt } => "\"image\",".spec_bytes() + "\"url\":".spec_bytes() + jstr(url@)
            + seq![0x2cu8] + "\"title\":".spec_bytes() + jopt(opt_bytes(title)) + seq![0x2cu8] + "\"alt\":".spec_bytes() + jstr(alt@),
        Mdast::Definition { identifier, label, url, title } => "\"definition\",".spec_bytes() + "\"identifier\":".spec_bytes() + jstr(identifier@) + seq![0x2cu8] + "\"label\":".spec_bytes() + jstr(label@) + seq![0x2cu8]
            + "\"url\":".spec_bytes() + jstr(url@) + seq![0x2cu8] + "\"title\":".spec_bytes() + jopt(
            opt_bytes(title),
        ),
        Mdast::LinkReference { identifier, label, reftype, children } => "\"linkReference\",".spec_bytes()
            + "\"identifier\":".spec_bytes() + jstr(identifier@) + seq![0x2cu8] + "\"label\":".spec_bytes()
            + jstr(label@) + seq![0x2cu8] + "\"referenceType\":".spec_bytes() + jstr(ref_name(reftype))
            + seq![0x2cu8] + jkids(children@),
        Mdast::ImageReference { identifier, label, reftype, alt } => "\"imageReference\",".spec_bytes() + "\"identifier\":".spec_bytes() + jstr(identifier@) + seq![0x2cu8] + "\"label\":".spec_bytes() + jstr(label@) + seq![0x2cu8]
            + "\"referenceType\":".spec_bytes() + jstr(ref_name(reftype)) + seq![0x2cu8] + "\"alt\":".spec_bytes() + jstr(alt@),
        Mdast::Positioned(_, _) => Seq::empty(),
    }
}

/// Node `n` as a JSON object, with the position `pos` of a wrapper around
/// it as its `"position"` member; a position wrapper passes its position to
/// the node it wraps.
pub open spec fn json_of(n: Mdast, pos: Option<Pos>) -> Seq<u8>
    decreases n, 2int,
{
    match n {
        Mdast::Positioned(p, b) => json_of(*b, Some(p)),
        _ => "{\"type\":".spec_bytes() + json_body(n) + jpos(pos) + seq![0x7du8],
    }
}

fn push_lower_hex(n: u8, out: &mut Vec<u8>)
    requires
        n < 16,
    ensures
        final(out)@ == old(out)@.push(lower_hex(n)),
{
    if n < 10 {
        out.push(0x30 + n);
    } else {
        out.push(0x61 + n - 10);
    }
}

/// Append `s` as a JSON string literal.
fn json_str(s: &[u8], out: &mut Vec<u8>)
    ensures
        final(out)@ == old(out)@ + jstr(s@),
{
    out.push(0x22);
    let ghost start = out@;
    let mut i: usize = 0;
    while i < s.len()
        invariant
            i <= s@.len(),
            out@ == start + jesc(s@.subrange(0, i as int)),
        decreases s.len() - i,
    {
        let b = s[i];
        proof {
            assert(s@.subrange(0, i + 1).drop_last() =~= s@.subrange(0, i as int));
        }
        let ghost before = out@;
        if b == 0x22 {
            out.push(0x5c);
            out.push(0x22);
        } else if b == 0x5c {
            out.push(0x5c);
            out.push(0x5c);
        } else if b == 0x0a {
            out.push(0x5c);
            out.push(0x6e);
        } else if b == 0x0d {
            out.push(0x5c);
            out.push(0x72);
        } else if b == 0x09 {
            out.push(0x5c);
            out.push(0x74);
        } else if b < 0x20 {
            out.push(0x5c);
            out.push(0x75);
            out.push(0x30);
            out.push(0x30);
            assert(b >> 4 < 16) by (bit_vector);
            assert(b & 0xf < 16) by (bit_vector);
            push_lower_hex(b >> 4, out);
            push_lower_hex(b & 0xf, out);
        } else {
            out.push(b);
        }
        proof {
            assert(out@ =~= before + jesc_byte(b));
        }
        i += 1;
    }
    out.push(0x22);
    proof {
        assert(s@.subrange(0, s@.len() as int) =~= s@);
        assert(out@ =~= old(out)@ + jstr(s@));
    }
}

fn json_opt(v: &Option<Vec<u8>>, out: &mut Vec<u8>)
    ensures
        final(out)@ == old(out)@ + jopt(opt_bytes(*v)),
{
    match v {
        Some(s) => json_str(s.as_slice(), out),
        None => append_str(out, "null"),
    }
}

fn json_attrs(a: &Vec<(Vec<u8>, Vec<u8>)>, out: &mut Vec<u8>)
    ensures
        final(out)@ == old(out)@ + jattrs_from(a@, 0),
{
    let mut k: usize = 0;
    while k < a.len()
        invariant
            k <= a@.len(),
            out@ + jattrs_from(a@, k as int) == old(out)@ + jattrs_from(a@, 0),
        decreases a.len() - k,
    {
        let ghost prev = out@;
        if k > 0 {
            out.push(0x2c);
        }
        json_str(a[k].0.as_slice(), out);
        out.push(0x3a);
        json_str(a[k].1.as_slice(), out);
        proof {
            assert(out@ + jattrs_from(a@, k + 1) =~= prev + jattrs_from(a@, k as int));
        }
        k += 1;
    }
    proof {
        assert(out@ =~= out@ + jattrs_from(a@, k as int));
    }
}

fn write_point(p: (u32, u32, u32), out: &mut Vec<u8>)
    ensures
        final(out)@ == old(out)@ + jpoint(p),
{
    append_str(out, "{\"line\":");
    push_u64(out, p.0 as u64);
    append_str(out, ",\"column\":");
    push_u64(out, p.1 as u64);
    append_str(out, ",\"offset\":");
    push_u64(out, p.2 as u64);
    out.push(0x7d);
    proof {
        assert(out@ =~= old(out)@ + jpoint(p));
    }
}

fn write_pos(pos: Option<&Pos>, out: &mut Vec<u8>)
    ensures
        final(out)@ == old(out)@ + jpos(
            match pos {
                Some(p) => Some(*p),
                None => None,
            },
        ),
{
    match pos {
        Some(p) => {
            append_str(out, ",\"position\":{\"start\":");
            write_point(p.start, out);
            append_str(out, ",\"end\":");
            write_point(p.end, out);
            out.push(0x7d);
            proof {
                assert(out@ =~= old(out)@ + jpos(Some(*p)));
            }
        },
        None => {},
    }
}

fn json_children(cs: &Vec<Mdast>, out: &mut Vec<u8>)
    ensures
        final(out)@ == old(out)@ + jkids(cs@),
    decreases cs@, 0int,
{
    append_str(out, "\"children\":[");
    let ghost start = out@;
    let mut k: usize = 0;
    while k < cs.len()
        invariant
            k <= cs@.len(),
            out@ + json_seq(cs@, k as int) == start + json_seq(cs@, 0),
        decreases cs.len() - k,
    {
        let ghost prev = out@;
        if k > 0 {
            out.push(0x2c);
        }
        write_json_pos(&cs[k], None, out);
        proof {
            assert(out@ + json_seq(cs@, k + 1) =~= prev + json_seq(cs@, k as int));
        }
        k += 1;
    }
    out.push(0x5d);
    proof {
        assert(out@ =~= old(out)@ + jkids(cs@));
    }
}

fn push_bool_comma(b: bool, out: &mut Vec<u8>)
    ensures
        final(out)@ == old(out)@ + jbool_comma(b),
{
    if b {
        append_str(out, "true,");
    } else {
        append_str(out, "false,");
    }
}

fn push_ref_name(k: RefKind, out: &mut Vec<u8>)
    ensures
        final(out)@ == old(out)@ + jstr(ref_name(k)),
{
    let mut v: Vec<u8> = Vec::new();
    match k {
        RefKind::Shortcut => append_str(&mut v, "shortcut"),
        RefKind::Collapsed => append_str(&mut v, "collapsed"),
        RefKind::Full => append_str(&mut v, "full"),
    }
    proof {
        assert(v@ =~= ref_name(k));
    }
    json_str(v.as_slice(), out);
}

/// Append the members of `n`'s JSON object after `"type":`.
fn json_body_exec(n: &Mdast, out: &mut Vec<u8>)
    ensures
        final(out)@ == old(out)@ + json_body(*n),
    decreases n, 1int,
{
    match n {
        Mdast::Blockquote { .. } => json_blockquote(n, out),
        Mdast::Break { .. } => json_break(n, out),
        Mdast::Code { .. } => json_code(n, out),
        Mdast::ContainerDirective { .. } => json_container_directive(n, out),
        Mdast::DefList { .. } => json_def_list(n, out),
        Mdast::DefListDescription { .. } => json_def_list_description(n, out),
        Mdast::DefListTerm { .. } => json_def_list_term(n, out),
        Mdast::Definition { .. } => json_definition(n, out),
        Mdast::Delete { .. } => json_delete(n, out),
        Mdast::DirectiveLabel { .. } => json_directive_label(n, out),
        Mdast::Emphasis { .. } => json_emphasis(n, out),
        Mdast::FootnoteDefinition { .. } => json_footnote_definition(n, out),
        Mdast::FootnoteReference { .. } => json_footnote_reference(n, out),
        Mdast::Heading { .. } => json_heading(n, out),
        Mdast::Html { .. } => json_html(n, out),
        Mdast::Image { .. } => json_image(n, out),
        Mdast::ImageReference { .. } => json_image_reference(n, out),
        Mdast::InlineCode { .. } => json_inline_code(n, out),
        Mdast::LeafDirective { .. } => json_leaf_directive(n, out),
        Mdast::Link { .. } => json_link(n, out),
        Mdast::LinkReference { .. } => json_link_reference(n, out),
        Mdast::List { .. } => json_list(n, out),
        Mdast::ListItem { .. } => json_list_item(n, out),
        Mdast::Paragraph { .. } => json_paragraph(n, out),
        Mdast::Root { .. } => json_root(n, out),
        Mdast::Strong { .. } => json_strong(n, out),
        Mdast::Text { .. } => json_text(n, out),
        Mdast::TextDirective { .. } => json_text_directive(n, out),
        Mdast::ThematicBreak { .. } => json_thematic_break(n, out),
        Mdast::Toml { .. } => json_toml(n, out),
        Mdast::Yaml { .. } => json_yaml(n, out),
        Mdast::Positioned(_, _) => {},
    }
}

#[verifier::rlimit(100)]
fn json_blockquote(n: &Mdast, out: &mut Vec<u8>)
    requires
        n is Blockquote,
    ensures
        final(out)@ == old(out)@ + json_body(*n),
    decreases n, 0int,
{
    match n {
        Mdast::Blockquote(c) => {
            append_str(out, "\"blockquote\",");
            json_children(c, out);
            proof {
                assert(out@ =~= old(out)@ + json_body(*n));
            }
        },
        _ => {},
    }
}

#[verifier::rlimit(100)]
fn json_break(n: &Mdast, out: &mut Vec<u8>)
    requires
        n is Break,
    ensures
        final(out)@ == old(out)@ + json_body(*n),
    decreases n, 0int,
{
    match n {
        Mdast::Break => {
            append_str(out, "\"break\"");
            proof {
                assert(out@ =~= old(out)@ + json_body(*n));
            }
        },
        _ => {},
    }
}

#[verifier::rlimit(100)]
fn json_code(n: &Mdast, out: &mut Vec<u8>)
    requires
        n is Code,
    ensures
        final(out)@ == old(out)@ + json_body(*n),
    decreases n, 0int,
{
    match n {
        Mdast::Code { lang, meta, value } => {
            append_str(out, "\"code\",");
            append_str(out, "\"lang\":");
            json_opt(lang, out);
            out.push(0x2c);
            append_str(out, "\"meta\":");
            json_opt(meta, out);
            out.push(0x2c);
            append_str(out, "\"value\":");
            json_str(value.as_slice(), out);
            proof {
                assert(out@ =~= old(out)@ + json_body(*n));
            }
        },
        _ => {},
    }
}

#[verifier::rlimit(100)]
fn json_container_directive(n: &Mdast, out: &mut Vec<u8>)
    requires
        n is ContainerDirective,
    ensures
        final(out)@ == old(out)@ + json_body(*n),
    decreases n, 0int,
{
    match n {
        Mdast::ContainerDirective { name, attributes, children } => {
            append_str(out, "\"containerDirective\",");
            json_directive_rest(name, attributes, children, out);
            proof {
                assert(out@ =~= old(out)@ + json_body(*n));
            }
        },
        _ => {},
    }
}

#[verifier::rlimit(100)]
fn json_def_list(n: &Mdast, out: &mut Vec<u8>)
    requires
        n is DefList,
    ensures
        final(out)@ == old(out)@ + json_body(*n),
    decreases n, 0int,
{
    match n {
        Mdast::DefList(c) => {
            append_str(out, "\"defList\",");
            json_children(c, out);
            proof {
                assert(out@ =~= old(out)@ + json_body(*n));
            }
        },
        _ => {},
    }
}

#[verifier::rlimit(100)]
fn json_def_list_description(n: &Mdast, out: &mut Vec<u8>)
    requires
        n is DefListDescription,
    ensures
        final(out)@ == old(out)@ + json_body(*n),
    decreases n, 0int,
{
    match n {
        Mdast::DefListDescription { spread, children } => {
            append_str(out, "\"defListDescription\",");
            append_str(out, "\"spread\":");
            push_bool_comma(*spread, out);
            json_children(children, out);
            proof {
                assert(out@ =~= old(out)@ + json_body(*n));
            }
        },
        _ => {},
    }
}

#[verifier::rlimit(100)]
fn json_def_list_term(n: &Mdast, out: &mut Vec<u8>)
    requires
        n is DefListTerm,
    ensures
        final(out)@ == old(out)@ + json_body(*n),
    decreases n, 0int,
{
    match n {
        Mdast::DefListTerm(c) => {
            append_str(out, "\"defListTerm\",");
            json_children(c, out);
            proof {
                assert(out@ =~= old(out)@ + json_body(*n));
            }
        },
        _ => {},
    }
}

#[verifier::rlimit(100)]
fn json_definition(n: &Mdast, out: &mut Vec<u8>)
    requires
        n is Definition,
    ensures
        final(out)@ == old(out)@ + json_body(*n),
    decreases n, 0int,
{
    match n {
        Mdast::Definition { identifier, label, url, title } => {
            append_str(out, "\"definition\",");
            append_str(out, "\"identifier\":");
            json_str(identifier.as_slice(), out);
            out.push(0x2c);
            append_str(out, "\"label\":");
            json_str(label.as_slice(), out);
            out.push(0x2c);
            append_str(out, "\"url\":");
            json_str(url.as_slice(), out);
            out.push(0x2c);
            append_str(out, "\"title\":");
            json_opt(title, out);
            proof {
                assert(out@ =~= old(out)@ + json_body(*n));
            }
        },
        _ => {},
    }
}

#[verifier::rlimit(100)]
fn json_delete(n: &Mdast, out: &mut Vec<u8>)
    requires
        n is Delete,
    ensures
        final(out)@ == old(out)@ + json_body(*n),
    decreases n, 0int,
{
    match n {
        Mdast::Delete(c) => {
            append_str(out, "\"delete\",");
            json_children(c, out);
            proof {
                assert(out@ =~= old(out)@ + json_body(*n));
            }
        },
        _ => {},
    }
}

#[verifier::rlimit(100)]
fn json_directive_label(n: &Mdast, out: &mut Vec<u8>)
    requires
        n is DirectiveLabel,
    ensures
        final(out)@ == old(out)@ + json_body(*n),
    decreases n, 0int,
{
    match n {
        Mdast::DirectiveLabel(c) => {
            append_str(out, "\"paragraph\",");
            append_str(out, "\"data\":");
            append_str(out, "{\"directiveLabel\":true},");
            json_children(c, out);
            proof {
                assert(out@ =~= old(out)@ + json_body(*n));
            }
        },
        _ => {},
    }
}

#[verifier::rlimit(100)]
fn json_emphasis(n: &Mdast, out: &mut Vec<u8>)
    requires
        n is Emphasis,
    ensures
        final(out)@ == old(out)@ + json_body(*n),
    decreases n, 0int,
{
    match n {
        Mdast::Emphasis(c) => {
            append_str(out, "\"emphasis\",");
            json_children(c, out);
            proof {
                assert(out@ =~= old(out)@ + json_body(*n));
            }
        },
        _ => {},
    }
}

#[verifier::rlimit(100)]
fn json_footnote_definition(n: &Mdast, out: &mut Vec<u8>)
    requires
        n is FootnoteDefinition,
    ensures
        final(out)@ == old(out)@ + json_body(*n),
    decreases n, 0int,
{
    match n {
        Mdast::FootnoteDefinition { identifier, label, children } => {
            append_str(out, "\"footnoteDefinition\",");
            append_str(out, "\"identifier\":");
            json_str(identifier.as_slice(), out);
            out.push(0x2c);
            append_str(out, "\"label\":");
            json_str(label.as_slice(), out);
            out.push(0x2c);
            json_children(children, out);
            proof {
                assert(out@ =~= old(out)@ + json_body(*n));
            }
        },
        _ => {},
    }
}

#[verifier::rlimit(100)]
fn json_footnote_reference(n: &Mdast, out: &mut Vec<u8>)
    requires
        n is FootnoteReference,
    ensures
        final(out)@ == old(out)@ + json_body(*n),
    decreases n, 0int,
{
    match n {
        Mdast::FootnoteReference { identifier, label } => {
            append_str(out, "\"footnoteReference\",");
            append_str(out, "\"identifier\":");
            json_str(identifier.as_slice(), out);
            out.push(0x2c);
            append_str(out, "\"label\":");
            json_str(label.as_slice(), out);
            proof {
                assert(out@ =~= old(out)@ + json_body(*n));
            }
        },
        _ => {},
    }
}

#[verifier::rlimit(100)]
fn json_heading(n: &Mdast, out: &mut Vec<u8>)
    requires
        n is Heading,
    ensures
        final(out)@ == old(out)@ + json_body(*n),
    decreases n, 0int,
{
    match n {
        Mdast::Heading { depth, children } => {
            append_str(out, "\"heading\",");
            append_str(out, "\"depth\":");
            let dig: u8 = 0x30u8.wrapping_add(*depth);
            proof {
                assert(dig == (0x30 + *depth) as u8) by (bit_vector)
                    requires
                        dig == 0x30u8.wrapping_add(*depth),
                ;
            }
            out.push(dig);
            out.push(0x2c);
            json_children(children, out);
            proof {
                assert(out@ =~= old(out)@ + json_body(*n));
            }
        },
        _ => {},
    }
}

#[verifier::rlimit(100)]
fn json_html(n: &Mdast, out: &mut Vec<u8>)
    requires
        n is Html,
    ensures
        final(out)@ == old(out)@ + json_body(*n),
    decreases n, 0int,
{
    match n {
        Mdast::Html(v) => {
            append_str(out, "\"html\",");
            append_str(out, "\"value\":");
            json_str(v.as_slice(), out);
            proof {
                assert(out@ =~= old(out)@ + json_body(*n));
            }
        },
        _ => {},
    }
}

#[verifier::rlimit(100)]
fn json_image(n: &Mdast, out: &mut Vec<u8>)
    requires
        n is Image,
    ensures
        final(out)@ == old(out)@ + json_body(*n),
    decreases n, 0int,
{
    match n {
        Mdast::Image { url, title, alt } => {
            append_str(out, "\"image\",");
            append_str(out, "\"url\":");
            json_str(url.as_slice(), out);
            out.push(0x2c);
            append_str(out, "\"title\":");
            json_opt(title, out);
            out.push(0x2c);
            append_str(out, "\"alt\":");
            json_str(alt.as_slice(), out);
            proof {
                assert(out@ =~= old(out)@ + json_body(*n));
            }
        },
        _ => {},
    }
}

#[verifier::rlimit(100)]
fn json_image_reference(n: &Mdast, out: &mut Vec<u8>)
    requires
        n is ImageReference,
    ensures
        final(out)@ == old(out)@ + json_body(*n),
    decreases n, 0int,
{
    match n {
        Mdast::ImageReference { identifier, label, reftype, alt } => {
            append_str(out, "\"imageReference\",");
            json_ref_head(identifier, label, *reftype, out);
            out.push(0x2c);
            append_str(out, "\"alt\":");
            json_str(alt.as_slice(), out);
            proof {
                assert(out@ =~= old(out)@ + json_body(*n));
            }
        },
        _ => {},
    }
}

#[verifier::rlimit(100)]
fn json_inline_code(n: &Mdast, out: &mut Vec<u8>)
    requires
        n is InlineCode,
    ensures
        final(out)@ == old(out)@ + json_body(*n),
    decreases n, 0int,
{
    match n {
        Mdast::InlineCode(v) => {
            append_str(out, "\"inlineCode\",");
            append_str(out, "\"value\":");
            json_str(v.as_slice(), out);
            proof {
                assert(out@ =~= old(out)@ + json_body(*n));
            }
        },
        _ => {},
    }
}

#[verifier::rlimit(100)]
fn json_leaf_directive(n: &Mdast, out: &mut Vec<u8>)
    requires
        n is LeafDirective,
    ensures
        final(out)@ == old(out)@ + json_body(*n),
    decreases n, 0int,
{
    match n {
        Mdast::LeafDirective { name, attributes, children } => {
            append_str(out, "\"leafDirective\",");
            json_directive_rest(name, attributes, children, out);
            proof {
                assert(out@ =~= old(out)@ + json_body(*n));
            }
        },
        _ => {},
    }
}

#[verifier::rlimit(100)]
fn json_link(n: &Mdast, out: &mut Vec<u8>)
    requires
        n is Link,
    ensures
        final(out)@ == old(out)@ + json_body(*n),
    decreases n, 0int,
{
    match n {
        Mdast::Link { url, title, children } => {
            append_str(out, "\"link\",");
            append_str(out, "\"url\":");
            json_str(url.as_slice(), out);
            out.push(0x2c);
            append_str(out, "\"title\":");
            json_opt(title, out);
            out.push(0x2c);
            json_children(children, out);
            proof {
                assert(out@ =~= old(out)@ + json_body(*n));
            }
        },
        _ => {},
    }
}

#[verifier::rlimit(100)]
fn json_link_reference(n: &Mdast, out: &mut Vec<u8>)
    requires
        n is LinkReference,
    ensures
        final(out)@ == old(out)@ + json_body(*n),
    decreases n, 0int,
{
    match n {
        Mdast::LinkReference { identifier, label, reftype, children } => {
            append_str(out, "\"linkReference\",");
            json_ref_head(identifier, label, *reftype, out);
            out.push(0x2c);
            json_children(children, out);
            proof {
                assert(out@ =~= old(out)@ + json_body(*n));
            }
        },
        _ => {},
    }
}

#[verifier::rlimit(100)]
fn json_list(n: &Mdast, out: &mut Vec<u8>)
    requires
        n is List,
    ensures
        final(out)@ == old(out)@ + json_body(*n),
    decreases n, 0int,
{
    match n {
        Mdast::List { ordered, start, spread, children } => {
            append_str(out, "\"list\",");
            append_str(out, "\"ordered\":");
            push_bool_comma(*ordered, out);
            append_str(out, "\"start\":");
            match start {
                Some(s) => push_u64(out, *s),
                None => append_str(out, "null"),
            }
            out.push(0x2c);
            append_str(out, "\"spread\":");
            push_bool_comma(*spread, out);
            json_children(children, out);
            proof {
                assert(out@ =~= old(out)@ + json_body(*n));
            }
        },
        _ => {},
    }
}

#[verifier::rlimit(100)]
fn json_list_item(n: &Mdast, out: &mut Vec<u8>)
    requires
        n is ListItem,
    ensures
        final(out)@ == old(out)@ + json_body(*n),
    decreases n, 0int,
{
    match n {
        Mdast::ListItem { spread, children } => {
            append_str(out, "\"listItem\",");
            append_str(out, "\"spread\":");
            push_bool_comma(*spread, out);
            append_str(out, "\"checked\":");
            append_str(out, "null,");
            json_children(children, out);
            proof {
                assert(out@ =~= old(out)@ + json_body(*n));
            }
        },
        _ => {},
    }
}

#[verifier::rlimit(100)]
fn json_paragraph(n: &Mdast, out: &mut Vec<u8>)
    requires
        n is Paragraph,
    ensures
        final(out)@ == old(out)@ + json_body(*n),
    decreases n, 0int,
{
    match n {
        Mdast::Paragraph(c) => {
            append_str(out, "\"paragraph\",");
            json_children(c, out);
            proof {
                assert(out@ =~= old(out)@ + json_body(*n));
            }
        },
        _ => {},
    }
}

#[verifier::rlimit(100)]
fn json_root(n: &Mdast, out: &mut Vec<u8>)
    requires
        n is Root,
    ensures
        final(out)@ == old(out)@ + json_body(*n),
    decreases n, 0int,
{
    match n {
        Mdast::Root(c) => {
            append_str(out, "\"root\",");
            json_children(c, out);
            proof {
                assert(out@ =~= old(out)@ + json_body(*n));
            }
        },
        _ => {},
    }
}

#[verifier::rlimit(100)]
fn json_strong(n: &Mdast, out: &mut Vec<u8>)
    requires
        n is Strong,
    ensures
        final(out)@ == old(out)@ + json_body(*n),
    decreases n, 0int,
{
    match n {
        Mdast::Strong(c) => {
            append_str(out, "\"strong\",");
            json_children(c, out);
            proof {
                assert(out@ =~= old(out)@ + json_body(*n));
            }
        },
        _ => {},
    }
}

#[verifier::rlimit(100)]
fn json_text(n: &Mdast, out: &mut Vec<u8>)
    requires
        n is Text,
    ensures
        final(out)@ == old(out)@ + json_body(*n),
    decreases n, 0int,
{
    match n {
        Mdast::Text(v) => {
            append_str(out, "\"text\",");
            append_str(out, "\"value\":");
            json_str(v.as_slice(), out);
            proof {
                assert(out@ =~= old(out)@ + json_body(*n));
            }
        },
        _ => {},
    }
}

#[verifier::rlimit(100)]
fn json_text_directive(n: &Mdast, out: &mut Vec<u8>)
    requires
        n is TextDirective,
    ensures
        final(out)@ == old(out)@ + json_body(*n),
    decreases n, 0int,
{
    match n {
        Mdast::TextDirective { name, attributes, children } => {
            append_str(out, "\"textDirective\",");
            json_directive_rest(name, attributes, children, out);
            proof {
                assert(out@ =~= old(out)@ + json_body(*n));
            }
        },
        _ => {},
    }
}

#[verifier::rlimit(100)]
fn json_thematic_break(n: &Mdast, out: &mut Vec<u8>)
    requires
        n is ThematicBreak,
    ensures
        final(out)@ == old(out)@ + json_body(*n),
    decreases n, 0int,
{
    match n {
        Mdast::ThematicBreak => {
            append_str(out, "\"thematicBreak\"");
            proof {
                assert(out@ =~= old(out)@ + json_body(*n));
            }
        },
        _ => {},
    }
}

#[verifier::rlimit(100)]
fn json_toml(n: &Mdast, out: &mut Vec<u8>)
    requires
        n is Toml,
    ensures
        final(out)@ == old(out)@ + json_body(*n),
    decreases n, 0int,
{
    match n {
        Mdast::Toml(v) => {
            append_str(out, "\"toml\",");
            append_str(out, "\"value\":");
            json_str(v.as_slice(), out);
            proof {
                assert(out@ =~= old(out)@ + json_body(*n));
            }
        },
        _ => {},
    }
}

#[verifier::rlimit(100)]
fn json_yaml(n: &Mdast, out: &mut Vec<u8>)
    requires
        n is Yaml,
    ensures
        final(out)@ == old(out)@ + json_body(*n),
    decreases n, 0int,
{
    match n {
        Mdast::Yaml(v) => {
            append_str(out, "\"yaml\",");
            append_str(out, "\"value\":");
            json_str(v.as_slice(), out);
            proof {
                assert(out@ =~= old(out)@ + json_body(*n));
            }
        },
        _ => {},
    }
}








/// `"identifier":…,"label":…,"referenceType":…`.
fn json_ref_head(identifier: &Vec<u8>, label: &Vec<u8>, kind: RefKind, out: &mut Vec<u8>)
    ensures
        final(out)@ == old(out)@ + "\"identifier\":".spec_bytes() + jstr(identifier@) + seq![0x2cu8] + "\"label\":".spec_bytes() + jstr(label@) + seq![0x2cu8] + "\"referenceType\":".spec_bytes() + jstr(ref_name(kind)),
{
    append_str(out, "\"identifier\":");
    json_str(identifier.as_slice(), out);
    out.push(0x2c);
    append_str(out, "\"label\":");
    json_str(label.as_slice(), out);
    out.push(0x2c);
    append_str(out, "\"referenceType\":");
    push_ref_name(kind, out);
    proof {
        assert(out@ =~= old(out)@ + "\"identifier\":".spec_bytes() + jstr(identifier@) + seq![0x2cu8] + "\"label\":".spec_bytes() + jstr(label@) + seq![0x2cu8] + "\"referenceType\":".spec_bytes() + jstr(ref_name(kind)));
    }
}

/// `"name":…,"attributes":{…},"children":[…]` of a directive.
fn json_directive_rest(name: &Vec<u8>, attributes: &Vec<(Vec<u8>, Vec<u8>)>, children: &Vec<Mdast>, out: &mut Vec<u8>)
    ensures
        final(out)@ == old(out)@ + "\"name\":".spec_bytes() + jstr(name@) + seq![0x2cu8] + "\"attributes\":".spec_bytes() + seq![0x7bu8] + jattrs_from(attributes@, 0) + "},".spec_bytes() + jkids(children@),
    decreases children@, 1int,
{
    append_str(out, "\"name\":");
    json_str(name.as_slice(), out);
    out.push(0x2c);
    append_str(out, "\"attributes\":");
    out.push(0x7b);
    json_attrs(attributes, out);
    append_str(out, "},");
    json_children(children, out);
    proof {
        assert(out@ =~= old(out)@ + "\"name\":".spec_bytes() + jstr(name@) + seq![0x2cu8] + "\"attributes\":".spec_bytes() + seq![0x7bu8] + jattrs_from(attributes@, 0) + "},".spec_bytes() + jkids(children@));
    }
}

/// Append node `node` as a JSON object, carrying the position `pos` of an
/// enclosing position wrapper.
pub fn write_json_pos(node: &Mdast, pos: Option<&Pos>, out: &mut Vec<u8>)
    ensures
        final(out)@ == old(out)@ + json_of(
            *node,
            match pos {
                Some(p) => Some(*p),
                None => None,
            },
        ),
    decreases node, 2int,
{
    match node {
        Mdast::Positioned(p, inner) => {
            write_json_pos(inner, Some(p), out);
        },
        _ => {
            append_str(out, "{\"type\":");
            json_body_exec(node, out);
            write_pos(pos, out);
            out.push(0x7d);
        },
    }
}

/// Append an mdast tree as JSON (the mdast/unist object form).
pub fn write_json(node: &Mdast, out: &mut Vec<u8>)
    ensures
        final(out)@ == old(out)@ + json_of(*node, None),
{
    write_json_pos(node, None, out)
}

} // verus!
