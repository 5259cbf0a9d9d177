#![verifier::loop_isolation(false)]
//! GFM tag filter: the leading `<` of a disallowed raw-HTML tag is
//! neutralized to `&lt;` (GFM §6.11), in HTML blocks and inline raw HTML.

use vstd::prelude::*;
use vstd::string::StringSliceAdditionalSpecFns;
use crate::bytes::{append, eq_nocase, lower_spec, nocase_at, slice, tail};
use crate::escape::lt_spec;

verus! {

/// The disallowed tag names (lowercase).
pub const FILTERED_NAMES: [&'static str; 9] = [
    "title",
    "textarea",
    "style",
    "xmp",
    "iframe",
    "noembed",
    "noframes",
    "script",
    "plaintext",
];

/// A byte that may end a tag name: space, tab, newline, CR, form feed, `>`,
/// `/`.
pub open spec fn tag_delim(c: u8) -> bool {
    c == 0x20 || c == 0x09 || c == 0x0a || c == 0x0d || c == 0x0c || c == 0x3e || c == 0x2f
}

/// Among the names from the `k`-th on, the first one that `rest` starts with
/// (any case) is followed by a tag delimiter or the end of `rest`.
pub open spec fn filtered_from(rest: Seq<u8>, k: int) -> bool
    decreases 9 - k,
{
    if k < 0 || k >= 9 {
        false
    } else {
        let name = FILTERED_NAMES[k].spec_bytes();
        if nocase_at(rest, 0, name) {
            rest.len() == name.len() || tag_delim(rest[name.len() as int])
        } else {
            filtered_from(rest, k + 1)
        }
    }
}

/// `rest`, the bytes just past a `<`, opens a disallowed tag.
pub open spec fn filtered_spec(rest: Seq<u8>) -> bool {
    filtered_from(rest, 0)
}

/// Does `rest` (the bytes just past a `<`) start with a disallowed tag name
/// (any case) that is followed by a tag delimiter (space, tab, newline, CR,
/// form feed, `/`, `>`) or the end of the input? The first name that matches
/// as a prefix decides.
pub fn is_filtered_tag(rest: &[u8]) -> (r: bool)
    ensures
        r == filtered_spec(rest@),
{
    let mut k: usize = 0;
    while k < 9
        invariant
            k <= 9,
            filtered_spec(rest@) == filtered_from(rest@, k as int),
        decreases 9 - k,
    {
        let tag = FILTERED_NAMES[k].as_bytes();
        let head = slice(rest, 0, tag.len());
        if rest.len() >= tag.len() && eq_nocase(head, tag) {
            proof {
                assert forall|j: int| 0 <= j < tag@.len() implies lower_spec(#[trigger] rest@[0 + j])
                    == lower_spec(tag@[j]) by {
                    assert(head@[0 + j] == rest@[j]);
                }
            }
            if rest.len() == tag.len() {
                return true;
            }
            let c = rest[tag.len()];
            return c == 0x20 || c == 0x09 || c == 0x0a || c == 0x0d || c == 0x0c || c == 0x3e
                || c == 0x2f;
        }
        proof {
            if nocase_at(rest@, 0, tag@) {
                assert(head@ =~= rest@.subrange(0, tag@.len() as int));
                assert forall|j: int| 0 <= j < tag@.len() implies lower_spec(#[trigger] head@[0 + j])
                    == lower_spec(tag@[j]) by {
                    assert(rest@[0 + j] == head@[j]);
                }
            }
        }
        k += 1;
    }
    false
}

/// The filtered form of byte `k` of `s`: the `<` of a disallowed tag becomes
/// `&lt;`, every other byte is kept.
pub open spec fn filter_byte(s: Seq<u8>, k: int) -> Seq<u8> {
    if s[k] == 0x3c && filtered_spec(s.subrange(k + 1, s.len() as int)) {
        lt_spec()
    } else {
        seq![s[k]]
    }
}

/// The filtered form of the first `n` bytes of `s`.
pub open spec fn filter_prefix(s: Seq<u8>, n: int) -> Seq<u8>
    decreases n,
{
    if n <= 0 {
        Seq::empty()
    } else {
        filter_prefix(s, n - 1) + filter_byte(s, n - 1)
    }
}

/// Copy `s` to `out`, replacing the leading `<` of any disallowed raw-HTML tag
/// with `&lt;`. Text without a `<` is copied unchanged.
pub fn filter_html(s: &[u8], out: &mut Vec<u8>)
    ensures
        final(out)@ == old(out)@ + filter_prefix(s@, s@.len() as int),
        !s@.contains(0x3c) ==> final(out)@ == old(out)@ + s@,
{
    let len = s.len();
    let mut clean: usize = 0;
    let mut i: usize = 0;
    while i < len
        invariant
            clean <= i <= len,
            len == s@.len(),
            out@ + s@.subrange(clean as int, i as int) == old(out)@ + filter_prefix(s@, i as int),
            !s@.contains(0x3c) ==> clean == 0 && out@ == old(out)@,
        decreases len - i,
    {
        let ghost prev = out@;
        let ghost fp = filter_prefix(s@, i as int);
        let ghost pending = s@.subrange(clean as int, i as int);
        proof {
            assert(filter_prefix(s@, i as int + 1) == fp + filter_byte(s@, i as int));
        }
        if s[i] == 0x3c {
            let rest = tail(s, i + 1);
            proof {
                assert(rest@ =~= s@.subrange(i as int + 1, len as int));
            }
            if is_filtered_tag(rest) {
                append(out, slice(s, clean, i));
                crate::escape::push_escaped_byte(out, 0x3c);
                proof {
                    assert(filter_byte(s@, i as int) == lt_spec());
                    assert(out@ =~= prev + pending + lt_spec());
                    assert(s@.subrange(i as int + 1, i as int + 1) =~= Seq::<u8>::empty());
                    assert(out@ + s@.subrange(i as int + 1, i as int + 1) =~= old(out)@ + fp + lt_spec());
                }
                clean = i + 1;
            } else {
                proof {
                    assert(filter_byte(s@, i as int) == seq![s@[i as int]]);
                    assert(s@.subrange(clean as int, i as int + 1) =~= pending.push(s@[i as int]));
                    assert(out@ + pending.push(s@[i as int]) =~= old(out)@ + fp + seq![s@[i as int]]);
                }
            }
        } else {
            proof {
                assert(filter_byte(s@, i as int) == seq![s@[i as int]]);
                assert(s@.subrange(clean as int, i as int + 1) =~= pending.push(s@[i as int]));
                assert(out@ + pending.push(s@[i as int]) =~= old(out)@ + fp + seq![s@[i as int]]);
                if !s@.contains(0x3c) {
                    assert(s@[i as int] != 0x3c);
                }
            }
        }
        i += 1;
    }
    append(out, tail(s, clean));
    proof {
        assert(out@ =~= old(out)@ + filter_prefix(s@, len as int));
    }
}

} // verus!
