//! Calls into std that vstd gives no specification: turning output bytes
//! into a string, and the Unicode character tables.

use vstd::prelude::*;
use vstd::utf8::{valid_utf8, decode_utf8, is_scalar};

verus! {

/// What `char::is_alphanumeric` answers for `c` (Unicode `Alphabetic` or
/// `Numeric`).
pub uninterp spec fn unicode_alphanumeric(c: char) -> bool;

/// The UTF-8 bytes of what `char::to_lowercase` yields for `c`.
pub uninterp spec fn unicode_lowercase(c: char) -> Seq<u8>;

/// `String::from_utf8_lossy(b).into_owned()`: the string that `b` decodes to.
/// std documents that valid UTF-8 is returned unchanged; invalid sequences
/// become U+FFFD, which the contract leaves unsaid.
#[verifier::external_body]
pub fn string_from_bytes(b: &[u8]) -> (r: String)
    ensures
        valid_utf8(b@) ==> r@ == decode_utf8(b@),
{
    String::from_utf8_lossy(b).into_owned()
}

/// `char::from_u32`: the `char` whose scalar value is `cp`, when `cp` is a
/// Unicode scalar value.
#[verifier::external_body]
pub fn char_from_u32(cp: u32) -> (r: Option<char>)
    ensures
        r is Some <==> is_scalar(cp),
        r matches Some(c) ==> c as u32 == cp,
{
    char::from_u32(cp)
}

/// `char::is_alphanumeric`. For ASCII it is exactly `[0-9A-Za-z]` (std's
/// documented `Alphabetic`/`Numeric` restricted to ASCII).
#[verifier::external_body]
pub fn char_is_alphanumeric(c: char) -> (r: bool)
    ensures
        r == unicode_alphanumeric(c),
        (c as u32) < 0x80 ==> (r == ((0x30 <= (c as u32) <= 0x39) || (0x41 <= (c as u32) <= 0x5a)
            || (0x61 <= (c as u32) <= 0x7a))),
{
    c.is_alphanumeric()
}

/// `char::to_lowercase`, collected to its UTF-8 bytes. For an ASCII
/// uppercase letter it is the matching lowercase letter.
#[verifier::external_body]
pub fn char_lowercase(c: char) -> (r: Vec<u8>)
    ensures
        r@ == unicode_lowercase(c),
        (0x41 <= (c as u32) <= 0x5a) ==> r@ == seq![((c as u32) + 0x20) as u8],
{
    c.to_lowercase().to_string().into_bytes()
}

} // verus!
