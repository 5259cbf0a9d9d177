//! Length-prefixed framing of an output buffer for a host that reads raw
//! memory: `[u32 little-endian length][bytes]`.

use vstd::prelude::*;
use crate::bytes::append;

verus! {

/// The four little-endian bytes of `n`.
pub open spec fn le32(n: u32) -> Seq<u8> {
    seq![(n & 0xff) as u8, ((n >> 8) & 0xff) as u8, ((n >> 16) & 0xff) as u8, ((n >> 24) & 0xff) as u8]
}

/// `bytes` behind its length as a little-endian `u32`.
pub fn framed(bytes: &[u8]) -> (r: Vec<u8>)
    requires
        bytes@.len() <= u32::MAX,
    ensures
        r@ == le32(bytes@.len() as u32) + bytes@,
{
    let n = bytes.len() as u32;
    let mut out: Vec<u8> = Vec::new();
    out.push((n & 0xff) as u8);
    out.push(((n >> 8) & 0xff) as u8);
    out.push(((n >> 16) & 0xff) as u8);
    out.push(((n >> 24) & 0xff) as u8);
    append(&mut out, bytes);
    out
}

/// Framing law: reading the four length bytes back as a little-endian
/// `u32` gives the length they were made from.
pub proof fn lemma_frame_len(n: u32)
    ensures
        ({
            let s = le32(n);
            (s[0] as u32) | ((s[1] as u32) << 8) | ((s[2] as u32) << 16) | ((s[3] as u32) << 24) == n
        }),
{
    let b0 = (n & 0xff) as u8;
    let b1 = ((n >> 8) & 0xff) as u8;
    let b2 = ((n >> 16) & 0xff) as u8;
    let b3 = ((n >> 24) & 0xff) as u8;
    assert(b0 == (n & 0xff) as u8 && b1 == ((n >> 8) & 0xff) as u8 && b2 == ((n >> 16) & 0xff) as u8
        && b3 == ((n >> 24) & 0xff) as u8 ==> (b0 as u32) | ((b1 as u32) << 8) | ((b2 as u32) << 16)
        | ((b3 as u32) << 24) == n) by (bit_vector);
}

} // verus!
