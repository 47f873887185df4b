//! The SCALE encoding of the tags that unsigned transactions provide.

use vstd::prelude::*;
use parity_scale_codec::Encode;

verus! {

/// The SCALE compact encoding of a collection's length `n`, at most
/// `u32::MAX`: one byte `n << 2` below 2^6, two little-endian bytes of
/// `(n << 2) | 1` below 2^14, four of `(n << 2) | 2` below 2^30, and
/// otherwise the byte `3` followed by the four little-endian bytes of `n`.
pub open spec fn compact_len(n: nat) -> Seq<u8> {
    if n < 0x40 {
        seq![(n * 4) as u8]
    } else if n < 0x4000 {
        let v = n * 4 + 1;
        seq![(v % 0x100) as u8, (v / 0x100) as u8]
    } else if n < 0x4000_0000 {
        let v = n * 4 + 2;
        seq![
            (v % 0x100) as u8,
            ((v / 0x100) % 0x100) as u8,
            ((v / 0x1_0000) % 0x100) as u8,
            (v / 0x100_0000) as u8,
        ]
    } else {
        seq![
            3u8,
            (n % 0x100) as u8,
            ((n / 0x100) % 0x100) as u8,
            ((n / 0x1_0000) % 0x100) as u8,
            (n / 0x100_0000) as u8,
        ]
    }
}

/// The SCALE encoding of a byte string: its compact length, then its bytes.
pub open spec fn scale_bytes(b: Seq<u8>) -> Seq<u8> {
    compact_len(b.len()) + b
}

/// `Encode::encode` of the pair `(prefix, [tag])`, which is how
/// `ValidTransactionBuilder::and_provides([tag])` of `sp-runtime` encodes a
/// tag under a prefix: the encoded prefix followed by the encoded tag (an
/// array of one item adds no length of its own). Encoding panics on a
/// collection longer than `u32::MAX`.
#[verifier::external_body]
pub(crate) fn encode_prefixed_tag(prefix: &Vec<u8>, tag: &Vec<u8>) -> (r: Vec<u8>)
    requires
        prefix@.len() <= u32::MAX,
        tag@.len() <= u32::MAX,
    ensures
        r@ == scale_bytes(prefix@) + scale_bytes(tag@),
{
    (prefix, [tag]).encode()
}

} // verus!
