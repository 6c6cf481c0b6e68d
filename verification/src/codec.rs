//! Fixed-width big-endian encoding of logical row indices.
//!
//! Partition keys are the eight-byte big-endian image of the logical row
//! index, so the same index always yields the same key and distinct indices
//! always yield distinct keys — the properties round-trip validation needs.

use vstd::prelude::*;

verus! {

/// The eight big-endian bytes of `n`.
pub open spec fn spec_encode_u64(n: u64) -> Seq<u8> {
    seq![
        (n >> 56) as u8,
        (n >> 48) as u8,
        (n >> 40) as u8,
        (n >> 32) as u8,
        (n >> 24) as u8,
        (n >> 16) as u8,
        (n >> 8) as u8,
        n as u8,
    ]
}

/// The value whose eight big-endian bytes are `b`.
pub open spec fn spec_decode_u64(b: Seq<u8>) -> u64
    recommends
        b.len() == 8,
{
    (((b[0] as u64) << 56) | ((b[1] as u64) << 48) | ((b[2] as u64) << 40) | ((b[3] as u64) << 32)
        | ((b[4] as u64) << 24) | ((b[5] as u64) << 16) | ((b[6] as u64) << 8) | (b[7] as u64))
}

/// Decoding the encoding of `n` gives `n` back.
pub proof fn lemma_encode_decode_u64(n: u64)
    ensures
        spec_decode_u64(spec_encode_u64(n)) == n,
{
    assert((((n >> 56) as u8 as u64) << 56 | ((n >> 48) as u8 as u64) << 48 | ((n >> 40) as u8
        as u64) << 40 | ((n >> 32) as u8 as u64) << 32 | ((n >> 24) as u8 as u64) << 24 | ((n >> 16)
        as u8 as u64) << 16 | ((n >> 8) as u8 as u64) << 8 | (n as u8 as u64)) == n)
        by (bit_vector);
}

/// Distinct values have distinct encodings.
pub proof fn lemma_encode_u64_injective(a: u64, b: u64)
    requires
        spec_encode_u64(a) == spec_encode_u64(b),
    ensures
        a == b,
{
    lemma_encode_decode_u64(a);
    lemma_encode_decode_u64(b);
}

/// Encodes `n` as its eight big-endian bytes.
pub fn encode_u64(n: u64) -> (r: Vec<u8>)
    ensures
        r@ == spec_encode_u64(n),
        r@.len() == 8,
{
    let mut r: Vec<u8> = Vec::new();
    r.push((n >> 56) as u8);
    r.push((n >> 48) as u8);
    r.push((n >> 40) as u8);
    r.push((n >> 32) as u8);
    r.push((n >> 24) as u8);
    r.push((n >> 16) as u8);
    r.push((n >> 8) as u8);
    r.push(n as u8);
    proof {
        assert(r@ =~= spec_encode_u64(n));
    }
    r
}

/// Decodes eight big-endian bytes back into the value they encode.
pub fn decode_u64(b: &Vec<u8>) -> (r: u64)
    requires
        b@.len() == 8,
    ensures
        r == spec_decode_u64(b@),
{
    ((b[0] as u64) << 56) | ((b[1] as u64) << 48) | ((b[2] as u64) << 40) | ((b[3] as u64) << 32)
        | ((b[4] as u64) << 24) | ((b[5] as u64) << 16) | ((b[6] as u64) << 8) | (b[7] as u64)
}

} // verus!
