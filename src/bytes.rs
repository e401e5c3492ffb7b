//! Byte-level building blocks shared by the wire format and the record formats.
use vstd::bytes::*;
use vstd::prelude::*;

verus! {

/// Big-endian encoding of a `u32`, as used by frame and record length prefixes.
pub open spec fn be32(x: u32) -> Seq<u8> {
    seq![(x >> 24u32) as u8, ((x >> 16u32) & 0xffu32) as u8, ((x >> 8u32) & 0xffu32) as u8, (x & 0xffu32) as u8]
}

/// The `u32` whose big-endian encoding is the first four bytes of `s`.
pub open spec fn be32_value(s: Seq<u8>) -> u32
    recommends
        s.len() >= 4,
{
    ((s[0] as u32) << 24u32) | ((s[1] as u32) << 16u32) | ((s[2] as u32) << 8u32) | (s[3] as u32)
}

pub proof fn lemma_be32_round_trip(x: u32)
    ensures
        be32(x).len() == 4,
        be32_value(be32(x)) == x,
{
    assert(((x >> 24u32) as u8) as u32 == x >> 24u32) by (bit_vector);
    assert((((x >> 16u32) & 0xffu32) as u8) as u32 == (x >> 16u32) & 0xffu32) by (bit_vector);
    assert((((x >> 8u32) & 0xffu32) as u8) as u32 == (x >> 8u32) & 0xffu32) by (bit_vector);
    assert(((x & 0xffu32) as u8) as u32 == x & 0xffu32) by (bit_vector);
    assert(((x >> 24u32) << 24u32) | (((x >> 16u32) & 0xffu32) << 16u32) | (((x >> 8u32)
        & 0xffu32) << 8u32) | (x & 0xffu32) == x) by (bit_vector);
}

/// Encodes `x` as four big-endian bytes.
pub fn be32_bytes(x: u32) -> (r: [u8; 4])
    ensures
        r@ == be32(x),
{
    let r = [(x >> 24u32) as u8, ((x >> 16u32) & 0xffu32) as u8, ((x >> 8u32) & 0xffu32) as u8, (x & 0xffu32) as u8];
    assert(r@ =~= be32(x));
    r
}

/// Reads a big-endian `u32` from the first four bytes of `s`.
pub fn be32_read(s: &[u8]) -> (x: u32)
    requires
        s@.len() >= 4,
    ensures
        x == be32_value(s@),
{
    ((s[0] as u32) << 24u32) | ((s[1] as u32) << 16u32) | ((s[2] as u32) << 8u32) | (s[3] as u32)
}

/// Appends every byte of `src` to `out`.
pub fn append_bytes(out: &mut Vec<u8>, src: &[u8])
    ensures
        final(out)@ == old(out)@ + src@,
{
    let mut i: usize = 0;
    while i < src.len()
        invariant
            i <= src@.len(),
            out@ == old(out)@ + src@.subrange(0, i as int),
        decreases src@.len() - i,
    {
        out.push(src[i]);
        i = i + 1;
        assert(src@.subrange(0, i as int) =~= src@.subrange(0, i - 1 as int).push(src@[i - 1]));
    }
    assert(src@.subrange(0, src@.len() as int) =~= src@);
}

/// Copies `s[from..to]` into a fresh vector.
pub fn copy_range(s: &[u8], from: usize, to: usize) -> (r: Vec<u8>)
    requires
        from <= to <= s@.len(),
    ensures
        r@ == s@.subrange(from as int, to as int),
{
    let mut r: Vec<u8> = Vec::new();
    let mut i: usize = from;
    while i < to
        invariant
            from <= i <= to <= s@.len(),
            r@ == s@.subrange(from as int, i as int),
        decreases to - i,
    {
        r.push(s[i]);
        i = i + 1;
        assert(s@.subrange(from as int, i as int) =~= s@.subrange(from as int, i - 1 as int).push(s@[i - 1]));
    }
    r
}

/// Little-endian bytes of a `u64`, the integer layout inside payloads.
pub open spec fn le64(x: u64) -> Seq<u8> {
    spec_u64_to_le_bytes(x)
}

pub proof fn lemma_le64(x: u64)
    ensures
        le64(x).len() == 8,
        spec_u64_from_le_bytes(le64(x)) == x,
{
    lemma_auto_spec_u64_to_from_le_bytes();
}

} // verus!
