//! Big-endian byte order, in which every multi-byte integer of a DCD block is written.

use vstd::prelude::*;

verus! {

/// The two bytes of `n`, most significant first.
pub open spec fn be16(n: u16) -> Seq<u8> {
    seq![(n / 0x100) as u8, (n % 0x100) as u8]
}

/// The four bytes of `n`, most significant first.
pub open spec fn be32(n: u32) -> Seq<u8> {
    seq![
        (n / 0x100_0000) as u8,
        (n / 0x1_0000 % 0x100) as u8,
        (n / 0x100 % 0x100) as u8,
        (n % 0x100) as u8,
    ]
}

/// The number that the first two bytes of `bytes` say, most significant first.
pub open spec fn be16_value(bytes: Seq<u8>) -> int
    recommends
        bytes.len() >= 2,
{
    bytes[0] * 0x100 + bytes[1]
}

/// The number that the first four bytes of `bytes` say, most significant first.
pub open spec fn be32_value(bytes: Seq<u8>) -> int
    recommends
        bytes.len() >= 4,
{
    bytes[0] * 0x100_0000 + bytes[1] * 0x1_0000 + bytes[2] * 0x100 + bytes[3]
}

/// Reading back the two bytes of a number gives the number.
pub proof fn lemma_be16_round_trip(n: u16)
    ensures
        be16(n).len() == 2,
        be16_value(be16(n)) == n,
{
}

/// Reading back the four bytes of a number gives the number.
pub proof fn lemma_be32_round_trip(n: u32)
    ensures
        be32(n).len() == 4,
        be32_value(be32(n)) == n,
{
}

/// Splits `n` into its two bytes, most significant first.
pub fn u16_to_be(n: u16) -> (bytes: [u8; 2])
    ensures
        bytes@ == be16(n),
{
    let hi: u8 = (n >> 8) as u8;
    let lo: u8 = (n & 0xff) as u8;
    proof {
        assert(n >> 8 == n / 0x100) by (bit_vector);
        assert(n & 0xff == n % 0x100) by (bit_vector);
    }
    [hi, lo]
}

/// Splits `n` into its four bytes, most significant first.
pub fn u32_to_be(n: u32) -> (bytes: [u8; 4])
    ensures
        bytes@ == be32(n),
{
    let b0: u8 = (n >> 24) as u8;
    let b1: u8 = ((n >> 16) & 0xff) as u8;
    let b2: u8 = ((n >> 8) & 0xff) as u8;
    let b3: u8 = (n & 0xff) as u8;
    proof {
        assert(n >> 24 == n / 0x100_0000) by (bit_vector);
        assert((n >> 16) & 0xff == n / 0x1_0000 % 0x100) by (bit_vector);
        assert((n >> 8) & 0xff == n / 0x100 % 0x100) by (bit_vector);
        assert(n & 0xff == n % 0x100) by (bit_vector);
    }
    [b0, b1, b2, b3]
}

/// Appends `bytes` to `sink`.
pub fn append(sink: &mut Vec<u8>, bytes: &[u8])
    ensures
        final(sink)@ == old(sink)@ + bytes@,
{
    sink.extend_from_slice(bytes);
}

} // verus!
