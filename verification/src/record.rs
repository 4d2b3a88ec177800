//! Byte layout of the block header and of the three kinds of record.
//!
//! ```text
//! Block:   [0xD2][len_hi][len_lo][0x41]  <record>*
//! Nop:     [0xC0][0x00][0x04][0x00]
//! Check:   [0xCF][len_hi][len_lo][width|cond] [addr:4][mask:4] [count:4]?
//! Write:   [0xCC][len_hi][len_lo][width|op]  ([addr:4][value:4])+
//! ```

use crate::bytes::{be16, be32, u16_to_be, u32_to_be};
use crate::command::{Check, Write};
use vstd::prelude::*;

verus! {

/// The largest length that the 16-bit length field of a header can say.
pub const MAX_BYTE_LEN: usize = 0xFFFF;

/// The most writes that one write record can hold.
pub const MAX_GROUP_SIZE: usize = 8191;

/// The whole record of a `Nop` command.
pub const NOP_HEADER: [u8; 4] = [0xC0, 0x00, 0x04, 0x00];

/// The header of a block of `byte_len` bytes, the header's own four included.
pub open spec fn dcd_header_bytes(byte_len: u16) -> Seq<u8> {
    seq![0xD2u8] + be16(byte_len) + seq![0x41u8]
}

/// The record of a `Nop` command: four bytes, no payload.
pub open spec fn nop_record() -> Seq<u8> {
    seq![0xC0u8, 0x00u8, 0x04u8, 0x00u8]
}

/// The header of a block of `byte_len` bytes.
pub fn dcd_header(byte_len: u16) -> (header: [u8; 4])
    ensures
        header@ == dcd_header_bytes(byte_len),
{
    let len = u16_to_be(byte_len);
    [0xD2, len[0], len[1], 0x41]
}

impl Write {
    /// The flag byte of a record of writes like this one: width and operation, OR-ed.
    pub open spec fn spec_flags(&self) -> u8 {
        self.width.tag() | self.op.tag()
    }

    /// The flag byte of a record of writes like this one.
    #[verifier::when_used_as_spec(spec_flags)]
    pub fn flags(&self) -> (flags: u8)
        ensures
            flags == self.spec_flags(),
    {
        self.width.tag() | self.op.tag()
    }

    /// Length of the record that holds `group_size` writes: a header and eight bytes each.
    pub open spec fn spec_byte_len(group_size: nat) -> nat {
        4 + group_size * 8
    }

    /// Length of the record that holds `group_size` writes, which must fit the 16-bit
    /// length field of its header.
    pub fn byte_len(group_size: usize) -> (n: u16)
        requires
            Self::spec_byte_len(group_size as nat) <= u16::MAX,
        ensures
            n == Self::spec_byte_len(group_size as nat),
    {
        (4 + group_size * 8) as u16
    }

    /// The header of the record that holds `group_size` writes like this one.
    pub open spec fn header_bytes(self, group_size: nat) -> Seq<u8> {
        seq![0xCCu8] + be16(Self::spec_byte_len(group_size) as u16) + seq![self.spec_flags()]
    }

    /// The header of the record that holds `group_size` writes like this one.
    pub fn header(&self, group_size: usize) -> (header: [u8; 4])
        requires
            Self::spec_byte_len(group_size as nat) <= u16::MAX,
        ensures
            header@ == self.header_bytes(group_size as nat),
    {
        let len = u16_to_be(Self::byte_len(group_size));
        [0xCC, len[0], len[1], self.flags()]
    }

    /// What this write adds to its record: address, then value.
    pub open spec fn payload_bytes(self) -> Seq<u8> {
        be32(self.address) + be32(self.value)
    }

    /// Address, then value, big-endian.
    pub fn payload(&self) -> (payload: [u8; 8])
        ensures
            payload@ == self.payload_bytes(),
    {
        let a = u32_to_be(self.address);
        let v = u32_to_be(self.value);
        [a[0], a[1], a[2], a[3], v[0], v[1], v[2], v[3]]
    }
}

impl Check {
    /// The flag byte of this check's record: width and condition, OR-ed.
    pub open spec fn spec_flags(&self) -> u8 {
        self.width.tag() | self.cond.tag()
    }

    /// The flag byte of this check's record.
    #[verifier::when_used_as_spec(spec_flags)]
    pub fn flags(&self) -> (flags: u8)
        ensures
            flags == self.spec_flags(),
    {
        self.width.tag() | self.cond.tag()
    }

    /// Length of this check's record: sixteen bytes with a poll count, twelve without.
    pub open spec fn spec_byte_len(&self) -> u16 {
        if self.count is Some {
            16
        } else {
            12
        }
    }

    /// Length of this check's record.
    #[verifier::when_used_as_spec(spec_byte_len)]
    pub fn byte_len(&self) -> (n: u16)
        ensures
            n == self.spec_byte_len(),
    {
        if self.count.is_some() {
            16
        } else {
            12
        }
    }

    /// The header of this check's record.
    pub open spec fn header_bytes(self) -> Seq<u8> {
        seq![0xCFu8] + be16(self.spec_byte_len()) + seq![self.spec_flags()]
    }

    /// The header of this check's record.
    pub fn header(&self) -> (header: [u8; 4])
        ensures
            header@ == self.header_bytes(),
    {
        let len = u16_to_be(self.byte_len());
        [0xCF, len[0], len[1], self.flags()]
    }

    /// Address, then mask: the payload of a check that polls without limit.
    pub open spec fn payload_bytes(self) -> Seq<u8> {
        be32(self.address) + be32(self.mask)
    }

    /// Address, then mask, big-endian.
    pub fn payload(&self) -> (payload: [u8; 8])
        ensures
            payload@ == self.payload_bytes(),
    {
        let a = u32_to_be(self.address);
        let m = u32_to_be(self.mask);
        [a[0], a[1], a[2], a[3], m[0], m[1], m[2], m[3]]
    }

    /// Address, mask, then poll count: the payload of a check that has one.
    pub open spec fn payload_with_count_bytes(self) -> Seq<u8>
        recommends
            self.count is Some,
    {
        be32(self.address) + be32(self.mask) + be32(self.count->Some_0)
    }

    /// Address, mask, then poll count, big-endian. The check must have a poll count.
    pub fn payload_with_count(&self) -> (payload: [u8; 12])
        requires
            self.count is Some,
        ensures
            payload@ == self.payload_with_count_bytes(),
    {
        let a = u32_to_be(self.address);
        let m = u32_to_be(self.mask);
        let c = u32_to_be(self.count.unwrap());
        [a[0], a[1], a[2], a[3], m[0], m[1], m[2], m[3], c[0], c[1], c[2], c[3]]
    }

    /// The whole record of this check: its header, then the payload that its count calls for.
    pub open spec fn record_bytes(self) -> Seq<u8> {
        if self.count is Some {
            self.header_bytes() + self.payload_with_count_bytes()
        } else {
            self.header_bytes() + self.payload_bytes()
        }
    }
}

} // verus!
