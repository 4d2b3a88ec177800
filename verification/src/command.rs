//! The command data model: what a DCD block can ask the boot ROM to do.

use vstd::prelude::*;

verus! {

/// Byte width of the bus read/write.
#[derive(Debug, Copy, Clone, PartialEq, Eq, Structural)]
pub enum Width {
    /// 1 byte / 8 bit
    B1,
    /// 2 bytes / 16 bit
    B2,
    /// 4 bytes / 32 bit
    B4,
}

/// Write operation variant.
#[derive(Debug, Copy, Clone, PartialEq, Eq, Structural)]
pub enum WriteOp {
    /// `*address = value` --- direct write
    Write,
    /// `*address &= !value` --- clear bits (read-modify-write)
    Clear,
    /// `*address |= value` --- set bits (read-modify-write)
    SetBits,
}

/// Check condition variant.
#[derive(Debug, Copy, Clone, PartialEq, Eq, Structural)]
pub enum CheckCond {
    /// `(*address & mask) == 0` --- All masked bits are 0 in value
    AllClear,
    /// `(*address & mask) != mask` --- Some masked bits are 0 in value
    AnyClear,
    /// `(*address & mask) == mask` --- All masked bits are 1 in value
    AllSet,
    /// `(*address & mask) != 0` --- Some masked bits are 1 in value
    AnySet,
}

/// DCD command for writing a value to an address.
#[derive(Debug, Clone, PartialEq, Eq, Structural)]
pub struct Write {
    /// Width of the bus write.
    pub width: Width,
    /// Writing operation --- see [`WriteOp`].
    pub op: WriteOp,
    /// Address to be written to. Note that the ROM may enforce valid address ranges.
    pub address: u32,
    /// Value to write, or the bits to clear or set.
    pub value: u32,
}

/// DCD command for polling an address until the value matches a given bitmask condition.
#[derive(Debug, Clone, PartialEq, Eq, Structural)]
pub struct Check {
    /// Width of the bus read.
    pub width: Width,
    /// Condition to check --- see [`CheckCond`].
    pub cond: CheckCond,
    /// Address to read from. Unlike [`Write::address`], any address is valid.
    pub address: u32,
    /// Bitmask to check the value against --- see [`CheckCond`].
    pub mask: u32,
    /// Optional poll count:
    /// - `None` => poll indefinitely
    /// - `Some(0)` => equivalent to [`Command::Nop`]
    /// - `Some(x) if x > 0` => poll at most `x` times; if the condition still is not satisfied,
    ///   the boot ROM will abandon interpreting the rest of the DCD.
    pub count: Option<u32>,
}

/// A DCD command.
#[derive(Debug, Clone, PartialEq, Eq, Structural)]
pub enum Command {
    /// Dummy command --- may behave as a small delay.
    Nop,
    /// DCD command for writing a value to an address; [`Write`].
    Write(Write),
    /// DCD command for polling an address until the value matches a given bitmask condition; [`Check`].
    Check(Check),
}

impl Width {
    /// The tag that stands for this width in bits [2:0] of a record's flag byte.
    pub open spec fn spec_tag(self) -> u8 {
        match self {
            Width::B1 => 0b001,
            Width::B2 => 0b010,
            Width::B4 => 0b100,
        }
    }

    /// The tag of this variant in a record's flag byte.
    #[verifier::when_used_as_spec(spec_tag)]
    pub fn tag(self) -> (tag: u8)
        ensures
            tag == self.spec_tag(),
    {
        match self {
            Width::B1 => 0b001,
            Width::B2 => 0b010,
            Width::B4 => 0b100,
        }
    }
}

impl Width {
    /// The width of a bus access that moves `byte_count` bytes, if there is one.
    pub fn from_byte_count(byte_count: usize) -> (width: Option<Width>)
        ensures
            width == match byte_count {
                1 => Some(Width::B1),
                2 => Some(Width::B2),
                4 => Some(Width::B4),
                _ => None,
            },
    {
        match byte_count {
            1 => Some(Width::B1),
            2 => Some(Width::B2),
            4 => Some(Width::B4),
            _ => None,
        }
    }
}

impl WriteOp {
    /// The tag that stands for this operation in bits [4:3] of a write record's flag byte.
    pub open spec fn spec_tag(self) -> u8 {
        match self {
            WriteOp::Write => 0b00_000,
            WriteOp::Clear => 0b01_000,
            WriteOp::SetBits => 0b11_000,
        }
    }

    /// The tag of this variant in a record's flag byte.
    #[verifier::when_used_as_spec(spec_tag)]
    pub fn tag(self) -> (tag: u8)
        ensures
            tag == self.spec_tag(),
    {
        match self {
            WriteOp::Write => 0b00_000,
            WriteOp::Clear => 0b01_000,
            WriteOp::SetBits => 0b11_000,
        }
    }
}

impl CheckCond {
    /// The tag that stands for this condition in bits [4:3] of a check record's flag byte.
    pub open spec fn spec_tag(self) -> u8 {
        match self {
            CheckCond::AllClear => 0b00_000,
            CheckCond::AnyClear => 0b01_000,
            CheckCond::AllSet => 0b10_000,
            CheckCond::AnySet => 0b11_000,
        }
    }

    /// The tag of this variant in a record's flag byte.
    #[verifier::when_used_as_spec(spec_tag)]
    pub fn tag(self) -> (tag: u8)
        ensures
            tag == self.spec_tag(),
    {
        match self {
            CheckCond::AllClear => 0b00_000,
            CheckCond::AnyClear => 0b01_000,
            CheckCond::AllSet => 0b10_000,
            CheckCond::AnySet => 0b11_000,
        }
    }
}

impl Default for Width {
    fn default() -> (width: Self)
        ensures
            width == Width::B4,
    {
        Width::B4
    }
}

impl Default for WriteOp {
    fn default() -> (op: Self)
        ensures
            op == WriteOp::Write,
    {
        WriteOp::Write
    }
}

impl Default for CheckCond {
    fn default() -> (cond: Self)
        ensures
            cond == CheckCond::AllClear,
    {
        CheckCond::AllClear
    }
}

impl Default for Write {
    fn default() -> (write: Self)
        ensures
            write == (Write { width: Width::B4, op: WriteOp::Write, address: 0, value: 0 }),
    {
        Write { width: Width::default(), op: WriteOp::default(), address: 0, value: 0 }
    }
}

impl Default for Check {
    fn default() -> (check: Self)
        ensures
            check == (Check {
                width: Width::B4,
                cond: CheckCond::AllClear,
                address: 0,
                mask: 0,
                count: None,
            }),
    {
        Check {
            width: Width::default(),
            cond: CheckCond::default(),
            address: 0,
            mask: 0,
            count: None,
        }
    }
}

impl Default for Command {
    fn default() -> (command: Self)
        ensures
            command == Command::Nop,
    {
        Command::Nop
    }
}

} // verus!
