//! The widths of the storage of an emitted type.

use vstd::prelude::*;

verus! {

/// The storage width chosen for the emitted bitmask type.
#[derive(Clone, Copy, PartialEq, Eq, Structural, Debug)]
pub enum FlagsType {
    U8,
    U16,
    U32,
    U64,
    U128,
}

impl FlagsType {
    /// Number of bits of the storage type.
    pub open spec fn bits(self) -> nat {
        match self {
            FlagsType::U8 => 8,
            FlagsType::U16 => 16,
            FlagsType::U32 => 32,
            FlagsType::U64 => 64,
            FlagsType::U128 => 128,
        }
    }

    /// Largest value that the storage type can hold.
    pub open spec fn max_value(self) -> u128 {
        match self {
            FlagsType::U8 => 0xFF,
            FlagsType::U16 => 0xFFFF,
            FlagsType::U32 => 0xFFFF_FFFF,
            FlagsType::U64 => 0xFFFF_FFFF_FFFF_FFFF,
            FlagsType::U128 => 0xFFFF_FFFF_FFFF_FFFF_FFFF_FFFF_FFFF_FFFF,
        }
    }

    /// The keyword of the storage type, as it is written in source text.
    pub open spec fn keyword(self) -> Seq<char> {
        match self {
            FlagsType::U8 => "u8"@,
            FlagsType::U16 => "u16"@,
            FlagsType::U32 => "u32"@,
            FlagsType::U64 => "u64"@,
            FlagsType::U128 => "u128"@,
        }
    }

    /// The keyword of the storage type.
    pub fn as_str(&self) -> (name: &'static str)
        ensures
            name@ == self.keyword(),
    {
        match self {
            FlagsType::U8 => "u8",
            FlagsType::U16 => "u16",
            FlagsType::U32 => "u32",
            FlagsType::U64 => "u64",
            FlagsType::U128 => "u128",
        }
    }

    /// Number of bytes of the storage type.
    pub fn size_in_bytes(&self) -> (size: usize)
        ensures
            size * 8 == self.bits(),
    {
        match self {
            FlagsType::U8 => 1,
            FlagsType::U16 => 2,
            FlagsType::U32 => 4,
            FlagsType::U64 => 8,
            FlagsType::U128 => 16,
        }
    }

    /// Largest flag value that fits the storage type.
    pub fn max(&self) -> (limit: u128)
        ensures
            limit == self.max_value(),
    {
        match self {
            FlagsType::U8 => 0xFF,
            FlagsType::U16 => 0xFFFF,
            FlagsType::U32 => 0xFFFF_FFFF,
            FlagsType::U64 => 0xFFFF_FFFF_FFFF_FFFF,
            FlagsType::U128 => 0xFFFF_FFFF_FFFF_FFFF_FFFF_FFFF_FFFF_FFFF,
        }
    }
}

} // verus!
