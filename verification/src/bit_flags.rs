//! What the operations of an emitted bitmask type compute.

use vstd::prelude::*;

verus! {

/// A value of an emitted bitmask type: the rules that the emitted operations
/// follow, on the widest storage.
#[derive(Clone, Copy, PartialEq, Eq, Structural, Debug)]
pub struct BitFlags {
    pub value: u128,
}

impl BitFlags {
    /// Every bit of `mask` is set in `self`, and `mask` is not empty.
    pub open spec fn has_all(self, mask: BitFlags) -> bool {
        (self.value & mask.value) == mask.value && mask.value != 0
    }

    /// At least one bit of `mask` is set in `self`.
    pub open spec fn has_one(self, mask: BitFlags) -> bool {
        (self.value & mask.value) != 0
    }

    /// `self` without the bits of `mask`.
    pub open spec fn without(self, mask: BitFlags) -> BitFlags {
        BitFlags { value: self.value & !mask.value }
    }

    /// `self` with the bits of `mask`.
    pub open spec fn with(self, mask: BitFlags) -> BitFlags {
        BitFlags { value: self.value | mask.value }
    }

    /// The bits that `self` and `mask` share.
    pub open spec fn common(self, mask: BitFlags) -> BitFlags {
        BitFlags { value: self.value & mask.value }
    }

    /// Tells whether all bits of `mask` are set. The empty mask is contained
    /// in nothing.
    pub fn contains(&self, mask: BitFlags) -> (found: bool)
        ensures
            found == self.has_all(mask),
            mask.value == 0 ==> !found,
    {
        ((self.value & mask.value) == mask.value) && (mask.value != 0)
    }

    /// Tells whether at least one bit of `mask` is set.
    pub fn contains_one(&self, mask: BitFlags) -> (found: bool)
        ensures
            found == self.has_one(mask),
    {
        (self.value & mask.value) != 0
    }

    /// Tells whether no bit is set.
    pub fn is_empty(&self) -> (empty: bool)
        ensures
            empty == (self.value == 0),
    {
        self.value == 0
    }

    /// Clears every bit.
    pub fn clear(&mut self)
        ensures
            final(self).value == 0,
    {
        self.value = 0;
    }

    /// Clears the bits of `mask`. Afterwards `self` does not contain `mask`,
    /// and a mask that shares no bit with `self` changes nothing.
    pub fn remove(&mut self, mask: BitFlags)
        ensures
            *final(self) == old(self).without(mask),
            !final(self).has_all(mask),
            !old(self).has_one(mask) ==> *final(self) == *old(self),
    {
        proof {
            lemma_remove(*self, mask);
        }
        let value = self.value;
        let bits = mask.value;
        assert((value & bits) <= value && value - (value & bits) == value & !bits) by (bit_vector);
        self.value = value - (value & bits);
    }

    /// Sets the bits of `mask`.
    pub fn set(&mut self, mask: BitFlags)
        ensures
            *final(self) == old(self).with(mask),
    {
        self.value = self.value | mask.value;
    }

    /// The raw value.
    pub fn get_value(&self) -> (value: u128)
        ensures
            value == self.value,
    {
        self.value
    }
}

/// Exactly one bit is set.
pub open spec fn is_single_bit(value: u128) -> bool {
    value != 0 && value & ((value - 1) as u128) == 0
}

/// After its bits are removed a mask is no longer contained, whatever the
/// value and the mask were. Removing a mask that shares no bit with the
/// value leaves the value as it is; for a mask of a single bit that is the
/// case whenever the value does not contain it.
pub proof fn lemma_remove(flags: BitFlags, mask: BitFlags)
    ensures
        !flags.without(mask).has_all(mask),
        !flags.has_one(mask) ==> flags.without(mask) == flags,
        is_single_bit(mask.value) && !flags.has_all(mask) ==> flags.without(mask) == flags,
{
    let v = flags.value;
    let m = mask.value;
    assert(((v & !m) & m) == m ==> m == 0) by (bit_vector);
    assert(v & m == 0 ==> v & !m == v) by (bit_vector);
    assert(m != 0 && m & ((m - 1) as u128) == 0 && (v & m) != m ==> v & !m == v) by (bit_vector);
}

/// The empty mask is contained in no value, the empty value included.
pub proof fn lemma_empty_mask_not_contained(flags: BitFlags)
    ensures
        !flags.has_all(BitFlags { value: 0 }),
{
}

impl core::ops::BitOr for BitFlags {
    type Output = BitFlags;

    fn bitor(self, rhs: BitFlags) -> (union: BitFlags) {
        BitFlags { value: self.value | rhs.value }
    }
}

impl vstd::std_specs::ops::BitOrSpecImpl for BitFlags {
    open spec fn obeys_bitor_spec() -> bool {
        true
    }

    open spec fn bitor_req(self, rhs: BitFlags) -> bool {
        true
    }

    open spec fn bitor_spec(self, rhs: BitFlags) -> BitFlags {
        self.with(rhs)
    }
}

impl core::ops::BitAnd for BitFlags {
    type Output = BitFlags;

    fn bitand(self, rhs: BitFlags) -> (shared: BitFlags) {
        BitFlags { value: self.value & rhs.value }
    }
}

impl vstd::std_specs::ops::BitAndSpecImpl for BitFlags {
    open spec fn obeys_bitand_spec() -> bool {
        true
    }

    open spec fn bitand_req(self, rhs: BitFlags) -> bool {
        true
    }

    open spec fn bitand_spec(self, rhs: BitFlags) -> BitFlags {
        self.common(rhs)
    }
}

impl core::ops::BitOrAssign for BitFlags {
    fn bitor_assign(&mut self, rhs: BitFlags)
        ensures
            *final(self) == old(self).with(rhs),
    {
        self.value = self.value | rhs.value;
    }
}

impl core::ops::BitAndAssign for BitFlags {
    fn bitand_assign(&mut self, rhs: BitFlags)
        ensures
            *final(self) == old(self).common(rhs),
    {
        self.value = self.value & rhs.value;
    }
}

impl Default for BitFlags {
    /// The empty value.
    fn default() -> (empty: BitFlags)
        ensures
            empty.value == 0,
    {
        BitFlags { value: 0 }
    }
}

} // verus!
