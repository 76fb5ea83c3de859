//! A 20-byte account address.
use vstd::prelude::*;
use crate::table::TableKey;

verus! {

broadcast use vstd::array::group_array_axioms;

/// An account or contract address: 20 bytes, most significant first.
#[derive(Clone, Copy, Debug, PartialEq, Eq)]
pub struct Address {
    pub bytes: [u8; 20],
}

impl Address {
    /// The address with the given bytes.
    pub fn new(bytes: [u8; 20]) -> (r: Address)
        ensures
            r.bytes == bytes,
    {
        Address { bytes }
    }

    /// Whether every byte of the address is zero.
    pub open spec fn is_zero(self) -> bool {
        forall|i: int| 0 <= i < 20 ==> self.bytes@[i] == 0
    }

    /// The all-zero address.
    pub fn zero() -> (r: Address)
        ensures
            r.is_zero(),
    {
        Address { bytes: [0u8; 20] }
    }

    /// Whether the two addresses are equal.
    pub fn same(&self, other: &Address) -> (r: bool)
        ensures
            r == (*self == *other),
    {
        let mut i: usize = 0;
        while i < 20
            invariant
                i <= 20,
                forall|j: int| 0 <= j < i ==> self.bytes@[j] == other.bytes@[j],
            decreases 20 - i,
        {
            if self.bytes[i] != other.bytes[i] {
                return false;
            }
            i = i + 1;
        }
        assert(self.bytes =~= other.bytes);
        true
    }
}

impl TableKey for Address {
    fn same_key(&self, other: &Self) -> (r: bool) {
        self.same(other)
    }
}

} // verus!
