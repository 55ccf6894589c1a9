//! Accounts: opaque fixed-width identifiers supplied by the host ledger.
//!
//! An account has no internal structure beyond equality of its 32 raw
//! bytes; it keys relayers, subscribers, reporters and the challenger.

use vstd::prelude::*;

verus! {

broadcast use vstd::array::group_array_axioms;

/// An opaque fixed-width account identifier from the host ledger.
#[derive(Clone, Copy, PartialEq, Eq, Hash, Debug)]
pub struct AccountId {
    pub bytes: [u8; 32],
}

impl View for AccountId {
    type V = Seq<u8>;

    open spec fn view(&self) -> Seq<u8> {
        self.bytes@
    }
}

impl AccountId {
    /// Builds an account identifier from its raw bytes.
    pub fn from_bytes(bytes: [u8; 32]) -> (r: AccountId)
        ensures
            r.bytes == bytes,
    {
        AccountId { bytes }
    }
}

/// Decides equality of two account identifiers by their bytes.
pub fn account_eq(a: &AccountId, b: &AccountId) -> (r: bool)
    ensures
        r == (a == b),
{
    let mut i: usize = 0;
    while i < 32
        invariant
            0 <= i <= 32,
            forall|j: int| 0 <= j < i ==> a.bytes@[j] == b.bytes@[j],
        decreases 32 - i,
    {
        if a.bytes[i] != b.bytes[i] {
            return false;
        }
        i += 1;
    }
    proof {
        assert(a.bytes =~= b.bytes);
    }
    true
}

} // verus!
