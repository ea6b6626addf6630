//! Account addresses and signatures as the sequencer handles them: plain bytes.

use vstd::prelude::*;

verus! {

/// A 20-byte account address.
#[derive(Clone, Copy, Debug)]
pub struct Address(pub [u8; 20]);

impl View for Address {
    type V = Seq<u8>;

    open spec fn view(&self) -> Seq<u8> {
        self.0@
    }
}

impl PartialEq for Address {
    fn eq(&self, other: &Self) -> (same: bool) {
        let mut i: usize = 0;
        while i < 20
            invariant
                i <= 20,
                forall|j: int| 0 <= j < i ==> self.0@[j] == other.0@[j],
            decreases 20 - i,
        {
            if self.0[i] != other.0[i] {
                return false;
            }
            i = i + 1;
        }
        proof {
            assert(self.0@ =~= other.0@);
        }
        true
    }
}

impl vstd::std_specs::cmp::PartialEqSpecImpl for Address {
    open spec fn obeys_eq_spec() -> bool {
        true
    }

    open spec fn eq_spec(&self, other: &Self) -> bool {
        self.0@ == other.0@
    }
}

impl Eq for Address {}

impl Address {
    /// The all-zero address.
    pub fn zero() -> (address: Address)
        ensures
            forall|i: int| 0 <= i < 20 ==> address@[i] == 0,
    {
        Address([0u8; 20])
    }

    /// Whether two addresses hold the same bytes.
    pub fn same_as(&self, other: &Address) -> (same: bool)
        ensures
            same == (self@ == other@),
    {
        *self == *other
    }
}

/// A signature as produced by a signer: its raw bytes.
#[derive(Clone, Debug)]
pub struct Signature(pub Vec<u8>);

} // verus!
