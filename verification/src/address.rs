//! Account identifiers.

use vstd::prelude::*;

verus! {

/// A 160-bit principal: the identity of an account, a vault or a venue.
#[derive(Clone, Copy, Debug)]
pub struct Address {
    bytes: [u8; 20],
}

impl Address {
    /// The twenty bytes of the identifier, most significant first.
    pub closed spec fn view(&self) -> Seq<u8> {
        self.bytes@
    }

    /// The address whose twenty bytes are all zero: the one that an unset
    /// entry reads as.
    pub closed spec fn spec_zero() -> Address {
        choose|a: Address| a@ == Seq::new(20, |i: int| 0u8)
    }

    #[verifier::when_used_as_spec(spec_zero)]
    pub fn zero() -> (a: Address)
        ensures
            a == Address::spec_zero(),
            a@ == Seq::new(20, |i: int| 0u8),
    {
        let a = Address { bytes: [0u8; 20] };
        proof {
            assert(a@ =~= Seq::new(20, |i: int| 0u8));
            a.lemma_view_injective(Address::spec_zero());
        }
        a
    }

    pub fn is_zero(&self) -> (r: bool)
        ensures
            r == (*self == Address::spec_zero()),
    {
        let z = Address::zero();
        self.same(&z)
    }

    /// The address with the given twenty bytes.
    pub closed spec fn from_seq(bytes: Seq<u8>) -> Address {
        choose|a: Address| a@ == bytes
    }

    /// An address is the address of its bytes.
    pub proof fn lemma_from_seq(self)
        ensures
            Address::from_seq(self@) == self,
            self@.len() == 20,
    {
        self.lemma_view_injective(Address::from_seq(self@));
    }

    /// Two addresses with the same bytes are the same address.
    pub proof fn lemma_view_injective(self, other: Address)
        ensures
            (self@ == other@) <==> (self == other),
    {
        if self@ == other@ {
            assert(self.bytes =~= other.bytes);
        }
    }

    pub fn from_bytes(bytes: [u8; 20]) -> (a: Address)
        ensures
            a@ == bytes@,
    {
        Address { bytes }
    }

    pub fn to_bytes(&self) -> (b: [u8; 20])
        ensures
            b@ == self@,
    {
        self.bytes
    }

    pub fn same(&self, other: &Address) -> (r: bool)
        ensures
            r == (*self == *other),
            r == (self@ == other@),
    {
        let mut i: usize = 0;
        while i < 20
            invariant
                i <= 20,
                forall|j: int| 0 <= j < i ==> self.bytes@[j] == other.bytes@[j],
            decreases 20 - i,
        {
            if self.bytes[i] != other.bytes[i] {
                return false;
            }
            i += 1;
        }
        assert(self.bytes =~= other.bytes);
        true
    }
}

impl PartialEq for Address {
    fn eq(&self, other: &Address) -> (r: bool) {
        self.same(other)
    }
}

impl Eq for Address {}

impl vstd::std_specs::cmp::PartialEqSpecImpl for Address {
    open spec fn obeys_eq_spec() -> bool {
        true
    }

    open spec fn eq_spec(&self, other: &Address) -> bool {
        *self == *other
    }
}

} // verus!
