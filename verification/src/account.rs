use vstd::prelude::*;
use vstd::std_specs::cmp::PartialEqSpecImpl;

verus! {

/// An account identifier: a fixed-width byte identity. The ledger never looks inside
/// one; it only asks whether two of them are the same.
#[derive(Clone, Copy, Debug, Eq)]
pub struct AccountId {
    pub(crate) bytes: [u8; 32],
}

impl AccountId {
    /// The bytes that make up this identifier.
    pub closed spec fn spec_bytes(self) -> Seq<u8> {
        self.bytes@
    }

    /// The identifier made of the given bytes.
    pub fn new(bytes: [u8; 32]) -> (id: AccountId)
        ensures
            id.spec_bytes() == bytes@,
    {
        AccountId { bytes }
    }

    /// The bytes of this identifier.
    pub fn to_bytes(&self) -> (bytes: [u8; 32])
        ensures
            bytes@ == self.spec_bytes(),
    {
        self.bytes
    }

    /// An identifier is its bytes: two identifiers with the same 32 bytes are the same
    /// identifier.
    pub proof fn lemma_bytes_identify(self, other: AccountId)
        ensures
            self.spec_bytes().len() == 32,
            (self == other) <==> (self.spec_bytes() == other.spec_bytes()),
    {
        if self.spec_bytes() == other.spec_bytes() {
            assert forall|i: int| 0 <= i < 32 implies self.bytes[i] == other.bytes[i] by {
                assert(self.bytes[i] == self.bytes@[i]);
                assert(other.bytes[i] == other.bytes@[i]);
            }
            assert(self.bytes =~= other.bytes);
        }
    }
}

impl PartialEq for AccountId {
    fn eq(&self, other: &AccountId) -> (equal: bool) {
        let mut i: usize = 0;
        while i < 32
            invariant
                i <= 32,
                forall|j: int| 0 <= j < i ==> self.bytes[j] == other.bytes[j],
            decreases 32 - i,
        {
            if self.bytes[i] != other.bytes[i] {
                return false;
            }
            i += 1;
        }
        assert(self.bytes =~= other.bytes);
        true
    }
}

impl PartialEqSpecImpl for AccountId {
    open spec fn obeys_eq_spec() -> bool {
        true
    }

    open spec fn eq_spec(&self, other: &AccountId) -> bool {
        *self == *other
    }
}

} // verus!
