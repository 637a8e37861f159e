//! Ledger addresses.

use vstd::prelude::*;

verus! {

/// A 32-byte ledger address. It names an account, an owner or a facility.
///
/// Its view is the sequence of its bytes; two identities are the same party
/// exactly when their views are equal.
#[derive(Clone, Copy, Debug, PartialEq, Eq)]
pub struct Identity {
    pub bytes: [u8; 32],
}

impl View for Identity {
    type V = Seq<u8>;

    open spec fn view(&self) -> Seq<u8> {
        self.bytes@
    }
}

/// The address of the asset-custody facility, byte by byte.
pub open spec fn custody_program_id() -> Seq<u8> {
    seq![
        6u8, 221u8, 246u8, 225u8, 215u8, 101u8, 161u8, 147u8,
        217u8, 203u8, 225u8, 70u8, 206u8, 235u8, 121u8, 172u8,
        28u8, 180u8, 133u8, 237u8, 95u8, 91u8, 55u8, 145u8,
        58u8, 140u8, 245u8, 133u8, 126u8, 255u8, 0u8, 169u8,
    ]
}

/// The address of the generic system facility: thirty-two zero bytes.
pub open spec fn system_program_id() -> Seq<u8> {
    Seq::new(32, |i: int| 0u8)
}

impl Identity {
    /// The identity with the given bytes.
    pub fn new(bytes: [u8; 32]) -> (id: Identity)
        ensures
            id@ == bytes@,
            id.bytes == bytes,
    {
        Identity { bytes }
    }

    /// Whether `self` and `other` name the same party.
    pub fn same(&self, other: &Identity) -> (equal: bool)
        ensures
            equal == (self@ == other@),
    {
        let mut i: usize = 0;
        while i < 32
            invariant
                i <= 32,
                forall|j: int| 0 <= j < i ==> self.bytes@[j] == other.bytes@[j],
            decreases 32 - i,
        {
            if self.bytes[i] != other.bytes[i] {
                return false;
            }
            i += 1;
        }
        assert(self@ =~= other@);
        true
    }

    /// The asset-custody facility's address.
    pub fn custody_program() -> (id: Identity)
        ensures
            id@ == custody_program_id(),
    {
        let id = Identity {
            bytes: [
                6, 221, 246, 225, 215, 101, 161, 147,
                217, 203, 225, 70, 206, 235, 121, 172,
                28, 180, 133, 237, 95, 91, 55, 145,
                58, 140, 245, 133, 126, 255, 0, 169,
            ],
        };
        assert(id@ =~= custody_program_id());
        id
    }

    /// The generic system facility's address.
    pub fn system_program() -> (id: Identity)
        ensures
            id@ == system_program_id(),
    {
        let id = Identity { bytes: [0u8; 32] };
        assert(id@ =~= system_program_id());
        id
    }
}

} // verus!
