//! Where an owner's slot lives: the address derived from the owner's key.

use vstd::prelude::*;

verus! {

/// A key of the ledger: the identity of an owner, or the address of a slot.
pub type Key = [u8; 32];

/// The program under which every slot address is derived.
pub const PROGRAM_ID: Key = [
    67, 165, 68, 69, 244, 138, 205, 222, 97, 237, 176, 38, 189, 9, 7, 228,
    46, 48, 45, 162, 199, 182, 37, 190, 118, 71, 209, 111, 113, 38, 67, 32,
];

/// The tag that sets the addresses of blink lists apart: the bytes of
/// `blink_list`.
pub const LIST_SEED: [u8; 10] = [98, 108, 105, 110, 107, 95, 108, 105, 115, 116];

/// An address together with the bump seed that was needed to reach it.
#[derive(Clone, Copy, Debug, PartialEq, Eq)]
pub struct DerivedAddress {
    pub address: Key,
    pub bump: u8,
}

impl View for DerivedAddress {
    type V = (Seq<u8>, u8);

    open spec fn view(&self) -> (Seq<u8>, u8) {
        (self.address@, self.bump)
    }
}

/// What an optional derived address is to contracts.
pub open spec fn derived_view(derived: Option<DerivedAddress>) -> Option<(Seq<u8>, u8)> {
    match derived {
        Some(found) => Some(found@),
        None => None,
    }
}

/// The program derived address of `seeds` under `program_id`, with its bump
/// seed; `None` where no bump seed yields one.
pub uninterp spec fn program_address(seeds: Seq<Seq<u8>>, program_id: Seq<u8>) -> Option<
    (Seq<u8>, u8),
>;

/// The address of the slot that belongs to `owner`, with its bump seed.
pub open spec fn slot_address(owner: Seq<u8>) -> Option<(Seq<u8>, u8)> {
    program_address(seq![LIST_SEED@, owner], PROGRAM_ID@)
}

/// Calls `Pubkey::try_find_program_address`, the `Pubkey` being the one that
/// `anchor_lang::prelude` hands on from `solana_program`, on the two seeds
/// `tag` and `owner`.
///
/// Trusted, not proved: what comes back is settled by the seeds and the
/// program id alone, so that contracts can call it `program_address`. Nothing
/// more is claimed of it, and in particular not that two owners get two
/// addresses.
#[verifier::external_body]
fn try_find_program_address(tag: &[u8], owner: &Key, program_id: &Key) -> (derived: Option<
    DerivedAddress,
>)
    ensures
        derived_view(derived) == program_address(seq![tag@, owner@], program_id@),
{
    let program = anchor_lang::prelude::Pubkey::new_from_array(*program_id);
    match anchor_lang::prelude::Pubkey::try_find_program_address(&[tag, owner], &program) {
        Some((address, bump)) => Some(DerivedAddress { address: address.to_bytes(), bump }),
        None => None,
    }
}

/// Derives the address of the slot that belongs to `owner`: the program
/// derived address of the seeds `LIST_SEED` and `owner` under `PROGRAM_ID`.
/// The same owner always gets the same address and bump seed.
pub fn find_slot_address(owner: &Key) -> (derived: Option<DerivedAddress>)
    ensures
        derived_view(derived) == slot_address(owner@),
{
    try_find_program_address(LIST_SEED.as_slice(), owner, &PROGRAM_ID)
}

/// Whether two keys hold the same bytes.
pub fn same_key(a: &Key, b: &Key) -> (same: bool)
    ensures
        same == (a@ == b@),
{
    let mut i: usize = 0;
    while i < 32
        invariant
            i <= 32,
            forall|j: int| 0 <= j < i ==> a@[j] == b@[j],
        decreases 32 - i,
    {
        if a[i] != b[i] {
            return false;
        }
        i += 1;
    }
    assert(a@ =~= b@);
    true
}

} // verus!
