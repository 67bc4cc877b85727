//! The errors an instruction can end with.

use vstd::prelude::*;

verus! {

/// Why an instruction failed. An instruction that fails leaves the slot it
/// was given exactly as it found it.
#[derive(Clone, Copy, Debug, PartialEq, Eq, Structural)]
pub enum ErrorCode {
    /// Reserved for a record whose id is already in the list; no instruction
    /// reports it.
    BlinkExists,
    /// The slot was never created, or its list is not marked as initialized.
    ListNotInitialized,
    /// The list would no longer fit in the bytes reserved for the slot.
    CapacityExceeded,
    /// The slot is not the one that belongs to the signer.
    AuthorizationFailed,
}

impl ErrorCode {
    /// The fixed text that goes with each error.
    pub open spec fn message_text(self) -> Seq<char> {
        match self {
            ErrorCode::BlinkExists => "Blink exists"@,
            ErrorCode::ListNotInitialized => "Blink does not exist"@,
            ErrorCode::CapacityExceeded => "Failed to serialize the account"@,
            ErrorCode::AuthorizationFailed => "A seeds constraint was violated"@,
        }
    }

    /// The human-readable message of this error.
    pub fn message(&self) -> (text: String)
        ensures
            text@ == self.message_text(),
    {
        match self {
            ErrorCode::BlinkExists => "Blink exists".to_owned(),
            ErrorCode::ListNotInitialized => "Blink does not exist".to_owned(),
            ErrorCode::CapacityExceeded => "Failed to serialize the account".to_owned(),
            ErrorCode::AuthorizationFailed => "A seeds constraint was violated".to_owned(),
        }
    }
}

} // verus!
