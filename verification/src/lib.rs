//! A keyed record store: every owner identity has one list of blinks, held in
//! a slot of fixed capacity whose address is derived from the owner.
//!
//! The crate holds the rules of that store: how a slot's address is derived,
//! what a list weighs once encoded, and what the three instructions
//! (`create_blink`, `delete_blink`, `close_blink`) do to a slot. Loading a slot
//! from a ledger and writing it back are left to the caller.

pub mod address;
pub mod blink;
pub mod blink_list;
pub mod error;
pub mod instructions;
pub mod theorems;

pub use address::{find_slot_address, DerivedAddress, Key, LIST_SEED, PROGRAM_ID};
pub use blink::{Blink, BlinkView};
pub use blink_list::{BlinkList, BlinkListView, SLOT_CAPACITY};
pub use error::ErrorCode;
pub use instructions::{
    close_blink, close_blink_at, create_blink, create_blink_at, delete_blink, delete_blink_at,
    CloseBlink, CreateBlink, DeleteBlink, Slot, SlotView,
};
