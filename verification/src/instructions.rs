//! The three instructions, and the accounts that each of them is given.
//!
//! An instruction is handed the slot to work on and the key of the signer. It
//! works only on the slot whose address is derived from that key, and it
//! either succeeds or leaves everything as it was.

use vstd::prelude::*;

use crate::address::{derived_view, find_slot_address, same_key, slot_address, DerivedAddress, Key};
use crate::blink::{Blink, BlinkView};
use crate::blink_list::{
    lemma_blinks_len_push, BlinkList, BlinkListView, FIXED_LEN, SLOT_CAPACITY,
};
use crate::error::ErrorCode;

verus! {

/// A slot of the ledger as contracts see it.
pub struct SlotView {
    pub address: Seq<u8>,
    pub list: Option<BlinkListView>,
}

impl SlotView {
    /// The slot holds a list that is marked as initialized.
    pub open spec fn is_initialized(self) -> bool {
        self.list matches Some(list) && list.is_initialized
    }

    /// The list that the slot stands for: the one it holds where that is
    /// marked as initialized. A slot that was never created, or whose list is
    /// not marked, stands for the empty list, whatever it holds.
    pub open spec fn live_list(self) -> BlinkListView {
        match self.list {
            Some(list) if list.is_initialized => list,
            _ => BlinkListView::empty(),
        }
    }

    /// The slot with `list` in it.
    pub open spec fn holding(self, list: BlinkListView) -> SlotView {
        SlotView { address: self.address, list: Some(list) }
    }
}

/// The storage of one owner's list: an address of the ledger and, once the
/// slot was created, the list that it holds.
#[derive(Clone, Debug, PartialEq, Eq)]
pub struct Slot {
    pub address: Key,
    pub list: Option<BlinkList>,
}

impl View for Slot {
    type V = SlotView;

    open spec fn view(&self) -> SlotView {
        SlotView {
            address: self.address@,
            list: match self.list {
                Some(list) => Some(list@),
                None => None,
            },
        }
    }
}

/// The accounts of `create_blink`. The slot may be one that was never
/// created: the instruction then creates it.
#[derive(Clone, Debug, PartialEq, Eq)]
pub struct CreateBlink {
    pub blink_list: Slot,
    pub signer: Key,
}

/// The accounts of `delete_blink`.
#[derive(Clone, Debug, PartialEq, Eq)]
pub struct DeleteBlink {
    pub blink_list: Slot,
    pub signer: Key,
}

/// The accounts of `close_blink`.
#[derive(Clone, Debug, PartialEq, Eq)]
pub struct CloseBlink {
    pub blink_list: Slot,
    pub signer: Key,
}

/// `derived` is an address, and it is the address of `slot`.
pub open spec fn resolves_to(derived: Option<(Seq<u8>, u8)>, slot: SlotView) -> bool {
    derived matches Some(found) && found.0 == slot.address
}

/// What `create_blink` makes of `slot` when `derived` is the address derived
/// for the signer: the slot with `blink` appended to the list it stands for,
/// or the error.
pub open spec fn create_outcome(
    slot: SlotView,
    derived: Option<(Seq<u8>, u8)>,
    blink: BlinkView,
) -> Result<SlotView, ErrorCode> {
    let list = slot.live_list().appended(blink);
    if !resolves_to(derived, slot) {
        Err(ErrorCode::AuthorizationFailed)
    } else if !list.fits() {
        Err(ErrorCode::CapacityExceeded)
    } else {
        Ok(slot.holding(list))
    }
}

/// What `delete_blink` makes of `slot` when `derived` is the address derived
/// for the signer: the slot without the blinks of that id, or the error.
pub open spec fn delete_outcome(
    slot: SlotView,
    derived: Option<(Seq<u8>, u8)>,
    id: Seq<char>,
) -> Result<SlotView, ErrorCode> {
    let list = slot.live_list().without_id(id);
    if slot.list is None {
        Err(ErrorCode::ListNotInitialized)
    } else if !resolves_to(derived, slot) {
        Err(ErrorCode::AuthorizationFailed)
    } else if !slot.is_initialized() {
        Err(ErrorCode::ListNotInitialized)
    } else if !list.fits() {
        Err(ErrorCode::CapacityExceeded)
    } else {
        Ok(slot.holding(list))
    }
}

/// What `close_blink` makes of `slot` when `derived` is the address derived
/// for the signer. No close succeeds: a slot that exists at another address
/// is refused, and on every other slot the list counts as not initialized.
pub open spec fn close_outcome(slot: SlotView, derived: Option<(Seq<u8>, u8)>) -> Result<
    SlotView,
    ErrorCode,
> {
    if slot.list is Some && !resolves_to(derived, slot) {
        Err(ErrorCode::AuthorizationFailed)
    } else {
        Err(ErrorCode::ListNotInitialized)
    }
}

/// The slot once an instruction has ended: what the instruction made of it
/// where it succeeded, the slot as it was where it failed.
pub open spec fn slot_after(slot: SlotView, outcome: Result<SlotView, ErrorCode>) -> SlotView {
    match outcome {
        Ok(next) => next,
        Err(_) => slot,
    }
}

/// What an instruction hands back: nothing where it succeeded, the error where
/// it failed.
pub open spec fn reported(outcome: Result<SlotView, ErrorCode>) -> Result<(), ErrorCode> {
    match outcome {
        Ok(_) => Ok(()),
        Err(code) => Err(code),
    }
}

/// Whether `derived` is an address, and the address of `slot`.
fn resolves(derived: &Option<DerivedAddress>, slot: &Slot) -> (resolved: bool)
    ensures
        resolved == resolves_to(derived_view(*derived), slot@),
{
    match derived {
        Some(found) => same_key(&found.address, &slot.address),
        None => false,
    }
}

/// Appends a blink made of the seven texts to the list of the signer's slot,
/// after the blinks that it holds, and marks the list as initialized. Where
/// the slot was never created, or its list is not marked as initialized, the
/// list starts empty and the blink is its only one. `derived` is the address
/// derived for the signer.
///
/// Fails with `AuthorizationFailed` where the slot is not at that address;
/// else with `CapacityExceeded` where the list with the new blink would not
/// fit in the slot. A failure leaves `ctx` as it was.
pub fn create_blink_at(
    ctx: &mut CreateBlink,
    derived: Option<DerivedAddress>,
    id: String,
    title: String,
    icon: String,
    description: String,
    label: String,
    to_pubkey: String,
    link: String,
) -> (result: Result<(), ErrorCode>)
    ensures
        ({
            let outcome = create_outcome(
                old(ctx).blink_list@,
                derived_view(derived),
                BlinkView {
                    id: id@,
                    title: title@,
                    icon: icon@,
                    description: description@,
                    label: label@,
                    to_pubkey: to_pubkey@,
                    link: link@,
                },
            );
            &&& result == reported(outcome)
            &&& final(ctx).blink_list@ == slot_after(old(ctx).blink_list@, outcome)
        }),
        final(ctx).signer == old(ctx).signer,
        result is Err ==> *final(ctx) == *old(ctx),
{
    if !resolves(&derived, &ctx.blink_list) {
        return Err(ErrorCode::AuthorizationFailed);
    }
    let blink = Blink::new(id, title, icon, description, label, to_pubkey, link);
    let used = match &ctx.blink_list.list {
        Some(list) => if list.is_initialized {
            list.encoded_len_within(SLOT_CAPACITY)
        } else {
            Some(FIXED_LEN)
        },
        None => Some(FIXED_LEN),
    };
    let fits = match used {
        Some(len) => blink.add_encoded_len(len, SLOT_CAPACITY).is_some(),
        None => false,
    };
    proof {
        lemma_blinks_len_push(old(ctx).blink_list@.live_list().blinks, blink@);
    }
    if !fits {
        return Err(ErrorCode::CapacityExceeded);
    }
    let mut list = match ctx.blink_list.list.take() {
        Some(list) => if list.is_initialized {
            list
        } else {
            BlinkList::new()
        },
        None => BlinkList::new(),
    };
    list.append(blink);
    ctx.blink_list.list = Some(list);
    Ok(())
}

/// Appends a blink made of the seven texts to the list of the signer's slot,
/// after the blinks that it holds, and marks the list as initialized. Where
/// the slot was never created, or its list is not marked as initialized, the
/// list starts empty and the blink is its only one.
///
/// Fails with `AuthorizationFailed` where the slot is not at the address
/// derived for the signer; else with `CapacityExceeded` where the list with
/// the new blink would not fit in the slot. A failure leaves `ctx` as it was.
pub fn create_blink(
    ctx: &mut CreateBlink,
    id: String,
    title: String,
    icon: String,
    description: String,
    label: String,
    to_pubkey: String,
    link: String,
) -> (result: Result<(), ErrorCode>)
    ensures
        ({
            let outcome = create_outcome(
                old(ctx).blink_list@,
                slot_address(old(ctx).signer@),
                BlinkView {
                    id: id@,
                    title: title@,
                    icon: icon@,
                    description: description@,
                    label: label@,
                    to_pubkey: to_pubkey@,
                    link: link@,
                },
            );
            &&& result == reported(outcome)
            &&& final(ctx).blink_list@ == slot_after(old(ctx).blink_list@, outcome)
        }),
        final(ctx).signer == old(ctx).signer,
        result is Err ==> *final(ctx) == *old(ctx),
{
    let derived = find_slot_address(&ctx.signer);
    create_blink_at(ctx, derived, id, title, icon, description, label, to_pubkey, link)
}

/// Removes every blink whose id is `id` from the list of the signer's slot;
/// the others keep their order. Where no blink has that id, the list stays as
/// it is and the instruction succeeds. `derived` is the address derived for
/// the signer.
///
/// Fails with `ListNotInitialized` where the slot was never created; else
/// with `AuthorizationFailed` where the slot is not at that address; else with
/// `ListNotInitialized` where the list is not marked as initialized; else with
/// `CapacityExceeded` where what is left would not fit in the slot, which does
/// not happen to a list that fitted. A failure leaves `ctx` as it was.
pub fn delete_blink_at(ctx: &mut DeleteBlink, derived: Option<DerivedAddress>, id: String) -> (result:
    Result<(), ErrorCode>)
    ensures
        ({
            let outcome = delete_outcome(old(ctx).blink_list@, derived_view(derived), id@);
            &&& result == reported(outcome)
            &&& final(ctx).blink_list@ == slot_after(old(ctx).blink_list@, outcome)
        }),
        final(ctx).signer == old(ctx).signer,
        result is Err ==> *final(ctx) == *old(ctx),
        result == Err::<(), ErrorCode>(ErrorCode::ListNotInitialized) <==> (old(
            ctx,
        ).blink_list.list is None || (resolves_to(derived_view(derived), old(ctx).blink_list@)
            && !old(ctx).blink_list@.is_initialized())),
{
    if ctx.blink_list.list.is_none() {
        return Err(ErrorCode::ListNotInitialized);
    }
    if !resolves(&derived, &ctx.blink_list) {
        return Err(ErrorCode::AuthorizationFailed);
    }
    match &mut ctx.blink_list.list {
        Some(list) => {
            if !list.is_initialized {
                return Err(ErrorCode::ListNotInitialized);
            }
            if list.encoded_len_without(&id, SLOT_CAPACITY).is_none() {
                return Err(ErrorCode::CapacityExceeded);
            }
            list.remove_id(&id);
            Ok(())
        },
        None => Err(ErrorCode::ListNotInitialized),
    }
}

/// Removes every blink whose id is `id` from the list of the signer's slot;
/// the others keep their order. Where no blink has that id, the list stays as
/// it is and the instruction succeeds.
///
/// Fails with `ListNotInitialized` where the slot was never created; else
/// with `AuthorizationFailed` where the slot is not at the address derived for
/// the signer; else with `ListNotInitialized` where the list is not marked as
/// initialized; else with `CapacityExceeded` where what is left would not fit
/// in the slot, which does not happen to a list that fitted. A failure leaves
/// `ctx` as it was.
pub fn delete_blink(ctx: &mut DeleteBlink, id: String) -> (result: Result<(), ErrorCode>)
    ensures
        ({
            let outcome = delete_outcome(old(ctx).blink_list@, slot_address(old(ctx).signer@), id@);
            &&& result == reported(outcome)
            &&& final(ctx).blink_list@ == slot_after(old(ctx).blink_list@, outcome)
        }),
        final(ctx).signer == old(ctx).signer,
        result is Err ==> *final(ctx) == *old(ctx),
        result == Err::<(), ErrorCode>(ErrorCode::ListNotInitialized) <==> (old(
            ctx,
        ).blink_list.list is None || (resolves_to(
            slot_address(old(ctx).signer@),
            old(ctx).blink_list@,
        ) && !old(ctx).blink_list@.is_initialized())),
{
    let derived = find_slot_address(&ctx.signer);
    delete_blink_at(ctx, derived, id)
}

/// Refuses to close the slot: no close succeeds, and `ctx` is left as it was.
/// `derived` is the address derived for the signer.
///
/// Fails with `AuthorizationFailed` where the slot exists and is not at that
/// address, and with `ListNotInitialized` on every other slot: one that was
/// never created, and the signer's own, whatever its list holds.
pub fn close_blink_at(ctx: &mut CloseBlink, derived: Option<DerivedAddress>) -> (result: Result<
    (),
    ErrorCode,
>)
    ensures
        result == reported(close_outcome(old(ctx).blink_list@, derived_view(derived))),
        result is Err,
        *final(ctx) == *old(ctx),
{
    if ctx.blink_list.list.is_some() && !resolves(&derived, &ctx.blink_list) {
        Err(ErrorCode::AuthorizationFailed)
    } else {
        Err(ErrorCode::ListNotInitialized)
    }
}

/// Refuses to close the slot: no close succeeds, and `ctx` is left as it was.
///
/// Fails with `AuthorizationFailed` where the slot exists and is not at the
/// address derived for the signer, and with `ListNotInitialized` on every
/// other slot: one that was never created, and the signer's own, whatever its
/// list holds.
pub fn close_blink(ctx: &mut CloseBlink) -> (result: Result<(), ErrorCode>)
    ensures
        result == reported(close_outcome(old(ctx).blink_list@, slot_address(old(ctx).signer@))),
        result is Err,
        *final(ctx) == *old(ctx),
{
    let derived = find_slot_address(&ctx.signer);
    close_blink_at(ctx, derived)
}

} // verus!
