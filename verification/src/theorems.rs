//! What holds of the instructions on every slot and for every run of calls.
//!
//! The statements are over `create_outcome`, `delete_outcome` and
//! `close_outcome`, by which the instructions state what they do.

use vstd::prelude::*;

use crate::blink::{BlinkView, LENGTH_PREFIX_LEN};
use crate::blink_list::{
    blinks_len, has_other_id, lemma_blinks_len_filter, BlinkListView, FIXED_LEN, SLOT_CAPACITY,
};
use crate::error::ErrorCode;
use crate::instructions::{
    close_outcome, create_outcome, delete_outcome, resolves_to, slot_after, SlotView,
};

verus! {

/// The least number of bytes that a blink takes: the length prefixes of its
/// seven texts.
pub const MIN_BLINK_LEN: usize = 7 * LENGTH_PREFIX_LEN;

/// The most blinks that a slot can hold.
pub const MAX_BLINKS: usize = (SLOT_CAPACITY - FIXED_LEN) / MIN_BLINK_LEN;

/// What a run of `create_blink` calls makes of `slot`, one call for each of
/// `blinks` in their order: the slot after the last call, or the error of the
/// first call that failed.
pub open spec fn create_all(
    slot: SlotView,
    derived: Option<(Seq<u8>, u8)>,
    blinks: Seq<BlinkView>,
) -> Result<SlotView, ErrorCode>
    decreases blinks.len(),
{
    if blinks.len() == 0 {
        Ok(slot)
    } else {
        match create_all(slot, derived, blinks.drop_last()) {
            Ok(next) => create_outcome(next, derived, blinks.last()),
            Err(code) => Err(code),
        }
    }
}

/// What a run of `delete_blink` calls makes of `slot`, one call for each of
/// `ids` in their order: the slot after the last call, or the error of the
/// first call that failed.
pub open spec fn delete_all(
    slot: SlotView,
    derived: Option<(Seq<u8>, u8)>,
    ids: Seq<Seq<char>>,
) -> Result<SlotView, ErrorCode>
    decreases ids.len(),
{
    if ids.len() == 0 {
        Ok(slot)
    } else {
        match delete_all(slot, derived, ids.drop_last()) {
            Ok(next) => delete_outcome(next, derived, ids.last()),
            Err(code) => Err(code),
        }
    }
}

/// Holds of every blink whose id is none of `ids`.
pub open spec fn has_none_of(ids: Seq<Seq<char>>) -> spec_fn(BlinkView) -> bool {
    |blink: BlinkView| !ids.contains(blink.id)
}

/// `part` is made of blinks of `whole` in the order they have there: `at`
/// gives, for each blink of `part`, its place in `whole`, and the places
/// increase.
pub open spec fn taken_in_order(part: Seq<BlinkView>, whole: Seq<BlinkView>, at: Seq<int>) -> bool {
    &&& at.len() == part.len()
    &&& forall|k: int| 0 <= k < at.len() ==> 0 <= #[trigger] at[k] < whole.len()
    &&& forall|k: int| 0 <= k < at.len() ==> #[trigger] part[k] == whole[at[k]]
    &&& forall|j: int, k: int| 0 <= j < k < at.len() ==> #[trigger] at[j] < #[trigger] at[k]
}

/// The places of the blinks of `blinks` that `keep` holds of, in increasing
/// order.
pub open spec fn kept_places(blinks: Seq<BlinkView>, keep: spec_fn(BlinkView) -> bool) -> Seq<int>
    decreases blinks.len(),
{
    if blinks.len() == 0 {
        Seq::empty()
    } else if keep(blinks.last()) {
        kept_places(blinks.drop_last(), keep).push(blinks.len() - 1)
    } else {
        kept_places(blinks.drop_last(), keep)
    }
}

/// A filter takes blinks in the order they have.
pub proof fn lemma_filter_keeps_order(blinks: Seq<BlinkView>, keep: spec_fn(BlinkView) -> bool)
    ensures
        taken_in_order(blinks.filter(keep), blinks, kept_places(blinks, keep)),
    decreases blinks.len(),
{
    reveal(Seq::filter);
    if blinks.len() > 0 {
        let front = blinks.drop_last();
        lemma_filter_keeps_order(front, keep);
        let at = kept_places(blinks, keep);
        let part = blinks.filter(keep);
        assert forall|k: int| 0 <= k < at.len() implies #[trigger] part[k] == blinks[at[k]] by {
            if k < kept_places(front, keep).len() {
                assert(part[k] == front.filter(keep)[k]);
                assert(front[kept_places(front, keep)[k]] == blinks[at[k]]);
            }
        }
    }
}

/// Filtering what a filter kept is one filter by both conditions.
pub proof fn lemma_filter_twice(
    blinks: Seq<BlinkView>,
    first: spec_fn(BlinkView) -> bool,
    second: spec_fn(BlinkView) -> bool,
    both: spec_fn(BlinkView) -> bool,
)
    requires
        forall|blink: BlinkView| #[trigger] both(blink) == (first(blink) && second(blink)),
    ensures
        blinks.filter(first).filter(second) == blinks.filter(both),
    decreases blinks.len(),
{
    reveal(Seq::filter);
    if blinks.len() > 0 {
        lemma_filter_twice(blinks.drop_last(), first, second, both);
        if first(blinks.last()) {
            let kept = blinks.drop_last().filter(first);
            assert(kept.push(blinks.last()).drop_last() =~= kept);
        }
    }
}

/// A run of blinks takes at least `MIN_BLINK_LEN` bytes for each of them.
pub proof fn lemma_blinks_len_at_least(blinks: Seq<BlinkView>)
    ensures
        blinks_len(blinks) >= MIN_BLINK_LEN * blinks.len(),
    decreases blinks.len(),
{
    if blinks.len() > 0 {
        lemma_blinks_len_at_least(blinks.drop_last());
    }
}

/// Blinks stand in the order in which they were created: where every call of
/// a run of `create_blink` calls succeeds, the list holds the blinks it had,
/// in the order it had them, and then the new blinks in the order of the
/// calls.
pub proof fn creations_keep_call_order(
    slot: SlotView,
    derived: Option<(Seq<u8>, u8)>,
    blinks: Seq<BlinkView>,
)
    requires
        create_all(slot, derived, blinks) is Ok,
    ensures
        create_all(slot, derived, blinks)->Ok_0.address == slot.address,
        create_all(slot, derived, blinks)->Ok_0.live_list().blinks == slot.live_list().blinks
            + blinks,
        blinks.len() > 0 ==> create_all(slot, derived, blinks)->Ok_0.is_initialized(),
    decreases blinks.len(),
{
    if blinks.len() == 0 {
        assert(slot.live_list().blinks + blinks =~= slot.live_list().blinks);
    } else {
        creations_keep_call_order(slot, derived, blinks.drop_last());
        assert((slot.live_list().blinks + blinks.drop_last()).push(blinks.last())
            =~= slot.live_list().blinks + blinks);
    }
}

/// A second `delete_blink` of the same id, right after the first, leaves the
/// slot as the first left it, whether a blink had that id or not; and where
/// the first succeeded, so does the second.
pub proof fn delete_twice_is_delete_once(
    slot: SlotView,
    derived: Option<(Seq<u8>, u8)>,
    id: Seq<char>,
)
    ensures
        ({
            let once = slot_after(slot, delete_outcome(slot, derived, id));
            &&& slot_after(once, delete_outcome(once, derived, id)) == once
            &&& delete_outcome(slot, derived, id) is Ok ==> delete_outcome(once, derived, id)
                == Ok::<SlotView, ErrorCode>(once)
        }),
{
    if delete_outcome(slot, derived, id) is Ok {
        let other = has_other_id(id);
        lemma_filter_twice(slot.live_list().blinks, other, other, other);
    }
}

/// Deleting keeps the order of what is left: where every call of a run of
/// `delete_blink` calls succeeds, the list holds exactly the blinks whose id
/// is none of the deleted ones, and they stand in the order they had: each
/// was taken from its place in the list as it was, and the places increase.
pub proof fn deletions_keep_survivor_order(
    slot: SlotView,
    derived: Option<(Seq<u8>, u8)>,
    ids: Seq<Seq<char>>,
)
    requires
        delete_all(slot, derived, ids) is Ok,
    ensures
        ({
            let before = slot.live_list().blinks;
            let after = delete_all(slot, derived, ids)->Ok_0.live_list().blinks;
            &&& after == before.filter(has_none_of(ids))
            &&& taken_in_order(after, before, kept_places(before, has_none_of(ids)))
        }),
        delete_all(slot, derived, ids)->Ok_0.address == slot.address,
        delete_all(slot, derived, ids)->Ok_0.live_list().is_initialized
            == slot.live_list().is_initialized,
    decreases ids.len(),
{
    let before = slot.live_list().blinks;
    if ids.len() == 0 {
        assert forall|blink: BlinkView| #[trigger] has_none_of(ids)(blink) by {}
        lemma_filter_all(before, has_none_of(ids));
    } else {
        let front = ids.drop_last();
        deletions_keep_survivor_order(slot, derived, front);
        assert forall|blink: BlinkView| #[trigger]
            has_none_of(ids)(blink) == (has_none_of(front)(blink) && has_other_id(ids.last())(
                blink,
            )) by {
            if front.contains(blink.id) {
                let k = choose|k: int| 0 <= k < front.len() && front[k] == blink.id;
                assert(ids[k] == blink.id);
            }
            if ids.contains(blink.id) && blink.id != ids.last() {
                let k = choose|k: int| 0 <= k < ids.len() && ids[k] == blink.id;
                assert(front[k] == blink.id);
            }
            if blink.id == ids.last() {
                assert(ids[ids.len() - 1] == blink.id);
            }
        }
        lemma_filter_twice(before, has_none_of(front), has_other_id(ids.last()), has_none_of(ids));
    }
    lemma_filter_keeps_order(before, has_none_of(ids));
}

/// A filter that holds of every blink keeps them all.
pub proof fn lemma_filter_all(blinks: Seq<BlinkView>, keep: spec_fn(BlinkView) -> bool)
    requires
        forall|blink: BlinkView| #[trigger] keep(blink),
    ensures
        blinks.filter(keep) == blinks,
    decreases blinks.len(),
{
    reveal(Seq::filter);
    if blinks.len() > 0 {
        lemma_filter_all(blinks.drop_last(), keep);
        assert(blinks.drop_last().push(blinks.last()) =~= blinks);
    }
}

/// An owner has one slot: two slots that are both at the address derived for
/// the owner, here `derived`, are at the same address.
pub proof fn one_slot_per_owner(derived: Option<(Seq<u8>, u8)>, first: SlotView, second: SlotView)
    requires
        resolves_to(derived, first),
        resolves_to(derived, second),
    ensures
        first.address == second.address,
{
}

/// An instruction signed by one owner works on no slot but the one at the
/// address derived for that owner, here `derived`: on any other slot each of
/// the three instructions fails, and the slot stays as it was. A slot that
/// exists is refused with `AuthorizationFailed`, whatever its list holds and
/// whether it is marked as initialized or not.
pub proof fn other_slots_stay_untouched(
    slot: SlotView,
    derived: Option<(Seq<u8>, u8)>,
    blink: BlinkView,
    id: Seq<char>,
)
    requires
        !resolves_to(derived, slot),
    ensures
        create_outcome(slot, derived, blink) == Err::<SlotView, ErrorCode>(
            ErrorCode::AuthorizationFailed,
        ),
        delete_outcome(slot, derived, id) == Err::<SlotView, ErrorCode>(
            if slot.list is Some {
                ErrorCode::AuthorizationFailed
            } else {
                ErrorCode::ListNotInitialized
            },
        ),
        close_outcome(slot, derived) == Err::<SlotView, ErrorCode>(
            if slot.list is Some {
                ErrorCode::AuthorizationFailed
            } else {
                ErrorCode::ListNotInitialized
            },
        ),
        slot_after(slot, create_outcome(slot, derived, blink)) == slot,
        slot_after(slot, delete_outcome(slot, derived, id)) == slot,
        slot_after(slot, close_outcome(slot, derived)) == slot,
{
}

/// On the signer's own slot, `delete_blink` fails with `ListNotInitialized`
/// exactly where the slot does not hold a list that is marked as initialized;
/// a slot that was never created gives that error to every signer.
pub proof fn delete_needs_an_initialized_list(
    slot: SlotView,
    derived: Option<(Seq<u8>, u8)>,
    id: Seq<char>,
)
    ensures
        slot.list is None ==> delete_outcome(slot, derived, id) == Err::<SlotView, ErrorCode>(
            ErrorCode::ListNotInitialized,
        ),
        resolves_to(derived, slot) ==> (!slot.is_initialized() <==> delete_outcome(
            slot,
            derived,
            id,
        ) == Err::<SlotView, ErrorCode>(ErrorCode::ListNotInitialized)),
{
}

/// A list that is not marked as initialized counts as empty: a `create_blink`
/// that succeeds on such a slot, or on one that was never created, leaves the
/// new blink alone in the list.
pub proof fn creation_starts_afresh(
    slot: SlotView,
    derived: Option<(Seq<u8>, u8)>,
    blink: BlinkView,
)
    requires
        !slot.is_initialized(),
        create_outcome(slot, derived, blink) is Ok,
    ensures
        create_outcome(slot, derived, blink)->Ok_0.list == Some(
            BlinkListView { blinks: seq![blink], is_initialized: true },
        ),
{
    assert(Seq::<BlinkView>::empty().push(blink) =~= seq![blink]);
}

/// A list that fits holds at most `MAX_BLINKS` blinks, so a run of
/// `create_blink` calls on the signer's slot that would take the list past
/// that number does not succeed: one of its calls fails with
/// `CapacityExceeded`.
pub proof fn creations_run_out_of_room(
    slot: SlotView,
    derived: Option<(Seq<u8>, u8)>,
    blinks: Seq<BlinkView>,
)
    requires
        resolves_to(derived, slot),
        slot.live_list().blinks.len() + blinks.len() > MAX_BLINKS,
        blinks.len() > 0,
    ensures
        create_all(slot, derived, blinks) == Err::<SlotView, ErrorCode>(
            ErrorCode::CapacityExceeded,
        ),
    decreases blinks.len(),
{
    let front = blinks.drop_last();
    if create_all(slot, derived, front) is Ok {
        creations_keep_call_order(slot, derived, front);
        let next = create_all(slot, derived, front)->Ok_0;
        let list = next.live_list().appended(blinks.last());
        assert(list.blinks.len() == slot.live_list().blinks.len() + blinks.len());
        lemma_blinks_len_at_least(list.blinks);
        assert(MIN_BLINK_LEN * list.blinks.len() > SLOT_CAPACITY - FIXED_LEN) by (nonlinear_arith)
            requires
                list.blinks.len() > MAX_BLINKS,
        ;
    } else {
        creations_fail_for_want_of_room(slot, derived, front);
    }
}

/// A run of `create_blink` calls on the signer's slot fails for no reason but
/// want of room.
pub proof fn creations_fail_for_want_of_room(
    slot: SlotView,
    derived: Option<(Seq<u8>, u8)>,
    blinks: Seq<BlinkView>,
)
    requires
        resolves_to(derived, slot),
        create_all(slot, derived, blinks) is Err,
    ensures
        create_all(slot, derived, blinks) == Err::<SlotView, ErrorCode>(
            ErrorCode::CapacityExceeded,
        ),
    decreases blinks.len(),
{
    let front = blinks.drop_last();
    if blinks.len() > 0 {
        if create_all(slot, derived, front) is Ok {
            creations_keep_call_order(slot, derived, front);
        } else {
            creations_fail_for_want_of_room(slot, derived, front);
        }
    }
}

/// No instruction reports `BlinkExists`: an id may stand in a list as often as
/// it was created.
pub proof fn blink_exists_is_never_reported(
    slot: SlotView,
    derived: Option<(Seq<u8>, u8)>,
    blink: BlinkView,
    id: Seq<char>,
)
    ensures
        create_outcome(slot, derived, blink) != Err::<SlotView, ErrorCode>(ErrorCode::BlinkExists),
        delete_outcome(slot, derived, id) != Err::<SlotView, ErrorCode>(ErrorCode::BlinkExists),
        close_outcome(slot, derived) != Err::<SlotView, ErrorCode>(ErrorCode::BlinkExists),
{
}

/// Whatever an instruction is given, the list that it leaves where it
/// succeeds fits in the bytes reserved for a slot; and on a list that fits,
/// `delete_blink` never fails for want of room.
pub proof fn successful_instructions_fit(
    slot: SlotView,
    derived: Option<(Seq<u8>, u8)>,
    blink: BlinkView,
    id: Seq<char>,
)
    ensures
        create_outcome(slot, derived, blink) matches Ok(next) ==> next.live_list().fits(),
        delete_outcome(slot, derived, id) matches Ok(next) ==> next.live_list().fits(),
        slot.live_list().fits() ==> delete_outcome(slot, derived, id) != Err::<
            SlotView,
            ErrorCode,
        >(ErrorCode::CapacityExceeded),
{
    lemma_blinks_len_filter(slot.live_list().blinks, id);
}

} // verus!
