//! The list of blinks that one slot holds.

use vstd::prelude::*;

use crate::blink::{Blink, BlinkView, LENGTH_PREFIX_LEN};

verus! {

/// Bytes reserved for one slot.
pub const SLOT_CAPACITY: usize = 2048;

/// Bytes of the tag that opens the encoding of a slot.
pub const DISCRIMINATOR_LEN: usize = 8;

/// Bytes of the initialization flag in the encoding of a slot.
pub const FLAG_LEN: usize = 1;

/// Bytes that a slot takes whatever its list holds: the tag, the length
/// prefix of the sequence of blinks, and the flag.
pub const FIXED_LEN: usize = DISCRIMINATOR_LEN + LENGTH_PREFIX_LEN + FLAG_LEN;

/// Bytes that the blinks take in the encoding of a slot, one after the other.
pub open spec fn blinks_len(blinks: Seq<BlinkView>) -> nat
    decreases blinks.len(),
{
    if blinks.len() == 0 {
        0
    } else {
        blinks_len(blinks.drop_last()) + blinks.last().encoded_len()
    }
}

/// The blinks of a list as contracts see them.
pub open spec fn blink_views(blinks: Seq<Blink>) -> Seq<BlinkView> {
    blinks.map_values(|blink: Blink| blink@)
}

/// Holds of every blink but those with the given id.
pub open spec fn has_other_id(id: Seq<char>) -> spec_fn(BlinkView) -> bool {
    |blink: BlinkView| blink.id != id
}

/// A list as contracts see it.
pub struct BlinkListView {
    pub blinks: Seq<BlinkView>,
    pub is_initialized: bool,
}

impl BlinkListView {
    /// The list of a slot that was just created: no blinks, not initialized.
    pub open spec fn empty() -> BlinkListView {
        BlinkListView { blinks: Seq::empty(), is_initialized: false }
    }

    /// Bytes that the list takes in its slot.
    pub open spec fn encoded_len(self) -> nat {
        FIXED_LEN as nat + blinks_len(self.blinks)
    }

    /// The list fits in the bytes reserved for a slot.
    pub open spec fn fits(self) -> bool {
        self.encoded_len() <= SLOT_CAPACITY
    }

    /// The list once `blink` is appended to it: initialized, the blinks it had
    /// in the order it had them, then `blink`.
    pub open spec fn appended(self, blink: BlinkView) -> BlinkListView {
        BlinkListView { blinks: self.blinks.push(blink), is_initialized: true }
    }

    /// The list without the blinks whose id is `id`; the others stay in the
    /// order they had.
    pub open spec fn without_id(self, id: Seq<char>) -> BlinkListView {
        BlinkListView {
            blinks: self.blinks.filter(has_other_id(id)),
            is_initialized: self.is_initialized,
        }
    }
}

/// One owner's blinks, in the order in which they were created, and the flag
/// that says whether the list exists: a list that is not initialized counts
/// as empty, whatever it holds.
#[derive(Clone, Debug, PartialEq, Eq)]
pub struct BlinkList {
    pub blinks: Vec<Blink>,
    pub is_initialized: bool,
}

impl View for BlinkList {
    type V = BlinkListView;

    open spec fn view(&self) -> BlinkListView {
        BlinkListView { blinks: blink_views(self.blinks@), is_initialized: self.is_initialized }
    }
}

/// The encoded length of two runs of blinks, one after the other, is the sum
/// of their encoded lengths.
pub proof fn lemma_blinks_len_add(front: Seq<BlinkView>, back: Seq<BlinkView>)
    ensures
        blinks_len(front + back) == blinks_len(front) + blinks_len(back),
    decreases back.len(),
{
    if back.len() == 0 {
        assert(front + back =~= front);
    } else {
        lemma_blinks_len_add(front, back.drop_last());
        assert((front + back).drop_last() =~= front + back.drop_last());
    }
}

/// Appending a blink adds its encoded length to that of the blinks.
pub proof fn lemma_blinks_len_push(blinks: Seq<BlinkView>, blink: BlinkView)
    ensures
        blinks_len(blinks.push(blink)) == blinks_len(blinks) + blink.encoded_len(),
{
    assert(blinks.push(blink).drop_last() =~= blinks);
}

/// A prefix of the blinks takes no more bytes than all of them.
pub proof fn lemma_blinks_len_prefix(blinks: Seq<BlinkView>, n: int)
    requires
        0 <= n <= blinks.len(),
    ensures
        blinks_len(blinks.take(n)) <= blinks_len(blinks),
{
    lemma_blinks_len_add(blinks.take(n), blinks.skip(n));
    assert(blinks.take(n) + blinks.skip(n) =~= blinks);
}

/// Removing the blinks of one id never adds bytes.
pub proof fn lemma_blinks_len_filter(blinks: Seq<BlinkView>, id: Seq<char>)
    ensures
        blinks_len(blinks.filter(has_other_id(id))) <= blinks_len(blinks),
    decreases blinks.len(),
{
    reveal(Seq::filter);
    if blinks.len() > 0 {
        lemma_blinks_len_filter(blinks.drop_last(), id);
        if has_other_id(id)(blinks.last()) {
            lemma_blinks_len_push(blinks.drop_last().filter(has_other_id(id)), blinks.last());
        }
    }
}

/// What is kept of the first `n + 1` blinks is what is kept of the first `n`,
/// followed by the next blink unless it has the id.
proof fn lemma_kept_step(blinks: Seq<BlinkView>, id: Seq<char>, n: int)
    requires
        0 <= n < blinks.len(),
    ensures
        blinks.take(n + 1).filter(has_other_id(id)) == if blinks[n].id != id {
            blinks.take(n).filter(has_other_id(id)).push(blinks[n])
        } else {
            blinks.take(n).filter(has_other_id(id))
        },
{
    reveal(Seq::filter);
    assert(blinks.take(n + 1).drop_last() =~= blinks.take(n));
}

/// What is kept of a prefix of the blinks takes no more bytes than what is
/// kept of all of them.
proof fn lemma_kept_len_prefix(blinks: Seq<BlinkView>, id: Seq<char>, n: int)
    requires
        0 <= n <= blinks.len(),
    ensures
        blinks_len(blinks.take(n).filter(has_other_id(id))) <= blinks_len(
            blinks.filter(has_other_id(id)),
        ),
{
    let other = has_other_id(id);
    Seq::filter_distributes_over_add(blinks.take(n), blinks.skip(n), other);
    assert(blinks.take(n) + blinks.skip(n) =~= blinks);
    lemma_blinks_len_add(blinks.take(n).filter(other), blinks.skip(n).filter(other));
}

impl BlinkList {
    /// The list of a slot that was just created.
    pub fn new() -> (list: BlinkList)
        ensures
            list@ == BlinkListView::empty(),
    {
        let list = BlinkList { blinks: Vec::new(), is_initialized: false };
        assert(list@.blinks =~= Seq::empty());
        list
    }

    /// The encoded length of the list, where it is at most `limit`.
    pub fn encoded_len_within(&self, limit: usize) -> (len: Option<usize>)
        ensures
            len == if self@.encoded_len() <= limit {
                Some(self@.encoded_len() as usize)
            } else {
                None
            },
    {
        if limit < FIXED_LEN {
            return None;
        }
        let mut total: usize = FIXED_LEN;
        let mut i: usize = 0;
        while i < self.blinks.len()
            invariant
                i <= self.blinks.len(),
                total <= limit,
                total == FIXED_LEN + blinks_len(self@.blinks.take(i as int)),
            decreases self.blinks.len() - i,
        {
            proof {
                let next = self@.blinks.take(i + 1);
                assert(next.drop_last() =~= self@.blinks.take(i as int));
                assert(next.last() == self.blinks[i as int]@);
                lemma_blinks_len_prefix(self@.blinks, i + 1);
            }
            match self.blinks[i].add_encoded_len(total, limit) {
                Some(sum) => {
                    total = sum;
                },
                None => {
                    return None;
                },
            }
            i += 1;
        }
        assert(self@.blinks.take(i as int) =~= self@.blinks);
        Some(total)
    }

    /// The encoded length of the list without the blinks whose id is `id`,
    /// where it is at most `limit`.
    pub fn encoded_len_without(&self, id: &String, limit: usize) -> (len: Option<usize>)
        ensures
            len == if self@.without_id(id@).encoded_len() <= limit {
                Some(self@.without_id(id@).encoded_len() as usize)
            } else {
                None
            },
    {
        if limit < FIXED_LEN {
            return None;
        }
        let ghost other = has_other_id(id@);
        let mut total: usize = FIXED_LEN;
        let mut i: usize = 0;
        assert(self@.blinks.take(0).filter(other) =~= Seq::empty()) by {
            reveal(Seq::filter);
        }
        while i < self.blinks.len()
            invariant
                i <= self.blinks.len(),
                other == has_other_id(id@),
                total <= limit,
                total == FIXED_LEN + blinks_len(self@.blinks.take(i as int).filter(other)),
            decreases self.blinks.len() - i,
        {
            proof {
                let kept = self@.blinks.take(i as int).filter(other);
                lemma_kept_step(self@.blinks, id@, i as int);
                lemma_blinks_len_push(kept, self@.blinks[i as int]);
                lemma_kept_len_prefix(self@.blinks, id@, i + 1);
            }
            if self.blinks[i].id != *id {
                match self.blinks[i].add_encoded_len(total, limit) {
                    Some(sum) => {
                        total = sum;
                    },
                    None => {
                        return None;
                    },
                }
            }
            i += 1;
        }
        assert(self@.blinks.take(i as int) =~= self@.blinks);
        Some(total)
    }

    /// Whether the list fits in the bytes reserved for a slot.
    pub fn fits(&self) -> (fits: bool)
        ensures
            fits == self@.fits(),
    {
        self.encoded_len_within(SLOT_CAPACITY).is_some()
    }

    /// Marks the list as initialized and appends `blink` to it.
    pub fn append(&mut self, blink: Blink)
        ensures
            final(self)@ == old(self)@.appended(blink@),
    {
        self.is_initialized = true;
        self.blinks.push(blink);
        assert(blink_views(self.blinks@) =~= blink_views(old(self).blinks@).push(blink@));
    }

    /// Removes every blink whose id is `id`, and keeps the others in the order
    /// they had.
    pub fn remove_id(&mut self, id: &String)
        ensures
            final(self)@ == old(self)@.without_id(id@),
    {
        let mut all: Vec<Blink> = Vec::new();
        std::mem::swap(&mut all, &mut self.blinks);
        let ghost before = blink_views(all@);
        let ghost other = has_other_id(id@);
        let mut kept: Vec<Blink> = Vec::new();
        assert(blink_views(kept@) =~= before.take(0).filter(other)) by {
            reveal(Seq::filter);
        }
        for blink in it: all
            invariant
                before == blink_views(it.seq()),
                other == has_other_id(id@),
                blink_views(kept@) == before.take(it.index() as int).filter(other),
        {
            proof {
                lemma_kept_step(before, id@, it.index() as int);
            }
            let ghost kept_before = kept@;
            if blink.id != *id {
                kept.push(blink);
                assert(blink_views(kept@) =~= blink_views(kept_before).push(blink@));
            }
        }
        assert(before.take(before.len() as int) =~= before);
        self.blinks = kept;
    }
}

} // verus!
