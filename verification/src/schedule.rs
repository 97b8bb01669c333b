//! The order in which the motor phase draws the agents.
//!
//! The phase keeps a list of the slots whose agents are still to move. Each draw from
//! the random source picks a position in that list; the slot there is taken, and the
//! last entry of the list moves into its place.

use vstd::multiset::Multiset;
use vstd::prelude::*;
use crate::scalar::is_product;
use crate::scalar::is_truncated;
use crate::scalar::is_whole;
use crate::scalar::Scalar;

verus! {

/// The position in a list of `len` entries for the whole part `whole` of a scaled
/// draw: the same number, kept within the list.
pub open spec fn spec_clamp_index(whole: i64, len: usize) -> usize {
    if whole < 0 {
        0usize
    } else if whole >= len {
        (len - 1) as usize
    } else {
        whole as usize
    }
}

/// Keeps the whole part of a scaled draw within a list of `len` entries.
pub fn clamp_index(whole: i64, len: usize) -> (index: usize)
    requires
        len > 0,
    ensures
        index == spec_clamp_index(whole, len),
        index < len,
{
    if whole < 0 {
        0
    } else if whole as u64 >= len as u64 {
        len - 1
    } else {
        whole as usize
    }
}

/// `index` is the position that `draw` picks in a list of `len` entries: the whole
/// part of a product of the draw and the length, kept within the list.
pub open spec fn is_pick<S: Scalar>(draw: S, len: usize, index: usize) -> bool {
    exists|count: S, scaled: S, whole: i64|
        {
            &&& #[trigger] is_whole(len, count)
            &&& is_product(draw, count, scaled)
            &&& #[trigger] is_truncated(scaled, whole)
            &&& index == spec_clamp_index(whole, len)
        }
}

/// Picks a position in a list of `len` entries from a draw from the random source, a
/// scalar from 0 up to 1.
pub fn pick<S: Scalar>(draw: S, len: usize) -> (index: usize)
    requires
        len > 0,
    ensures
        is_pick(draw, len, index),
        index < len,
{
    let count = S::from_usize(len);
    let scaled = draw.times(count);
    let whole: i64 = scaled.trunc();
    assert(is_whole(len, count) && is_product(draw, count, scaled) && is_truncated(scaled, whole));
    clamp_index(whole, len)
}

/// The list after the entry at `position` was taken: the last entry has moved into its
/// place.
pub open spec fn taken_from(list: Seq<usize>, position: int) -> Seq<usize> {
    list.update(position, list.last()).drop_last()
}

/// What is left of `list` after one entry was taken at each of the positions `picks`,
/// one after another.
pub open spec fn left_after(list: Seq<usize>, picks: Seq<usize>) -> Seq<usize>
    decreases picks.len(),
{
    if picks.len() == 0 {
        list
    } else {
        taken_from(left_after(list, picks.drop_last()), picks.last() as int)
    }
}

/// The entries that were taken from `list` at the positions `picks`, in the order in
/// which they were taken.
pub open spec fn drawn_order(list: Seq<usize>, picks: Seq<usize>) -> Seq<usize>
    decreases picks.len(),
{
    if picks.len() == 0 {
        Seq::empty()
    } else {
        drawn_order(list, picks.drop_last()).push(
            left_after(list, picks.drop_last())[picks.last() as int],
        )
    }
}

/// As many entries are drawn as there are picks.
pub proof fn lemma_drawn_order_len(list: Seq<usize>, picks: Seq<usize>)
    ensures
        drawn_order(list, picks).len() == picks.len(),
    decreases picks.len(),
{
    if picks.len() > 0 {
        lemma_drawn_order_len(list, picks.drop_last());
    }
}

/// Which entry is drawn `k`-th depends on the picks up to that one and on no later
/// pick: it is the entry at the `k`-th pick in what the picks before it have left.
pub proof fn lemma_drawn_order_prefix(list: Seq<usize>, picks: Seq<usize>, k: int)
    requires
        0 <= k < picks.len(),
    ensures
        drawn_order(list, picks)[k] == left_after(list, picks.take(k))[picks[k] as int],
    decreases picks.len(),
{
    let before = picks.drop_last();
    lemma_drawn_order_len(list, before);
    if k == picks.len() - 1 {
        assert(picks.take(k) =~= before);
    } else {
        lemma_drawn_order_prefix(list, before, k);
        assert(before.take(k) =~= picks.take(k));
    }
}

/// Each pick is a position in what was left of a list of `len` entries when it was
/// made.
pub open spec fn picks_fit(len: nat, picks: Seq<usize>) -> bool {
    &&& picks.len() <= len
    &&& forall|k: int| 0 <= k < picks.len() ==> (#[trigger] picks[k]) < len - k
}

/// Drawing loses nothing and repeats nothing: the entries drawn, together with those
/// that are left, are the entries of the list, each as often as the list has it. Once
/// there are as many picks as entries, nothing is left, and the order drawn holds
/// every entry of the list once.
pub proof fn lemma_drawn_once(list: Seq<usize>, picks: Seq<usize>)
    requires
        picks_fit(list.len(), picks),
    ensures
        left_after(list, picks).len() == list.len() - picks.len(),
        drawn_order(list, picks).len() == picks.len(),
        drawn_order(list, picks).to_multiset().add(left_after(list, picks).to_multiset())
            == list.to_multiset(),
    decreases picks.len(),
{
    broadcast use {vstd::multiset::group_multiset_axioms, vstd::multiset::group_multiset_properties};

    if picks.len() == 0 {
        drawn_order(list, picks).to_multiset_ensures();
        assert(drawn_order(list, picks).to_multiset().len() == 0);
        assert(drawn_order(list, picks).to_multiset() =~= Multiset::empty());
        assert(drawn_order(list, picks).to_multiset().add(left_after(list, picks).to_multiset())
            =~= list.to_multiset());
    } else {
        let before = picks.drop_last();
        lemma_drawn_once(list, before);
        let left = left_after(list, before);
        let order = drawn_order(list, before);
        let position = picks.last() as int;
        assert(0 <= position < left.len());
        let taken = left[position];
        let rest = taken_from(left, position);
        // the list that was left: the entries that stay, and the entry taken
        vstd::seq_lib::to_multiset_update(left, position, left.last());
        assert(left.update(position, left.last()) =~= rest.push(left.last()));
        vstd::seq_lib::to_multiset_build(rest, left.last());
        assert(rest.to_multiset().insert(left.last()) == left.to_multiset().insert(
            left.last(),
        ).remove(taken));
        assert(left.to_multiset().count(taken) > 0) by {
            left.to_multiset_ensures();
            assert(left.contains(taken));
        }
        assert forall|x: usize|
            rest.to_multiset().insert(taken).count(x) == left.to_multiset().count(x) by {
            assert(rest.to_multiset().insert(left.last()).count(x) == left.to_multiset().insert(
                left.last(),
            ).remove(taken).count(x));
        }
        assert(rest.to_multiset().insert(taken) =~= left.to_multiset());
        vstd::seq_lib::to_multiset_build(order, taken);
        assert(order.push(taken).to_multiset().add(rest.to_multiset()) =~= order.to_multiset().add(
            rest.to_multiset().insert(taken),
        ));
    }
}

} // verus!
