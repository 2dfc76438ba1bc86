//! The mathematical model of the set: a sequence of distinct elements in the
//! order of their first insertion, and what holds of it.

use vstd::prelude::*;
use crate::element::{position_of, Element};
use crate::word::MAX_VALUE;

verus! {

/// A sequence with `item` in it: the sequence itself where it holds `item`
/// already, else the sequence with `item` appended.
pub open spec fn with_item<T>(items: Seq<T>, item: T) -> Seq<T> {
    if items.contains(item) {
        items
    } else {
        items.push(item)
    }
}

/// A sequence with all of `more` in it, put in one after the other.
pub open spec fn with_items<T>(items: Seq<T>, more: Seq<T>) -> Seq<T>
    decreases more.len(),
{
    if more.len() == 0 {
        items
    } else {
        with_item(with_items(items, more.drop_last()), more.last())
    }
}

/// Whether some element of `items` has the filter position `index`.
pub open spec fn has_position<T: Element>(items: Seq<T>, index: u64) -> bool {
    exists|i: int| 0 <= i < items.len() && #[trigger] position_of(items[i]) == index
}

/// The capacity that a full buffer of capacity `capacity` grows to: 4 from
/// nothing, then twice as much, and never beyond 255.
pub open spec fn grown_capacity(capacity: nat) -> nat {
    if capacity == 0 {
        4
    } else if capacity >= 128 {
        255
    } else {
        2 * capacity
    }
}

/// An element that was put in is in.
pub proof fn lemma_inserted_is_contained<T>(items: Seq<T>, item: T)
    ensures
        with_item(items, item).contains(item),
{
    if !items.contains(item) {
        assert(items.push(item)[items.len() as int] == item);
    }
}

/// Putting an element in removes none, and moves none.
pub proof fn lemma_insert_keeps_elements<T>(items: Seq<T>, other: T)
    ensures
        items.is_prefix_of(with_item(items, other)),
        forall|item: T| items.contains(item) ==> with_item(items, other).contains(item),
{
    let after = with_item(items, other);
    assert forall|item: T| items.contains(item) implies after.contains(item) by {
        let i = choose|i: int| 0 <= i < items.len() && items[i] == item;
        assert(after[i] == item);
    }
}

/// There are no false negatives: an element that was put in is in, also after
/// any number of further elements were put in.
pub proof fn lemma_no_false_negatives<T>(items: Seq<T>, item: T, later: Seq<T>)
    ensures
        with_items(with_item(items, item), later).contains(item),
    decreases later.len(),
{
    if later.len() == 0 {
        lemma_inserted_is_contained(items, item);
    } else {
        lemma_no_false_negatives(items, item, later.drop_last());
        lemma_insert_keeps_elements(
            with_items(with_item(items, item), later.drop_last()),
            later.last(),
        );
    }
}

/// Putting an element in twice is the same as putting it in once.
pub proof fn lemma_insert_idempotent<T>(items: Seq<T>, item: T)
    ensures
        with_item(with_item(items, item), item) == with_item(items, item),
{
    lemma_inserted_is_contained(items, item);
}

/// Putting an element into a sequence of distinct elements leaves them
/// distinct.
pub proof fn lemma_insert_keeps_distinct<T>(items: Seq<T>, item: T)
    requires
        items.no_duplicates(),
    ensures
        with_item(items, item).no_duplicates(),
{
}

/// An element put into the empty sequence is its only element.
pub proof fn lemma_insert_into_empty<T>(item: T)
    ensures
        with_item(Seq::<T>::empty(), item) == seq![item],
{
}

/// The positions of a sequence with one more element are those of the
/// sequence and that of the element.
pub proof fn lemma_positions_of_push<T: Element>(items: Seq<T>, item: T, index: u64)
    ensures
        has_position(items.push(item), index) <==> has_position(items, index) || position_of(item)
            == index,
{
    let after = items.push(item);
    if has_position(items, index) {
        let i = choose|i: int| 0 <= i < items.len() && #[trigger] position_of(items[i]) == index;
        assert(position_of(after[i]) == index);
    }
    if position_of(item) == index {
        assert(position_of(after[items.len() as int]) == index);
    }
    if has_position(after, index) {
        let i = choose|i: int| 0 <= i < after.len() && #[trigger] position_of(after[i]) == index;
        if i < items.len() {
            assert(position_of(items[i]) == index);
        }
    }
}

/// A sequence within the limit of 255 elements that may take `item` stays
/// within the limit, and grows by one element at most.
pub proof fn lemma_insert_within_limit<T>(items: Seq<T>, item: T)
    requires
        items.len() <= MAX_VALUE,
        items.contains(item) || items.len() < MAX_VALUE,
    ensures
        items.len() <= with_item(items, item).len() <= items.len() + 1,
        with_item(items, item).len() <= MAX_VALUE,
{
}

/// A buffer below the limit grows to more than it had, and not beyond the
/// limit.
pub proof fn lemma_grown_capacity(capacity: nat)
    requires
        capacity < MAX_VALUE,
    ensures
        capacity < grown_capacity(capacity) <= MAX_VALUE,
{
}

} // verus!
