//! The membership filter.
//!
//! The filter has 112 bits. Positions 0 to 55 live in the fragment of the
//! capacity word, positions 56 to 111 in the fragment of the count word. A hash
//! is reduced to one position; a set bit says that an element with that
//! position may be present, a clear bit that none is.

use vstd::prelude::*;
use crate::word::{
    fragment_of, read_filter_fragment, set_filter_bits, value_of, FRAGMENT_BITS, MAX_FRAGMENT,
};

verus! {

/// Number of positions in the filter.
pub const FILTER_BITS: u64 = 112;

/// The position that a hash is reduced to.
pub open spec fn position(hash: u64) -> u64 {
    hash % FILTER_BITS
}

/// Whether bit `i` of a fragment is set.
pub open spec fn fragment_bit(fragment: u64, i: u64) -> bool {
    fragment & (1u64 << i) != 0
}

/// Whether the filter held in the two words has the bit at `index` set.
pub open spec fn maybe_present(count_word: u64, capacity_word: u64, index: u64) -> bool {
    if index >= FRAGMENT_BITS {
        fragment_bit(fragment_of(count_word), (index - FRAGMENT_BITS) as u64)
    } else {
        fragment_bit(fragment_of(capacity_word), index)
    }
}

/// Setting one bit of a fragment sets that bit and changes no other.
pub proof fn lemma_set_bit(fragment: u64, i: u64, j: u64)
    requires
        i < FRAGMENT_BITS,
        j < FRAGMENT_BITS,
    ensures
        fragment_bit(fragment | (1u64 << i), j) == (i == j || fragment_bit(fragment, j)),
        (1u64 << i) <= MAX_FRAGMENT,
{
    assert(((fragment | (1u64 << i)) & (1u64 << j) != 0) == (i == j || fragment & (1u64 << j)
        != 0)) by (bit_vector)
        requires
            i < 56,
            j < 56,
    ;
    assert((1u64 << i) <= 0x00FF_FFFF_FFFF_FFFF) by (bit_vector)
        requires
            i < 56,
    ;
}

/// An empty fragment has no bit set.
pub proof fn lemma_empty_fragment(i: u64)
    requires
        i < FRAGMENT_BITS,
    ensures
        !fragment_bit(0, i),
{
    assert(0u64 & (1u64 << i) == 0) by (bit_vector);
}

/// Words with empty filter fragments hold an empty filter.
pub proof fn lemma_empty_filter(count_word: u64, capacity_word: u64)
    requires
        fragment_of(count_word) == 0,
        fragment_of(capacity_word) == 0,
    ensures
        forall|index: u64|
            index < FILTER_BITS ==> !#[trigger] maybe_present(count_word, capacity_word, index),
{
    assert forall|index: u64| index < FILTER_BITS implies !#[trigger] maybe_present(
        count_word,
        capacity_word,
        index,
    ) by {
        if index >= FRAGMENT_BITS {
            lemma_empty_fragment((index - FRAGMENT_BITS) as u64);
        } else {
            lemma_empty_fragment(index);
        }
    }
}

/// Reduces a hash to its position in the filter.
pub fn filter_position(hash: u64) -> (index: u64)
    ensures
        index == position(hash),
        index < FILTER_BITS,
{
    hash % FILTER_BITS
}

/// Tests the bit at `index`: `false` says that no element with this position
/// was recorded, `true` that one may have been.
pub fn probe(count_word: u64, capacity_word: u64, index: u64) -> (maybe: bool)
    requires
        index < FILTER_BITS,
    ensures
        maybe == maybe_present(count_word, capacity_word, index),
{
    if index >= FRAGMENT_BITS {
        read_filter_fragment(count_word) & (1u64 << (index - FRAGMENT_BITS)) != 0
    } else {
        read_filter_fragment(capacity_word) & (1u64 << index) != 0
    }
}

/// Sets the bit at `index` and says whether it was set before. The numbers of
/// both words and all other bits of the filter stay as they were.
pub fn record(count_word: &mut u64, capacity_word: &mut u64, index: u64) -> (already_set: bool)
    requires
        index < FILTER_BITS,
    ensures
        already_set == maybe_present(*old(count_word), *old(capacity_word), index),
        value_of(*final(count_word)) == value_of(*old(count_word)),
        value_of(*final(capacity_word)) == value_of(*old(capacity_word)),
        forall|j: u64|
            j < FILTER_BITS ==> #[trigger] maybe_present(
                *final(count_word),
                *final(capacity_word),
                j,
            ) == (j == index || maybe_present(*old(count_word), *old(capacity_word), j)),
{
    let already_set = probe(*count_word, *capacity_word, index);
    if index >= FRAGMENT_BITS {
        let bit: u64 = index - FRAGMENT_BITS;
        proof {
            assert forall|j: u64| j < FRAGMENT_BITS implies #[trigger] fragment_bit(
                fragment_of(*count_word) | (1u64 << bit),
                j,
            ) == (bit == j || fragment_bit(fragment_of(*count_word), j)) by {
                lemma_set_bit(fragment_of(*count_word), bit, j);
            }
            lemma_set_bit(fragment_of(*count_word), bit, bit);
        }
        *count_word = set_filter_bits(*count_word, 1u64 << bit);
    } else {
        proof {
            assert forall|j: u64| j < FRAGMENT_BITS implies #[trigger] fragment_bit(
                fragment_of(*capacity_word) | (1u64 << index),
                j,
            ) == (index == j || fragment_bit(fragment_of(*capacity_word), j)) by {
                lemma_set_bit(fragment_of(*capacity_word), index, j);
            }
            lemma_set_bit(fragment_of(*capacity_word), index, index);
        }
        *capacity_word = set_filter_bits(*capacity_word, 1u64 << index);
    }
    already_set
}

} // verus!
