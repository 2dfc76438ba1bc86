//! Metadata words.
//!
//! A metadata word is 64 bits wide. Its low 8 bits hold a number (a count or a
//! capacity, at most 255); its high 56 bits hold a fragment of the membership
//! filter. The functions here read and write either part and leave the other
//! part as it was.

use vstd::prelude::*;

verus! {

/// Width of the numeric subfield, in bits.
pub const VALUE_BITS: u64 = 8;

/// Width of the filter fragment, in bits.
pub const FRAGMENT_BITS: u64 = 56;

/// The bits of a word that hold its number.
pub const VALUE_MASK: u64 = 0x0000_0000_0000_00FF;

/// The bits of a word that hold its filter fragment.
pub const FILTER_MASK: u64 = 0xFFFF_FFFF_FFFF_FF00;

/// The largest number a word can hold.
pub const MAX_VALUE: usize = 255;

/// The largest filter fragment a word can hold.
pub const MAX_FRAGMENT: u64 = 0x00FF_FFFF_FFFF_FFFF;

/// The number held in the low bits of `word`.
pub open spec fn value_of(word: u64) -> u64 {
    word & VALUE_MASK
}

/// The filter fragment held in the high bits of `word`, as a bitmap whose
/// bit 0 is the lowest bit above the number.
pub open spec fn fragment_of(word: u64) -> u64 {
    word >> VALUE_BITS
}

/// A word is determined by its number and its filter fragment.
pub proof fn lemma_word_parts(a: u64, b: u64)
    requires
        value_of(a) == value_of(b),
        fragment_of(a) == fragment_of(b),
    ensures
        a == b,
{
    assert(a & 0xFF == b & 0xFF && a >> 8 == b >> 8 ==> a == b) by (bit_vector);
}

/// The zero word holds the number zero and an empty filter fragment.
pub proof fn lemma_zero_word()
    ensures
        value_of(0) == 0,
        fragment_of(0) == 0,
{
    assert(0u64 & 0xFF == 0) by (bit_vector);
    assert(0u64 >> 8 == 0) by (bit_vector);
}

/// The number and the fragment of a word fit their subfields.
pub proof fn lemma_parts_bounded(word: u64)
    ensures
        value_of(word) <= MAX_VALUE,
        fragment_of(word) <= MAX_FRAGMENT,
{
    assert(word & 0xFF <= 255 && word >> 8 <= 0x00FF_FFFF_FFFF_FFFF) by (bit_vector);
}

/// Reads the number of `word`.
pub fn read_value(word: u64) -> (value: usize)
    ensures
        value == value_of(word),
        value <= MAX_VALUE,
{
    proof {
        lemma_parts_bounded(word);
    }
    (word & VALUE_MASK) as usize
}

/// Replaces the number of `word` by `value` and keeps its filter fragment.
pub fn write_value(word: u64, value: usize) -> (written: u64)
    requires
        value <= MAX_VALUE,
    ensures
        value_of(written) == value,
        fragment_of(written) == fragment_of(word),
{
    let low: u64 = value as u64;
    assert(((word & 0xFFFF_FFFF_FFFF_FF00) | low) & 0xFF == low && ((word
        & 0xFFFF_FFFF_FFFF_FF00) | low) >> 8 == word >> 8) by (bit_vector)
        requires
            low <= 255,
    ;
    (word & FILTER_MASK) | low
}

/// Reads the filter fragment of `word`.
pub fn read_filter_fragment(word: u64) -> (fragment: u64)
    ensures
        fragment == fragment_of(word),
        fragment <= MAX_FRAGMENT,
{
    proof {
        lemma_parts_bounded(word);
    }
    word >> VALUE_BITS
}

/// Sets in the filter fragment of `word` every bit that is set in `mask`.
/// No bit is cleared and the number is kept.
pub fn set_filter_bits(word: u64, mask: u64) -> (marked: u64)
    requires
        mask <= MAX_FRAGMENT,
    ensures
        value_of(marked) == value_of(word),
        fragment_of(marked) == fragment_of(word) | mask,
{
    assert((word | (mask << 8)) & 0xFF == word & 0xFF && (word | (mask << 8)) >> 8 == (word >> 8)
        | mask) by (bit_vector)
        requires
            mask <= 0x00FF_FFFF_FFFF_FFFF,
    ;
    word | (mask << VALUE_BITS)
}

} // verus!
