//! What a set asks of its elements.

use vstd::prelude::*;
use vstd::std_specs::cmp::PartialEqSpec;
use std::hash::Hasher;
use crate::filter::position;
use crate::hasher::{xor_of, BloomHasher};

verus! {

/// A type whose values can be kept in a set.
///
/// A value feeds bytes to the hasher; their exclusive or is its digest, a
/// function of the value alone. `==` on the type must tell exactly whether two
/// values are the same value, so equal values have equal digests.
pub trait Element: PartialEq + Sized {
    /// The exclusive or of the bytes that the value feeds to a hasher.
    spec fn digest(&self) -> u8;

    /// Feeds the value to the hasher.
    fn feed(&self, state: &mut BloomHasher)
        ensures
            final(state)@ == old(state)@ ^ self.digest(),
    ;

    /// `==` on this type is the identity of values.
    proof fn eq_is_identity(a: &Self, b: &Self)
        ensures
            Self::obeys_eq_spec(),
            a.eq_spec(b) <==> *a == *b,
    ;
}

/// The hash of an element: what a fresh hasher holds once the element was fed
/// to it.
pub open spec fn hash_of<T: Element>(item: T) -> u64 {
    item.digest() as u64
}

/// The position of an element in the membership filter.
pub open spec fn position_of<T: Element>(item: T) -> u64 {
    position(hash_of(item))
}

/// Hashes an element with a fresh hasher.
pub fn hash<T: Element>(item: &T) -> (hash: u64)
    ensures
        hash == hash_of(*item),
{
    let mut hasher = BloomHasher::default();
    item.feed(&mut hasher);
    let ghost digest = item.digest();
    assert(0u8 ^ digest == digest) by (bit_vector);
    hasher.finish()
}

/// Tells whether two elements are the same.
pub fn same<T: Element>(a: &T, b: &T) -> (equal: bool)
    ensures
        equal == (*a == *b),
{
    proof {
        T::eq_is_identity(a, b);
    }
    *a == *b
}

/// The two bytes of a number, low byte first.
pub open spec fn bytes_of_u16(x: u16) -> Seq<u8> {
    seq![(x & 0xff) as u8, (x >> 8) as u8]
}

/// The four bytes of a number, low byte first.
pub open spec fn bytes_of_u32(x: u32) -> Seq<u8> {
    seq![
        (x & 0xff) as u8,
        ((x >> 8) & 0xff) as u8,
        ((x >> 16) & 0xff) as u8,
        (x >> 24) as u8,
    ]
}

/// The eight bytes of a number, low byte first.
pub open spec fn bytes_of_u64(x: u64) -> Seq<u8> {
    seq![
        (x & 0xff) as u8,
        ((x >> 8) & 0xff) as u8,
        ((x >> 16) & 0xff) as u8,
        ((x >> 24) & 0xff) as u8,
        ((x >> 32) & 0xff) as u8,
        ((x >> 40) & 0xff) as u8,
        ((x >> 48) & 0xff) as u8,
        (x >> 56) as u8,
    ]
}

/// Feeds the two bytes of `x` to the hasher.
fn feed_u16(x: u16, state: &mut BloomHasher)
    ensures
        final(state)@ == old(state)@ ^ xor_of(bytes_of_u16(x)),
{
    let bytes: [u8; 2] = [(x & 0xff) as u8, (x >> 8) as u8];
    assert(bytes@ == bytes_of_u16(x));
    state.write(bytes.as_slice());
}

/// Feeds the four bytes of `x` to the hasher.
fn feed_u32(x: u32, state: &mut BloomHasher)
    ensures
        final(state)@ == old(state)@ ^ xor_of(bytes_of_u32(x)),
{
    let bytes: [u8; 4] = [
        (x & 0xff) as u8,
        ((x >> 8) & 0xff) as u8,
        ((x >> 16) & 0xff) as u8,
        (x >> 24) as u8,
    ];
    assert(bytes@ == bytes_of_u32(x));
    state.write(bytes.as_slice());
}

/// Feeds the eight bytes of `x` to the hasher.
fn feed_u64(x: u64, state: &mut BloomHasher)
    ensures
        final(state)@ == old(state)@ ^ xor_of(bytes_of_u64(x)),
{
    let bytes: [u8; 8] = [
        (x & 0xff) as u8,
        ((x >> 8) & 0xff) as u8,
        ((x >> 16) & 0xff) as u8,
        ((x >> 24) & 0xff) as u8,
        ((x >> 32) & 0xff) as u8,
        ((x >> 40) & 0xff) as u8,
        ((x >> 48) & 0xff) as u8,
        (x >> 56) as u8,
    ];
    assert(bytes@ == bytes_of_u64(x));
    state.write(bytes.as_slice());
}

impl Element for u8 {
    open spec fn digest(&self) -> u8 {
        *self
    }

    fn feed(&self, state: &mut BloomHasher) {
        let bytes: [u8; 1] = [*self];
        proof {
            reveal_with_fuel(xor_of, 2);
            let value = *self;
            assert(0u8 ^ value == value) by (bit_vector);
            assert(bytes@.drop_last().len() == 0);
        }
        state.write(bytes.as_slice());
    }

    proof fn eq_is_identity(a: &Self, b: &Self) {
    }
}

impl Element for u16 {
    open spec fn digest(&self) -> u8 {
        xor_of(bytes_of_u16(*self))
    }

    fn feed(&self, state: &mut BloomHasher) {
        feed_u16(*self, state);
    }

    proof fn eq_is_identity(a: &Self, b: &Self) {
    }
}

impl Element for u32 {
    open spec fn digest(&self) -> u8 {
        xor_of(bytes_of_u32(*self))
    }

    fn feed(&self, state: &mut BloomHasher) {
        feed_u32(*self, state);
    }

    proof fn eq_is_identity(a: &Self, b: &Self) {
    }
}

impl Element for u64 {
    open spec fn digest(&self) -> u8 {
        xor_of(bytes_of_u64(*self))
    }

    fn feed(&self, state: &mut BloomHasher) {
        feed_u64(*self, state);
    }

    proof fn eq_is_identity(a: &Self, b: &Self) {
    }
}

impl Element for usize {
    open spec fn digest(&self) -> u8 {
        xor_of(bytes_of_u64(*self as u64))
    }

    fn feed(&self, state: &mut BloomHasher) {
        feed_u64(*self as u64, state);
    }

    proof fn eq_is_identity(a: &Self, b: &Self) {
    }
}

impl Element for i8 {
    open spec fn digest(&self) -> u8 {
        *self as u8
    }

    fn feed(&self, state: &mut BloomHasher) {
        (*self as u8).feed(state);
    }

    proof fn eq_is_identity(a: &Self, b: &Self) {
    }
}

impl Element for i16 {
    open spec fn digest(&self) -> u8 {
        xor_of(bytes_of_u16(*self as u16))
    }

    fn feed(&self, state: &mut BloomHasher) {
        feed_u16(*self as u16, state);
    }

    proof fn eq_is_identity(a: &Self, b: &Self) {
    }
}

impl Element for i32 {
    open spec fn digest(&self) -> u8 {
        xor_of(bytes_of_u32(*self as u32))
    }

    fn feed(&self, state: &mut BloomHasher) {
        feed_u32(*self as u32, state);
    }

    proof fn eq_is_identity(a: &Self, b: &Self) {
    }
}

impl Element for i64 {
    open spec fn digest(&self) -> u8 {
        xor_of(bytes_of_u64(*self as u64))
    }

    fn feed(&self, state: &mut BloomHasher) {
        feed_u64(*self as u64, state);
    }

    proof fn eq_is_identity(a: &Self, b: &Self) {
    }
}

impl Element for isize {
    open spec fn digest(&self) -> u8 {
        xor_of(bytes_of_u64(*self as u64))
    }

    fn feed(&self, state: &mut BloomHasher) {
        feed_u64(*self as u64, state);
    }

    proof fn eq_is_identity(a: &Self, b: &Self) {
    }
}

} // verus!
