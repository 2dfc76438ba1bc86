//! The hasher of the membership filter.
//!
//! The hasher keeps one byte and folds every byte it is given into it by
//! exclusive or. It is cheap and deterministic; how well it spreads values only
//! decides how often the filter asks for a scan that finds nothing.

use vstd::prelude::*;
use std::hash::Hasher;

verus! {

/// The exclusive or of all bytes of a sequence; zero for the empty sequence.
pub open spec fn xor_of(bytes: Seq<u8>) -> u8
    decreases bytes.len(),
{
    if bytes.len() == 0 {
        0
    } else {
        xor_of(bytes.drop_last()) ^ bytes.last()
    }
}

/// A hasher whose state is the exclusive or of the bytes written so far.
pub struct BloomHasher {
    state: u8,
}

impl View for BloomHasher {
    type V = u8;

    closed spec fn view(&self) -> u8 {
        self.state
    }
}

impl Default for BloomHasher {
    fn default() -> (hasher: Self)
        ensures
            hasher@ == 0,
    {
        BloomHasher { state: 0 }
    }
}

impl Hasher for BloomHasher {
    fn write(&mut self, bytes: &[u8])
        ensures
            final(self)@ == old(self)@ ^ xor_of(bytes@),
    {
        let ghost start = self.state;
        let mut i: usize = 0;
        assert(start ^ 0 == start) by (bit_vector);
        while i < bytes.len()
            invariant
                i <= bytes.len(),
                self.state == start ^ xor_of(bytes@.take(i as int)),
            decreases bytes.len() - i,
        {
            let byte = bytes[i];
            proof {
                let before = bytes@.take(i as int);
                let after = bytes@.take(i + 1);
                assert(after.drop_last() == before);
                assert(after.last() == byte);
                let folded = xor_of(before);
                assert((start ^ folded) ^ byte == start ^ (folded ^ byte)) by (bit_vector);
            }
            self.state = self.state ^ byte;
            i = i + 1;
        }
        assert(bytes@.take(i as int) == bytes@);
    }

    fn finish(&self) -> (hash: u64)
        ensures
            hash == self@,
    {
        self.state as u64
    }
}

} // verus!
