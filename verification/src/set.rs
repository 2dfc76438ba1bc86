//! The set.

use vstd::prelude::*;
use crate::element::{hash, position_of, same, Element};
use crate::model::{grown_capacity, has_position, lemma_positions_of_push, with_item};
use crate::filter::{
    filter_position, lemma_empty_filter, maybe_present, probe, record, FILTER_BITS,
};
use crate::word::{
    fragment_of, lemma_parts_bounded, lemma_zero_word, read_value, value_of, write_value,
    MAX_VALUE,
};

verus! {

/// A set of at most 255 distinct elements, kept in the order in which they
/// were first inserted.
///
/// The set is one owning pointer and two words. The words hold the number of
/// elements and the capacity in their low 8 bits and the membership filter in
/// the rest.
pub struct BloomSet<T: Element> {
    data: Option<Box<Vec<T>>>,
    length: u64,
    capacity: u64,
}

impl<T: Element> View for BloomSet<T> {
    type V = Seq<T>;

    /// The elements, in the order of their first insertion.
    closed spec fn view(&self) -> Seq<T> {
        match self.data {
            Some(buffer) => buffer@,
            None => Seq::empty(),
        }
    }
}

impl<T: Element> BloomSet<T> {
    /// The number of elements the set has room for before it grows.
    pub closed spec fn spec_capacity(&self) -> nat {
        value_of(self.capacity) as nat
    }

    /// Whether the filter has the bit at `index` set.
    pub closed spec fn filter_has(&self, index: u64) -> bool {
        maybe_present(self.length, self.capacity, index)
    }

    /// What holds of every set: the count word holds the number of elements,
    /// which is within the capacity; no element occurs twice; and the filter
    /// has exactly the bits set that are positions of elements.
    #[verifier::type_invariant]
    pub closed spec fn well_formed(&self) -> bool {
        &&& value_of(self.length) == self@.len()
        &&& self@.len() <= value_of(self.capacity)
        &&& self.data is None ==> value_of(self.capacity) == 0
        &&& self@.no_duplicates()
        &&& forall|index: u64|
            index < FILTER_BITS ==> (#[trigger] maybe_present(self.length, self.capacity, index)
                <==> has_position(self@, index))
    }

    /// The number of elements is within the capacity, and the capacity within
    /// the limit of 255.
    pub proof fn lemma_len_within_capacity(self)
        requires
            self.well_formed(),
        ensures
            self@.len() <= self.spec_capacity() <= MAX_VALUE,
    {
        lemma_parts_bounded(self.capacity);
    }

    /// No element occurs twice.
    pub proof fn lemma_elements_distinct(self)
        requires
            self.well_formed(),
        ensures
            self@.no_duplicates(),
    {
    }

    /// The filter has a bit set exactly where an element has its position:
    /// it never denies an element of the set.
    pub proof fn lemma_filter_is_exact(self, index: u64)
        requires
            self.well_formed(),
            index < FILTER_BITS,
        ensures
            self.filter_has(index) <==> has_position(self@, index),
    {
    }

    /// An element is absent where the filter has no bit for its position.
    pub proof fn lemma_unset_bit_is_absent(self, item: T)
        requires
            self.well_formed(),
            !self.filter_has(position_of(item)),
        ensures
            !self@.contains(item),
    {
        if self@.contains(item) {
            let i = choose|i: int| 0 <= i < self@.len() && self@[i] == item;
            assert(position_of(self@[i]) == position_of(item));
        }
    }

    /// An empty set that has allocated nothing.
    pub fn new() -> (set: Self)
        ensures
            set@ == Seq::<T>::empty(),
            set.spec_capacity() == 0,
            forall|index: u64| index < FILTER_BITS ==> !#[trigger] set.filter_has(index),
    {
        proof {
            lemma_zero_word();
            lemma_empty_filter(0, 0);
        }
        BloomSet { data: None, length: 0, capacity: 0 }
    }

    /// An empty set with room for `capacity` elements.
    pub fn with_capacity(capacity: usize) -> (set: Self)
        requires
            capacity <= MAX_VALUE,
        ensures
            set@ == Seq::<T>::empty(),
            set.spec_capacity() == capacity,
            forall|index: u64| index < FILTER_BITS ==> !#[trigger] set.filter_has(index),
    {
        proof {
            lemma_zero_word();
        }
        let capacity_word = write_value(0, capacity);
        let data = if capacity == 0 {
            None
        } else {
            Some(Box::new(Vec::with_capacity(capacity)))
        };
        proof {
            lemma_empty_filter(0, capacity_word);
        }
        BloomSet { data, length: 0, capacity: capacity_word }
    }

    /// The number of elements.
    pub fn len(&self) -> (len: usize)
        ensures
            len == self@.len(),
            len <= self.spec_capacity(),
    {
        proof {
            use_type_invariant(self);
        }
        read_value(self.length)
    }

    /// The number of elements the set has room for before it grows.
    pub fn capacity(&self) -> (capacity: usize)
        ensures
            capacity == self.spec_capacity(),
            self@.len() <= capacity <= MAX_VALUE,
    {
        proof {
            use_type_invariant(self);
        }
        read_value(self.capacity)
    }

    /// Whether the set has no element.
    pub fn is_empty(&self) -> (empty: bool)
        ensures
            empty == (self@.len() == 0),
    {
        self.len() == 0
    }

    /// The elements, in the order of their first insertion.
    pub fn as_slice(&self) -> (elements: &[T])
        ensures
            elements@ == self@,
    {
        match &self.data {
            Some(buffer) => buffer.as_slice(),
            None => &[],
        }
    }

    /// Tests the filter at `bloom_bit`: `false` says that no element has this
    /// position, `true` that at least one has.
    pub fn bloom_contains(&self, bloom_bit: u64) -> (maybe: bool)
        requires
            bloom_bit < FILTER_BITS,
        ensures
            maybe == self.filter_has(bloom_bit),
            maybe == has_position(self@, bloom_bit),
    {
        proof {
            use_type_invariant(self);
        }
        probe(self.length, self.capacity, bloom_bit)
    }

    /// Whether `item` is an element of the set.
    ///
    /// Where the filter says that no element has the position of `item`, the
    /// answer is given without a look at the elements.
    pub fn contains(&self, item: &T) -> (found: bool)
        ensures
            found == self@.contains(*item),
    {
        let index = filter_position(hash(item));
        if self.bloom_contains(index) {
            self.scan(item)
        } else {
            proof {
                use_type_invariant(self);
                self.lemma_unset_bit_is_absent(*item);
            }
            false
        }
    }

    /// Looks for `item` among the elements, one by one.
    fn scan(&self, item: &T) -> (found: bool)
        ensures
            found == self@.contains(*item),
    {
        let elements = self.as_slice();
        let mut i: usize = 0;
        while i < elements.len()
            invariant
                i <= elements.len(),
                elements@ == self@,
                forall|j: int| 0 <= j < i ==> self@[j] != *item,
            decreases elements.len() - i,
        {
            if same(&elements[i], item) {
                return true;
            }
            i = i + 1;
        }
        false
    }

    /// Puts `item` into the set unless it is there already. A new element
    /// comes after all others; a full buffer first grows to
    /// `grown_capacity` of its capacity. The filter gets the bit of `item`
    /// and loses none.
    ///
    /// A set holds at most 255 elements: a new element for a set of 255 is
    /// not admitted.
    pub fn insert(&mut self, item: T)
        requires
            old(self)@.contains(item) || old(self)@.len() < MAX_VALUE,
        ensures
            final(self)@ == with_item(old(self)@, item),
            final(self).spec_capacity() == if old(self)@.contains(item) || old(self)@.len()
                < old(self).spec_capacity() {
                old(self).spec_capacity()
            } else {
                grown_capacity(old(self).spec_capacity())
            },
            forall|index: u64|
                index < FILTER_BITS ==> (#[trigger] final(self).filter_has(index) <==> old(
                    self,
                ).filter_has(index) || index == position_of(item)),
    {
        proof {
            use_type_invariant(&*self);
        }
        let index = filter_position(hash(&item));
        let mut count_word = self.length;
        let mut capacity_word = self.capacity;
        let maybe_in_set = record(&mut count_word, &mut capacity_word, index);
        let in_set = if maybe_in_set {
            self.scan(&item)
        } else {
            proof {
                self.lemma_unset_bit_is_absent(item);
            }
            false
        };
        if !in_set {
            let ghost before = self@;
            let ghost length = self.length;
            let ghost capacity = self.capacity;
            let ghost recorded_count = count_word;
            let ghost recorded_capacity = capacity_word;
            // The set is taken apart and put together again in one step, so
            // that it is well formed wherever it can be seen.
            let mut taken = BloomSet::new();
            core::mem::swap(self, &mut taken);
            let BloomSet { data, length: _, capacity: _ } = taken;
            let len = read_value(count_word);
            let buffer = if len == read_value(capacity_word) {
                let (buffer, grown) = Self::insert_resizing(data, capacity_word, item);
                capacity_word = grown;
                buffer
            } else {
                Self::push_in_place(data, item)
            };
            count_word = write_value(count_word, len + 1);
            proof {
                assert forall|p: u64| p < FILTER_BITS implies {
                    &&& #[trigger] maybe_present(count_word, capacity_word, p) <==> p == index
                        || maybe_present(length, capacity, p)
                    &&& maybe_present(count_word, capacity_word, p) <==> has_position(buffer@, p)
                } by {
                    assert(maybe_present(count_word, capacity_word, p) == maybe_present(
                        recorded_count,
                        recorded_capacity,
                        p,
                    ));
                    lemma_positions_of_push(before, item, p);
                }
            }
            *self = BloomSet { data: Some(buffer), length: count_word, capacity: capacity_word };
        }
    }

    /// Appends `item` to a full buffer: reserves room for `grown_capacity`
    /// of the old capacity, moves the elements there with `item` behind
    /// them, and writes the new capacity into the word. The filter fragment
    /// of the word stays.
    fn insert_resizing(data: Option<Box<Vec<T>>>, capacity_word: u64, item: T) -> (grown: (
        Box<Vec<T>>,
        u64,
    ))
        requires
            data matches Some(buffer) ==> buffer@.len() == value_of(capacity_word),
            data is None ==> value_of(capacity_word) == 0,
            value_of(capacity_word) < MAX_VALUE,
        ensures
            grown.0@ == (match data {
                Some(buffer) => buffer@,
                None => Seq::empty(),
            }).push(item),
            value_of(grown.1) == grown_capacity(value_of(capacity_word) as nat),
            fragment_of(grown.1) == fragment_of(capacity_word),
    {
        let capacity = read_value(capacity_word);
        let target: usize = if capacity == 0 {
            4
        } else if capacity >= 128 {
            MAX_VALUE
        } else {
            2 * capacity
        };
        let mut buffer = match data {
            Some(buffer) => buffer,
            None => Box::new(Vec::new()),
        };
        buffer.reserve(target - capacity);
        buffer.push(item);
        (buffer, write_value(capacity_word, target))
    }

    /// Appends `item` to a buffer that has room for it.
    fn push_in_place(data: Option<Box<Vec<T>>>, item: T) -> (buffer: Box<Vec<T>>)
        ensures
            buffer@ == (match data {
                Some(buffer) => buffer@,
                None => Seq::empty(),
            }).push(item),
    {
        let mut buffer = match data {
            Some(buffer) => buffer,
            None => Box::new(Vec::new()),
        };
        buffer.push(item);
        buffer
    }

    /// Removes all elements and empties the filter. The capacity stays.
    pub fn clear(&mut self)
        ensures
            final(self)@ == Seq::<T>::empty(),
            final(self).spec_capacity() == old(self).spec_capacity(),
            forall|index: u64| index < FILTER_BITS ==> !#[trigger] final(self).filter_has(index),
    {
        proof {
            use_type_invariant(&*self);
        }
        let mut taken = BloomSet::new();
        core::mem::swap(self, &mut taken);
        let BloomSet { data, length: _, capacity } = taken;
        let data = match data {
            Some(mut buffer) => {
                buffer.clear();
                Some(buffer)
            },
            None => None,
        };
        let capacity_word = write_value(0, read_value(capacity));
        proof {
            lemma_zero_word();
            lemma_empty_filter(0, capacity_word);
        }
        *self = BloomSet { data, length: 0, capacity: capacity_word };
    }
}

impl<T: Element> Default for BloomSet<T> {
    /// An empty set that has allocated nothing.
    fn default() -> (set: Self)
        ensures
            set@ == Seq::<T>::empty(),
            set.spec_capacity() == 0,
            forall|index: u64| index < FILTER_BITS ==> !#[trigger] set.filter_has(index),
    {
        BloomSet::new()
    }
}

} // verus!
