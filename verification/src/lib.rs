//! A growable set of distinct elements with the footprint of a growable array.
//!
//! The container is one owning pointer and two 64-bit words. The low 8 bits of
//! the words hold the number of elements and the capacity; the other 112 bits
//! hold a small membership filter that answers "definitely absent" for many
//! queries without a scan of the elements.

pub mod element;
pub mod filter;
pub mod hasher;
pub mod model;
pub mod set;
pub mod word;

pub use crate::element::Element;
pub use crate::hasher::BloomHasher;
pub use crate::set::BloomSet;
