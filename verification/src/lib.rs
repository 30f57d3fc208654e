//! A container that keeps its values contiguous, hands out stable integer
//! indexes for them, and never shifts elements when one is removed from the
//! middle: the hole is filled by the last element and the index bookkeeping
//! is updated so that every other index keeps naming the same value.

mod buffer;
pub mod error;
mod indices;
mod iterator;
pub mod model;
mod sparse_set;

pub use iterator::{Iter, IterMut};
pub use sparse_set::SparseSet;
