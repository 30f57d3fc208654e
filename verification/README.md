# sparse_set

A container that holds its values contiguously, hands out stable `usize`
indexes for them, and does not shift elements when one is removed from the
middle: the last value fills the hole, and every other index keeps naming the
same value. Freed indexes are handed out again, most recently freed first.

The library is written in Verus and verified:

* `src/model.rs` — the abstract state (`SparseModel`: dense values, the keys
  handed out, the sparse slots), its well-formedness, the state each operation
  leads to, and the laws relating operations (push inserts under an unused
  index, removal keeps every other index, a removed index is reused next,
  push-then-remove restores, the indexes match the values one to one).
* `src/sparse_set.rs` — `SparseSet`, whose operations are specified against
  the model.
* `src/buffer.rs`, `src/indices.rs` — the dense buffers with their capacity
  rule (a buffer of zero-sized values never runs out of room), and the sparse
  array of slots.
* `src/iterator.rs` — `Iter` and `IterMut`, both double-ended iterators;
  `IterMut`'s contracts say where the writes through the references it
  yields end up, and `iter_mut` ties them back to the set.
* `src/error.rs` — the error of `push_within_capacity`.

`app/` holds what the verified core cannot: the `sparse!` macro, collecting
from any iterator, and a copy of the error type with `Display` and
`std::error::Error`.
