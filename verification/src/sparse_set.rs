use vstd::prelude::*;

use crate::buffer::{is_zero_sized, RawBuffer};
use crate::error::Error;
use crate::indices::DataIndices;
use crate::iterator::{Iter, IterMut};
use vstd::std_specs::cmp::{PartialEqSpec, PartialEqSpecImpl};
use crate::model::{
    fits_allocation, grown_capacity, lemma_empty_wf, lemma_from_values, lemma_popped_wf, lemma_pushed_wf,
    lemma_removed_wf, SparseModel,
};

verus! {

/// Converts an array into a vector holding the same elements in the same
/// order: std's `From<[T; N]> for Vec<T>`.
#[verifier::external_body]
fn vec_from_array<T, const N: usize>(arr: [T; N]) -> (v: Vec<T>)
    ensures
        v@ == arr@,
{
    Vec::from(arr)
}

/// A container which holds the data contiguously, consistent indexing with
/// integer (`usize`), and no element shifting on middle removal.
///
/// Pushing a value returns the index under which it can be found again.
/// Removing a value moves the last value into the vacated place, so the
/// values stay contiguous, and every other index keeps naming its value.
/// A removed index is handed out again by the next push.
#[derive(Debug)]
pub struct SparseSet<V> {
    data: RawBuffer<V>,
    keys: RawBuffer<usize>,
    data_indexes: DataIndices,
    len: usize,
}

impl<V> View for SparseSet<V> {
    type V = SparseModel<V>;

    closed spec fn view(&self) -> SparseModel<V> {
        SparseModel { keys: self.keys.items@, slots: self.data_indexes@, values: self.data.items@ }
    }
}

impl<V> SparseSet<V> {
    /// The number of reserved slots.
    pub closed spec fn spec_capacity(&self) -> usize {
        self.keys.capacity
    }

    /// The buffers agree with each other and with the stored length.
    pub closed spec fn buffers_consistent(&self) -> bool {
        &&& self.len == self.data.items@.len()
        &&& self.data.capacity == (if is_zero_sized::<V>() {
            usize::MAX
        } else {
            self.keys.capacity
        })
    }

    /// The container is well formed: its bookkeeping is consistent, and no
    /// more indexes have been handed out than there are reserved slots, nor
    /// more than a slot of the sparse array can name.
    pub open spec fn wf(&self) -> bool {
        &&& self@.wf()
        &&& self@.keys.len() <= self.spec_capacity()
        &&& self@.keys.len() <= u32::MAX
        &&& self.buffers_consistent()
    }

    /// Create a new uninitialized SparseSet.
    pub fn new() -> (r: Self)
        ensures
            r.wf(),
            r@ == SparseModel::<V>::empty(),
            r.capacity() == 0,
    {
        proof {
            lemma_empty_wf::<V>();
        }
        let r = SparseSet {
            data: RawBuffer::new(),
            keys: RawBuffer::new(),
            data_indexes: DataIndices::new(),
            len: 0,
        };
        assert(r@ =~= SparseModel::<V>::empty());
        r
    }

    /// Create and initialize a new SparseSet with the specified capacity.
    pub fn with_capacity(capacity: usize) -> (r: Self)
        requires
            fits_allocation::<V>(capacity as int),
        ensures
            r.wf(),
            r@ == SparseModel::<V>::empty(),
            r.capacity() == capacity,
    {
        proof {
            lemma_empty_wf::<V>();
        }
        let r = SparseSet {
            data: RawBuffer::with_capacity(capacity),
            keys: RawBuffer::with_capacity(capacity),
            data_indexes: DataIndices::with_capacity(capacity),
            len: 0,
        };
        assert(r@ =~= SparseModel::<V>::empty());
        r
    }

    /// Move and transform an existing `Vec<V>` into a SparseSet: the value at
    /// position `i` of the vector is found under index `i`.
    pub fn from_vec(vec: Vec<V>) -> (r: Self)
        requires
            vec@.len() <= u32::MAX,
            vec@.len() * vstd::layout::size_of::<usize>() <= isize::MAX,
        ensures
            r.wf(),
            r@ == SparseModel::from_values(vec@),
            r.capacity() == vec@.len(),
    {
        let len = vec.len();
        let mut keys: Vec<usize> = Vec::with_capacity(len);
        let mut i: usize = 0;
        while i < len
            invariant
                i <= len,
                keys@ == Seq::new(i as nat, |j: int| j as usize),
            decreases len - i,
        {
            keys.push(i);
            i = i + 1;
            assert(keys@ =~= Seq::new(i as nat, |j: int| j as usize));
        }
        let data_indexes = DataIndices::from_slice(keys.as_slice());
        proof {
            lemma_from_values(vec@);
        }
        let r = SparseSet {
            data: RawBuffer::from_vec(vec),
            keys: RawBuffer::from_vec(keys),
            data_indexes,
            len,
        };
        assert(r@.slots =~= SparseModel::from_values(vec@).slots);
        assert(r@ =~= SparseModel::from_values(vec@));
        r
    }

    /// Create a new SparseSet from an array: the element at position `i` is
    /// found under index `i`.
    pub fn from_arr<const N: usize>(arr: [V; N]) -> (r: Self)
        requires
            N <= u32::MAX,
            N * vstd::layout::size_of::<usize>() <= isize::MAX,
        ensures
            r.wf(),
            r@ == SparseModel::from_values(arr@),
            r.capacity() == N,
    {
        let vec = vec_from_array(arr);
        Self::from_vec(vec)
    }

    /// Create a new SparseSet from a slice, cloning its elements: the clone
    /// of the element at position `i` is found under index `i`.
    pub fn from_slice(slice: &[V]) -> (r: Self) where V: Clone
        requires
            slice@.len() <= u32::MAX,
            slice@.len() * vstd::layout::size_of::<usize>() <= isize::MAX,
        ensures
            r.wf(),
            r@ == SparseModel::from_values(r@.values),
            r@.values.len() == slice@.len(),
            forall|i: int| 0 <= i < slice@.len() ==> cloned::<V>(slice@[i], #[trigger] r@.values[i]),
            r.capacity() == slice@.len(),
    {
        let mut values: Vec<V> = Vec::with_capacity(slice.len());
        let mut i: usize = 0;
        while i < slice.len()
            invariant
                i <= slice@.len(),
                values@.len() == i,
                forall|j: int| 0 <= j < i ==> cloned::<V>(slice@[j], #[trigger] values@[j]),
            decreases slice@.len() - i,
        {
            values.push(slice[i].clone());
            i = i + 1;
        }
        Self::from_vec(values)
    }

    /// Whether buffers of `slots` slots can be allocated for this element
    /// type: the test that `with_capacity(slots)` and a push that grows to
    /// `slots` ask of their callers.
    pub fn fits_allocation(slots: usize) -> (r: bool)
        ensures
            r == fits_allocation::<V>(slots as int),
    {
        proof {
            broadcast use vstd::layout::layout_of_primitives;
        }
        let limit = isize::MAX as usize;
        let values_fit = match slots.checked_mul(core::mem::size_of::<V>()) {
            Some(bytes) => bytes <= limit,
            None => false,
        };
        let indexes_fit = match slots.checked_mul(core::mem::size_of::<usize>()) {
            Some(bytes) => bytes <= limit,
            None => false,
        };
        values_fit && indexes_fit
    }

    /// Return the current capacity of this SparseSet.
    #[verifier::when_used_as_spec(spec_capacity)]
    pub fn capacity(&self) -> (r: usize)
        ensures
            r == self.spec_capacity(),
    {
        self.keys.capacity
    }

    /// Return the amount of elements currently stored in this SparseSet.
    pub fn len(&self) -> (r: usize)
        requires
            self.wf(),
        ensures
            r == self@.len(),
    {
        self.len
    }

    /// Whether no element is stored.
    pub fn is_empty(&self) -> (r: bool)
        requires
            self.wf(),
        ensures
            r == (self@.len() == 0),
    {
        self.len == 0
    }

    /// Appends `value` at the end of the dense array, under the most recently
    /// freed index or else a fresh one, and returns that index. The caller
    /// makes sure there is a free reserved slot.
    fn push_inner(&mut self, value: V) -> (r: usize)
        requires
            old(self).wf(),
            old(self)@.len() < old(self).capacity(),
            old(self)@.len() < u32::MAX,
        ensures
            final(self).wf(),
            r == old(self)@.next_index(),
            final(self)@ == old(self)@.pushed(value),
            final(self).capacity() == old(self).capacity(),
    {
        proof {
            lemma_pushed_wf(self@, value);
        }
        let len = self.len;
        let index = if self.data_indexes.len() > len {
            let empty = *self.keys.get(len);
            self.data_indexes.set(empty, len);
            self.data.push(value);
            empty
        } else {
            self.data_indexes.push(len);
            self.data.push(value);
            self.keys.push(len);
            len
        };
        self.len = len + 1;
        assert(self@ =~= old(self)@.pushed(value));
        index
    }

    /// Appends an element without growing: when the container is full the
    /// element is dropped and the error says why (no storage reserved at
    /// all, or every reserved slot in use). Otherwise the element is stored
    /// as by [`push`](Self::push) and its index returned.
    pub fn push_within_capacity(&mut self, value: V) -> (r: Result<usize, Error>)
        requires
            old(self).wf(),
            old(self)@.len() < old(self).capacity() ==> old(self)@.len() < u32::MAX,
        ensures
            final(self).wf(),
            final(self).capacity() == old(self).capacity(),
            old(self).capacity() == 0 ==> r == Err::<usize, Error>(Error::Uninitialized)
                && final(self)@ == old(self)@,
            old(self).capacity() > 0 && old(self)@.len() >= old(self).capacity()
                ==> r == Err::<usize, Error>(Error::ExceedCurrentCapacity)
                && final(self)@ == old(self)@,
            old(self)@.len() < old(self).capacity() ==> r == Ok::<usize, Error>(old(self)@.next_index())
                && final(self)@ == old(self)@.pushed(value),
    {
        match self.keys.check(self.len) {
            Ok(()) => Ok(self.push_inner(value)),
            Err(e) => Err(e),
        }
    }

    /// Appends an element to the back of this container and returns the
    /// index under which it is stored: the most recently removed index if
    /// there is one, else the next fresh index. A full container first grows
    /// its capacity to four slots if it had none, else to twice its capacity.
    pub fn push(&mut self, value: V) -> (r: usize)
        requires
            old(self).wf(),
            old(self)@.len() < u32::MAX,
            old(self)@.len() < old(self).capacity() || (grown_capacity(old(self).capacity()) <= usize::MAX
                && fits_allocation::<V>(grown_capacity(old(self).capacity()))),
        ensures
            final(self).wf(),
            r == old(self)@.next_index(),
            final(self)@ == old(self)@.pushed(value),
            final(self).capacity() == (if old(self)@.len() < old(self).capacity() {
                old(self).capacity() as int
            } else {
                grown_capacity(old(self).capacity())
            }),
    {
        proof {
            broadcast use vstd::layout::layout_of_primitives;
        }
        if self.keys.check(self.len).is_err() {
            self.data.grow();
            self.keys.grow();
        }
        self.push_inner(value)
    }

    /// Remove the element under `index` and return it; `None`, with nothing
    /// changed, when `index` names no element. The indexes of the other
    /// elements stay valid. The data stays contiguous, the vacant place being
    /// filled by the last element, and `index` becomes the next index that a
    /// push hands out.
    pub fn remove(&mut self, index: usize) -> (r: Option<V>)
        requires
            old(self).wf(),
        ensures
            final(self).wf(),
            final(self)@ == old(self)@.removed(index),
            r == (if old(self)@.contains(index) {
                Some(old(self)@.value_at(index))
            } else {
                None
            }),
            final(self).capacity() == old(self).capacity(),
    {
        proof {
            lemma_removed_wf(self@, index);
        }
        if self.len == 0 {
            return None;
        }
        let len = self.len;
        let last_key = *self.keys.get(len - 1);
        match self.data_indexes.get(index) {
            Some(data_index) => {
                proof {
                    assert(self@.slots[index as int] is Some);
                    assert(self@.keys[self@.position(index)] == index);
                }
                self.data_indexes.set(last_key, data_index);
                self.data_indexes.set_null(index);
                self.keys.swap(data_index, len - 1);
                self.len = len - 1;
                let value = self.data.swap_remove(data_index);
                assert(self@ =~= old(self)@.removed(index));
                Some(value)
            },
            None => None,
        }
    }

    /// Remove the last element of the dense array and return it; `None` when
    /// there is none. Its index becomes the next index that a push hands out.
    pub fn pop(&mut self) -> (r: Option<V>)
        requires
            old(self).wf(),
        ensures
            final(self).wf(),
            final(self)@ == old(self)@.popped(),
            r == (if old(self)@.len() > 0 {
                Some(old(self)@.values.last())
            } else {
                None
            }),
            final(self).capacity() == old(self).capacity(),
    {
        proof {
            lemma_popped_wf(self@);
        }
        if self.len == 0 {
            return None;
        }
        let last_key = *self.keys.get(self.len - 1);
        self.data_indexes.set_null(last_key);
        self.len = self.len - 1;
        let value = self.data.pop();
        assert(self@ =~= old(self)@.popped());
        Some(value)
    }

    /// Get an immutable reference of the contained value at the specified
    /// index; `None` when the index names no value.
    pub fn get(&self, index: usize) -> (r: Option<&V>)
        requires
            self.wf(),
        ensures
            r == (if self@.contains(index) {
                Some(&self@.value_at(index))
            } else {
                None
            }),
    {
        match self.data_indexes.get(index) {
            Some(data_index) => Some(self.data.get(data_index)),
            None => None,
        }
    }

    /// Get an immutable reference of the contained value at an index that the
    /// caller knows to be valid.
    pub fn get_unchecked(&self, index: usize) -> (r: &V)
        requires
            self.wf(),
            self@.contains(index),
        ensures
            *r == self@.value_at(index),
    {
        let data_index = self.data_indexes.get_unchecked(index);
        self.data.get(data_index)
    }

    /// Get a mutable reference of the contained value at the specified index;
    /// `None`, with nothing changed, when the index names no value. Whatever
    /// is written through the reference becomes the value under that index.
    pub fn get_mut(&mut self, index: usize) -> (r: Option<&mut V>)
        requires
            old(self).wf(),
        ensures
            r is Some <==> old(self)@.contains(index),
            old(self)@.contains(index) ==> *r->0 == old(self)@.value_at(index) && final(self)@
                == old(self)@.with_value(index, *final(r->0)),
            !old(self)@.contains(index) ==> final(self)@ == old(self)@,
            final(self).wf(),
            final(self).capacity() == old(self).capacity(),
    {
        match self.data_indexes.get(index) {
            Some(data_index) => Some(&mut self.data.items[data_index]),
            None => None,
        }
    }

    /// Get a mutable reference of the contained value at an index that the
    /// caller knows to be valid. Whatever is written through the reference
    /// becomes the value under that index.
    pub fn get_unchecked_mut(&mut self, index: usize) -> (r: &mut V)
        requires
            old(self).wf(),
            old(self)@.contains(index),
        ensures
            *r == old(self)@.value_at(index),
            final(self)@ == old(self)@.with_value(index, *final(r)),
            final(self).wf(),
            final(self).capacity() == old(self).capacity(),
    {
        let data_index = self.data_indexes.get_unchecked(index);
        &mut self.data.items[data_index]
    }

    /// Get an immutable reference to the first element of the dense array;
    /// `None` when empty.
    pub fn first(&self) -> (r: Option<&V>)
        requires
            self.wf(),
        ensures
            r == (if self@.len() > 0 {
                Some(&self@.values[0])
            } else {
                None
            }),
    {
        if self.len == 0 {
            return None;
        }
        Some(self.data.get(0))
    }

    /// Get a mutable reference to the first element of the dense array;
    /// `None`, with nothing changed, when empty.
    pub fn first_mut(&mut self) -> (r: Option<&mut V>)
        requires
            old(self).wf(),
        ensures
            r is Some <==> old(self)@.len() > 0,
            old(self)@.len() > 0 ==> *r->0 == old(self)@.values[0] && final(self)@
                == old(self)@.with_value_at(0, *final(r->0)),
            old(self)@.len() == 0 ==> final(self)@ == old(self)@,
            final(self).wf(),
            final(self).capacity() == old(self).capacity(),
    {
        if self.len == 0 {
            return None;
        }
        Some(&mut self.data.items[0])
    }

    /// Get an immutable reference to the last element of the dense array;
    /// `None` when empty.
    pub fn last(&self) -> (r: Option<&V>)
        requires
            self.wf(),
        ensures
            r == (if self@.len() > 0 {
                Some(&self@.values.last())
            } else {
                None
            }),
    {
        if self.len == 0 {
            return None;
        }
        Some(self.data.get(self.len - 1))
    }

    /// Get a mutable reference to the last element of the dense array;
    /// `None`, with nothing changed, when empty.
    pub fn last_mut(&mut self) -> (r: Option<&mut V>)
        requires
            old(self).wf(),
        ensures
            r is Some <==> old(self)@.len() > 0,
            old(self)@.len() > 0 ==> *r->0 == old(self)@.values.last() && final(self)@
                == old(self)@.with_value_at(old(self)@.len() - 1, *final(r->0)),
            old(self)@.len() == 0 ==> final(self)@ == old(self)@,
            final(self).wf(),
            final(self).capacity() == old(self).capacity(),
    {
        if self.len == 0 {
            return None;
        }
        let last = self.len - 1;
        Some(&mut self.data.items[last])
    }

    /// Get an immutable slice of the contained values, in storage order.
    pub fn values(&self) -> (r: &[V])
        ensures
            r@ == self@.values,
    {
        self.data.items.as_slice()
    }

    /// Get an immutable slice of the valid indexes: entry `d` is the index
    /// of the value at position `d` of [`values`](Self::values).
    pub fn indexes(&self) -> (r: &[usize])
        requires
            self.wf(),
        ensures
            r@ == self@.live_keys(),
    {
        vstd::slice::slice_subrange(self.keys.items.as_slice(), 0, self.len)
    }

    /// Clear the values and invalidate the indexes: afterwards the container
    /// is as new (indexes are handed out from zero again) but keeps its
    /// capacity. A container that holds no value is left as it is.
    pub fn clear(&mut self)
        requires
            old(self).wf(),
        ensures
            final(self).wf(),
            final(self)@ == old(self)@.cleared(),
            final(self).capacity() == old(self).capacity(),
    {
        proof {
            lemma_empty_wf::<V>();
        }
        if self.len > 0 {
            self.data_indexes.clear();
            self.data.clear();
            self.keys.clear();
            self.len = 0;
            assert(self@ =~= SparseModel::<V>::empty());
        }
    }

    /// Return an immutable iterator over the contained values, in storage
    /// order.
    pub fn iter(&self) -> (r: Iter<'_, V>)
        ensures
            r.rest() == self@.values,
    {
        Iter::new(self.data.items.as_slice())
    }

    /// Return a mutable iterator over the contained values, in storage
    /// order. The indexes and the capacity are untouched; once the borrow
    /// ends, the stored values are what the iterator's slice finally holds,
    /// that is, whatever was written through the references it yielded.
    pub fn iter_mut(&mut self) -> (r: IterMut<'_, V>)
        ensures
            r.has_slice(),
            r.rest() == old(self)@.values,
            final(self)@ == old(self)@.with_values((*final(r.slice()))@),
            final(self).capacity() == old(self).capacity(),
            old(self).wf() && (*final(r.slice()))@.len() == old(self)@.len() ==> final(self).wf(),
    {
        IterMut::new(self.data.items.as_mut_slice())
    }
}

/// `set[index]` reads the value under an index that names one.
impl<V> std::ops::Index<usize> for SparseSet<V> {
    type Output = V;

    fn index(&self, index: usize) -> (r: &V)
        ensures
            *r == self@.value_at(index),
    {
        self.get_unchecked(index)
    }
}

impl<V> vstd::std_specs::core::IndexSpecImpl<usize> for SparseSet<V> {
    open spec fn index_req(&self, index: &usize) -> bool {
        self.wf() && self@.contains(*index)
    }
}

/// A clone has the same indexes, the same free indexes in the same order, and
/// a clone of each value in the same position. Like a set built from a
/// vector, it reserves exactly the room it needs: its capacity is the number
/// of indexes handed out, which is its length unless some indexes are free.
impl<V: Clone> Clone for SparseSet<V> {
    fn clone(&self) -> (r: Self)
        ensures
            r@.keys == self@.keys,
            r@.slots == self@.slots,
            r@.values.len() == self@.values.len(),
            forall|i: int| 0 <= i < self@.values.len() ==> cloned::<V>(self@.values[i], #[trigger] r@.values[i]),
            r.capacity() == self@.keys.len(),
            self.wf() ==> r.wf(),
    {
        let values = self.data.items.clone();
        let mut keys: Vec<usize> = Vec::with_capacity(self.keys.items.len());
        let mut i: usize = 0;
        while i < self.keys.items.len()
            invariant
                i <= self.keys.items@.len(),
                keys@ == self.keys.items@.subrange(0, i as int),
            decreases self.keys.items@.len() - i,
        {
            keys.push(*self.keys.get(i));
            i = i + 1;
            assert(keys@ =~= self.keys.items@.subrange(0, i as int));
        }
        assert(keys@ =~= self.keys.items@);
        let slots = keys.len();
        let data_capacity = if RawBuffer::<V>::is_zst() {
            usize::MAX
        } else {
            slots
        };
        SparseSet {
            data: RawBuffer { items: values, capacity: data_capacity },
            keys: RawBuffer { items: keys, capacity: slots },
            data_indexes: self.data_indexes.copy(),
            len: self.len,
        }
    }
}

impl<V> Default for SparseSet<V> {
    /// An empty container with no reserved slot.
    fn default() -> (r: Self)
        ensures
            r.wf(),
            r@ == SparseModel::<V>::empty(),
            r.capacity() == 0,
    {
        Self::new()
    }
}

impl<V> SparseSet<V> {
    /// The keys of the first `len` entries of the key buffer (all of them
    /// when the buffer is shorter).
    closed spec fn key_prefix(&self) -> Seq<usize> {
        if self.len <= self.keys.items@.len() {
            self.keys.items@.subrange(0, self.len as int)
        } else {
            self.keys.items@
        }
    }

    /// What `==` compares: the lengths, the values position by position
    /// (with `V`'s own equality), the slots, and the keys of the stored
    /// values.
    pub closed spec fn same_contents(&self, other: &Self) -> bool where V: PartialEq {
        &&& self.len == other.len
        &&& self.data.items@.len() == other.data.items@.len()
        &&& forall|j: int|
            0 <= j < self.data.items@.len() ==> (#[trigger] self.data.items@[j]).eq_spec(
                &other.data.items@[j],
            )
        &&& self.data_indexes@ == other.data_indexes@
        &&& self.key_prefix() == other.key_prefix()
    }

    /// On well-formed containers, `==` compares the stored values in order,
    /// the indexes of the stored values, and the slots of every index handed
    /// out.
    pub proof fn lemma_same_contents(&self, other: &Self) where V: PartialEq
        requires
            self.wf(),
            other.wf(),
        ensures
            self.same_contents(other) <==> {
                &&& self@.values.len() == other@.values.len()
                &&& forall|j: int|
                    0 <= j < self@.values.len() ==> (#[trigger] self@.values[j]).eq_spec(
                        &other@.values[j],
                    )
                &&& self@.live_keys() == other@.live_keys()
                &&& self@.slots == other@.slots
            },
    {
    }

    /// The number of leading key entries that `==` compares.
    fn key_prefix_len(&self) -> (r: usize)
        ensures
            r as int == self.key_prefix().len(),
            r <= self.keys.items@.len(),
            self.key_prefix() == self.keys.items@.subrange(0, r as int),
    {
        if self.len <= self.keys.items.len() {
            self.len
        } else {
            self.keys.items.len()
        }
    }
}

/// Two containers are equal when they hold equal values in the same storage
/// order under the same indexes, and have the same slots.
impl<V: PartialEq> PartialEq for SparseSet<V> {
    fn eq(&self, other: &Self) -> (r: bool) {
        if self.len != other.len {
            return false;
        }
        let n = self.data.items.len();
        if n != other.data.items.len() {
            return false;
        }
        let mut i: usize = 0;
        while i < n
            invariant
                n == self.data.items@.len(),
                n == other.data.items@.len(),
                i <= n,
                V::obeys_eq_spec() ==> forall|j: int|
                    0 <= j < i ==> (#[trigger] self.data.items@[j]).eq_spec(&other.data.items@[j]),
            decreases n - i,
        {
            if !(self.data.items[i] == other.data.items[i]) {
                return false;
            }
            i = i + 1;
        }
        let m = self.data_indexes.len();
        if m != other.data_indexes.len() {
            return false;
        }
        let mut k: usize = 0;
        while k < m
            invariant
                m == self.data_indexes@.len(),
                m == other.data_indexes@.len(),
                k <= m,
                forall|j: int| 0 <= j < k ==> #[trigger] self.data_indexes@[j] == other.data_indexes@[j],
            decreases m - k,
        {
            if self.data_indexes.get(k) != other.data_indexes.get(k) {
                return false;
            }
            k = k + 1;
        }
        let p = self.key_prefix_len();
        if p != other.key_prefix_len() {
            return false;
        }
        let mut d: usize = 0;
        while d < p
            invariant
                p as int == self.key_prefix().len(),
                p as int == other.key_prefix().len(),
                p <= self.keys.items@.len(),
                p <= other.keys.items@.len(),
                self.key_prefix() == self.keys.items@.subrange(0, p as int),
                other.key_prefix() == other.keys.items@.subrange(0, p as int),
                d <= p,
                forall|j: int| 0 <= j < d ==> #[trigger] self.keys.items@[j] == other.keys.items@[j],
            decreases p - d,
        {
            if *self.keys.get(d) != *other.keys.get(d) {
                assert(self.key_prefix()[d as int] != other.key_prefix()[d as int]);
                return false;
            }
            d = d + 1;
        }
        assert(self.data_indexes@ =~= other.data_indexes@);
        assert(self.key_prefix() =~= other.key_prefix());
        true
    }
}

impl<V: Eq> Eq for SparseSet<V> {
}

impl<V: PartialEq> PartialEqSpecImpl for SparseSet<V> {
    open spec fn obeys_eq_spec() -> bool {
        V::obeys_eq_spec()
    }

    open spec fn eq_spec(&self, other: &Self) -> bool {
        self.same_contents(other)
    }
}

} // verus!
