use vstd::prelude::*;

use crate::error::Error;
use crate::model::grown_capacity;

verus! {

/// A growable buffer with an explicit capacity: the values it holds, in
/// order, and the number of slots reserved for them. Growth is decided here,
/// not left to the allocator, so that the capacity a caller observes follows
/// a fixed rule.
#[derive(Debug)]
pub(crate) struct RawBuffer<T> {
    pub(crate) items: Vec<T>,
    pub(crate) capacity: usize,
}

/// Whether values of type `T` take no room at all.
pub(crate) open spec fn is_zero_sized<T>() -> bool {
    vstd::layout::size_of::<T>() == 0
}

/// The capacity of a buffer that has allocated nothing: none, except that
/// a buffer of zero-sized values never runs out of room.
pub(crate) open spec fn unallocated_capacity<T>() -> usize {
    if is_zero_sized::<T>() {
        usize::MAX
    } else {
        0
    }
}

/// What a bounds check on `offset` answers for a buffer of `capacity` slots.
pub(crate) open spec fn check_result(capacity: usize, offset: usize) -> Result<(), Error> {
    if capacity == 0 {
        Err(Error::Uninitialized)
    } else if offset >= capacity {
        Err(Error::ExceedCurrentCapacity)
    } else {
        Ok(())
    }
}

impl<T> RawBuffer<T> {
    /// Whether values of type `T` take no room at all.
    pub(crate) fn is_zst() -> (r: bool)
        ensures
            r == is_zero_sized::<T>(),
    {
        core::mem::size_of::<T>() == 0
    }

    /// An empty buffer with no allocation: no reserved slot, except that a
    /// buffer of zero-sized values never runs out of room.
    pub(crate) fn new() -> (r: Self)
        ensures
            r.items@ == Seq::<T>::empty(),
            r.capacity == unallocated_capacity::<T>(),
    {
        let capacity: usize = if Self::is_zst() {
            usize::MAX
        } else {
            0
        };
        RawBuffer { items: Vec::new(), capacity }
    }

    /// An empty buffer with `capacity` reserved slots (a buffer of
    /// zero-sized values keeps its unlimited room).
    pub(crate) fn with_capacity(capacity: usize) -> (r: Self)
        requires
            capacity * vstd::layout::size_of::<T>() <= isize::MAX,
        ensures
            r.items@ == Seq::<T>::empty(),
            r.capacity == (if is_zero_sized::<T>() {
                usize::MAX
            } else {
                capacity
            }),
    {
        let mut this = Self::new();
        if capacity > 0 && this.capacity == 0 {
            this.items = Vec::with_capacity(capacity);
            this.capacity = capacity;
        }
        this
    }

    /// A buffer that takes over `items`, with exactly as many reserved slots
    /// as there are items (a buffer of zero-sized values keeps its unlimited
    /// room).
    pub(crate) fn from_vec(items: Vec<T>) -> (r: Self)
        ensures
            r.items@ == items@,
            r.capacity == (if is_zero_sized::<T>() {
                usize::MAX
            } else {
                items@.len() as usize
            }),
    {
        let capacity: usize = if Self::is_zst() {
            usize::MAX
        } else {
            items.len()
        };
        RawBuffer { items, capacity }
    }

    /// Enlarges the reservation: to four slots when there is none, else to
    /// twice the current capacity. A buffer of zero-sized values already has
    /// unlimited room and stays as it is.
    pub(crate) fn grow(&mut self)
        requires
            old(self).items@.len() <= old(self).capacity,
            !is_zero_sized::<T>() ==> grown_capacity(old(self).capacity) <= usize::MAX,
            grown_capacity(old(self).capacity) * vstd::layout::size_of::<T>() <= isize::MAX,
        ensures
            final(self).items@ == old(self).items@,
            final(self).capacity == (if is_zero_sized::<T>() {
                old(self).capacity as int
            } else {
                grown_capacity(old(self).capacity)
            }),
    {
        if Self::is_zst() {
            return;
        }
        let new_capacity: usize = if self.capacity == 0 {
            4
        } else {
            self.capacity * 2
        };
        let additional: usize = new_capacity - self.items.len();
        self.items.reserve(additional);
        self.capacity = new_capacity;
    }

    /// Whether a value may be written at `offset` without growing.
    pub(crate) fn check(&self, offset: usize) -> (r: Result<(), Error>)
        ensures
            r == check_result(self.capacity, offset),
    {
        if self.capacity == 0 {
            Err(Error::Uninitialized)
        } else if offset >= self.capacity {
            Err(Error::ExceedCurrentCapacity)
        } else {
            Ok(())
        }
    }

    /// The value at `offset`.
    pub(crate) fn get(&self, offset: usize) -> (r: &T)
        requires
            offset < self.items@.len(),
        ensures
            *r == self.items@[offset as int],
    {
        &self.items[offset]
    }

    /// Writes `data` just past the last value.
    pub(crate) fn push(&mut self, data: T)
        ensures
            final(self).items@ == old(self).items@.push(data),
            final(self).capacity == old(self).capacity,
    {
        self.items.push(data);
    }

    /// Takes out the value at `index`; the last value fills its place.
    pub(crate) fn swap_remove(&mut self, index: usize) -> (r: T)
        requires
            index < old(self).items@.len(),
        ensures
            r == old(self).items@[index as int],
            final(self).items@ == old(self).items@.update(index as int, old(self).items@.last()).drop_last(),
            final(self).capacity == old(self).capacity,
    {
        self.items.swap_remove(index)
    }

    /// Takes out the last value.
    pub(crate) fn pop(&mut self) -> (r: T)
        requires
            old(self).items@.len() > 0,
        ensures
            r == old(self).items@.last(),
            final(self).items@ == old(self).items@.drop_last(),
            final(self).capacity == old(self).capacity,
    {
        self.items.pop().unwrap()
    }

    /// Drops every value and keeps the reservation.
    pub(crate) fn clear(&mut self)
        ensures
            final(self).items@ == Seq::<T>::empty(),
            final(self).capacity == old(self).capacity,
    {
        self.items.clear();
    }
}

impl RawBuffer<usize> {
    /// Exchanges the values at `a` and `b`.
    pub(crate) fn swap(&mut self, a: usize, b: usize)
        requires
            a < old(self).items@.len(),
            b < old(self).items@.len(),
        ensures
            final(self).items@ == old(self).items@.update(a as int, old(self).items@[b as int]).update(
                b as int,
                old(self).items@[a as int],
            ),
            final(self).capacity == old(self).capacity,
    {
        let va: usize = self.items[a];
        let vb: usize = self.items[b];
        self.items[a] = vb;
        self.items[b] = va;
    }
}

} // verus!
