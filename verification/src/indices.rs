use vstd::prelude::*;

verus! {

/// A slot of the sparse array: either empty, or the position of a value in
/// the dense array. Position `d` is stored as `d + 1`, so that zero can mean
/// "empty" (the same niche that a non-zero integer gives).
#[derive(Clone, Copy, PartialEq, Eq, Structural, Debug)]
pub(crate) struct Index(pub(crate) u32);

impl Index {
    /// The dense position this slot names, if any.
    pub(crate) open spec fn spec_get(self) -> Option<usize> {
        if self.0 == 0 {
            None
        } else {
            Some((self.0 - 1) as usize)
        }
    }

    /// A slot naming dense position `data_index`.
    pub(crate) fn new(data_index: usize) -> (r: Self)
        requires
            data_index < u32::MAX,
        ensures
            r.spec_get() == Some(data_index),
    {
        Index((data_index as u32) + 1)
    }

    /// The dense position this slot names, if any.
    pub(crate) fn get(&self) -> (r: Option<usize>)
        ensures
            r == self.spec_get(),
    {
        if self.0 == 0 {
            None
        } else {
            Some((self.0 - 1) as usize)
        }
    }

    /// An empty slot.
    pub(crate) fn null() -> (r: Self)
        ensures
            r.spec_get() == None::<usize>,
    {
        Index(0)
    }
}

/// The sparse array: for each index handed out, the slot that says where its
/// value sits in the dense array, or that the index is currently unused.
#[derive(Debug)]
pub(crate) struct DataIndices(pub(crate) Vec<Index>);

impl View for DataIndices {
    type V = Seq<Option<usize>>;

    closed spec fn view(&self) -> Seq<Option<usize>> {
        self.0@.map_values(|i: Index| i.spec_get())
    }
}

impl DataIndices {
    /// No slots.
    pub(crate) fn new() -> (r: Self)
        ensures
            r@ == Seq::<Option<usize>>::empty(),
    {
        DataIndices(Vec::new())
    }

    /// No slots, with room reserved for `capacity` of them (a slot takes no
    /// more room than a `usize`).
    pub(crate) fn with_capacity(capacity: usize) -> (r: Self)
        requires
            capacity * vstd::layout::size_of::<usize>() <= isize::MAX,
        ensures
            r@ == Seq::<Option<usize>>::empty(),
    {
        DataIndices(Vec::with_capacity(capacity))
    }

    /// One slot per entry of `slice`, slot `i` naming position `slice[i]`.
    pub(crate) fn from_slice(slice: &[usize]) -> (r: Self)
        requires
            forall|i: int| 0 <= i < slice@.len() ==> slice@[i] < u32::MAX,
        ensures
            r@ == slice@.map_values(|d: usize| Some(d)),
    {
        let mut v: Vec<Index> = Vec::with_capacity(slice.len());
        let mut i: usize = 0;
        while i < slice.len()
            invariant
                i <= slice@.len(),
                v@.len() == i,
                forall|j: int| 0 <= j < slice@.len() ==> slice@[j] < u32::MAX,
                forall|j: int| 0 <= j < i ==> (#[trigger] v@[j]).spec_get() == Some(slice@[j]),
            decreases slice@.len() - i,
        {
            v.push(Index::new(slice[i]));
            i = i + 1;
        }
        let r = DataIndices(v);
        assert(r@ =~= slice@.map_values(|d: usize| Some(d)));
        r
    }

    /// Appends a slot naming position `index`.
    pub(crate) fn push(&mut self, index: usize)
        requires
            index < u32::MAX,
        ensures
            final(self)@ == old(self)@.push(Some(index)),
    {
        self.0.push(Index::new(index));
        assert(final(self)@ =~= old(self)@.push(Some(index)));
    }

    /// Points slot `index` at position `data_index`.
    pub(crate) fn set(&mut self, index: usize, data_index: usize)
        requires
            index < old(self)@.len(),
            data_index < u32::MAX,
        ensures
            final(self)@ == old(self)@.update(index as int, Some(data_index)),
    {
        self.0[index] = Index::new(data_index);
        assert(final(self)@ =~= old(self)@.update(index as int, Some(data_index)));
    }

    /// Empties slot `index`.
    pub(crate) fn set_null(&mut self, index: usize)
        requires
            index < old(self)@.len(),
        ensures
            final(self)@ == old(self)@.update(index as int, None),
    {
        self.0[index] = Index::null();
        assert(final(self)@ =~= old(self)@.update(index as int, None));
    }

    /// The position named by slot `index`, which the caller knows to be in use.
    pub(crate) fn get_unchecked(&self, index: usize) -> (r: usize)
        requires
            index < self@.len(),
            self@[index as int] is Some,
        ensures
            Some(r) == self@[index as int],
    {
        self.0[index].get().unwrap()
    }

    /// The position named by slot `index`; `None` when the slot is empty or
    /// does not exist.
    pub(crate) fn get(&self, index: usize) -> (r: Option<usize>)
        ensures
            r == (if index < self@.len() { self@[index as int] } else { None }),
    {
        if index < self.0.len() {
            self.0[index].get()
        } else {
            None
        }
    }

    /// A copy with the same slots.
    pub(crate) fn copy(&self) -> (r: Self)
        ensures
            r@ == self@,
    {
        let mut v: Vec<Index> = Vec::with_capacity(self.0.len());
        let mut i: usize = 0;
        while i < self.0.len()
            invariant
                i <= self.0@.len(),
                v@ == self.0@.subrange(0, i as int),
            decreases self.0@.len() - i,
        {
            v.push(self.0[i]);
            i = i + 1;
            assert(v@ =~= self.0@.subrange(0, i as int));
        }
        assert(v@ =~= self.0@);
        DataIndices(v)
    }

    /// The number of slots.
    pub(crate) fn len(&self) -> (r: usize)
        ensures
            r == self@.len(),
    {
        self.0.len()
    }

    /// Removes every slot.
    pub(crate) fn clear(&mut self)
        ensures
            final(self)@ == Seq::<Option<usize>>::empty(),
    {
        self.0.clear();
        assert(final(self)@ =~= Seq::<Option<usize>>::empty());
    }
}

} // verus!
