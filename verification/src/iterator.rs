use vstd::prelude::*;

use vstd::std_specs::iter::{DoubleEndedIteratorSpecImpl, IteratorSpecImpl};

verus! {

/// An iterator over the values of a sparse set, in storage order, from
/// either end.
pub struct Iter<'a, V> {
    values: &'a [V],
    start: usize,
    end: usize,
}

impl<'a, V> Iter<'a, V> {
    #[verifier::type_invariant]
    closed spec fn inv(self) -> bool {
        self.start <= self.end <= self.values@.len()
    }

    /// The values not yet yielded from either end, in order.
    pub closed spec fn rest(self) -> Seq<V> {
        self.values@.subrange(self.start as int, self.end as int)
    }

    /// An iterator over all of `values`.
    pub(crate) fn new(values: &'a [V]) -> (r: Self)
        ensures
            r.rest() == values@,
    {
        let r = Iter { values, start: 0, end: values.len() };
        assert(r.rest() =~= values@);
        r
    }
}

impl<'a, V> Iterator for Iter<'a, V> {
    type Item = &'a V;

    /// Yields the first value not yet yielded.
    fn next(&mut self) -> (r: Option<&'a V>)
        ensures
            old(self).rest().len() == 0 ==> r is None && final(self).rest() == old(self).rest(),
            old(self).rest().len() > 0 ==> r == Some(&old(self).rest()[0]) && final(self).rest()
                == old(self).rest().drop_first(),
    {
        proof {
            use_type_invariant(&*self);
        }
        if self.start == self.end {
            None
        } else {
            let values: &'a [V] = self.values;
            let i = self.start;
            self.start = i + 1;
            Some(&values[i])
        }
    }
}

impl<'a, V> DoubleEndedIterator for Iter<'a, V> {
    /// Yields the last value not yet yielded.
    fn next_back(&mut self) -> (r: Option<&'a V>)
        ensures
            old(self).rest().len() == 0 ==> r is None && final(self).rest() == old(self).rest(),
            old(self).rest().len() > 0 ==> r == Some(&old(self).rest().last()) && final(self).rest()
                == old(self).rest().drop_last(),
    {
        proof {
            use_type_invariant(&*self);
        }
        if self.start == self.end {
            None
        } else {
            let values: &'a [V] = self.values;
            let j = self.end - 1;
            self.end = j;
            Some(&values[j])
        }
    }
}

impl<'a, V> IteratorSpecImpl for Iter<'a, V> {
    open spec fn obeys_prophetic_iter_laws(&self) -> bool {
        true
    }

    open spec fn remaining(&self) -> Seq<&'a V> {
        self.rest().map_values(|v: V| &v)
    }

    open spec fn will_return_none(&self) -> bool {
        true
    }

    open spec fn decrease(&self) -> Option<nat> {
        Some(self.rest().len())
    }

    open spec fn initial_value_relation(&self, init: &Self) -> bool {
        self.rest() == init.rest()
    }

    open spec fn peek(&self, index: int) -> Option<&'a V> {
        if 0 <= index < self.rest().len() {
            Some(&self.rest()[index])
        } else {
            None
        }
    }
}

impl<'a, V> DoubleEndedIteratorSpecImpl for Iter<'a, V> {
    open spec fn peek_back(&self, index: int) -> Option<&'a V> {
        let len = self.rest().len();
        if 0 <= index < len {
            Some(&self.rest()[len - index - 1])
        } else {
            None
        }
    }
}


/// An iterator over mutable references to the values of a sparse set, in
/// storage order, from either end.
pub struct IterMut<'a, V> {
    values: Option<&'a mut [V]>,
}

impl<'a, V> IterMut<'a, V> {
    /// Whether the iterator still holds the part of the slice not yet
    /// yielded.
    pub closed spec fn has_slice(self) -> bool {
        self.values is Some
    }

    /// The part of the slice not yet yielded, as the iterator holds it.
    pub closed spec fn slice(self) -> &'a mut [V] {
        self.values->0
    }

    /// The current contents of the values not yet yielded, in order.
    pub closed spec fn rest(self) -> Seq<V> {
        match self.values {
            Some(v) => (*v)@,
            None => Seq::empty(),
        }
    }

    /// An iterator over all of `values`.
    pub(crate) fn new(values: &'a mut [V]) -> (r: Self)
        ensures
            r.has_slice(),
            r.rest() == old(values)@,
            (*final(r.slice()))@ == (*final(values))@,
    {
        IterMut { values: Some(values) }
    }
}

impl<'a, V> Iterator for IterMut<'a, V> {
    type Item = &'a mut V;

    /// Yields a mutable reference to the first value not yet yielded. What
    /// is finally held by the slice before the call is what is finally
    /// written through the yielded reference, followed by what is finally
    /// held by the slice that remains.
    fn next(&mut self) -> (r: Option<&'a mut V>)
        ensures
            old(self).rest().len() == 0 ==> r is None,
            old(self).rest().len() == 0 ==> final(self).rest() == Seq::<V>::empty(),
            old(self).rest().len() == 0 && old(self).has_slice()
                ==> (*final(old(self).slice()))@ == Seq::<V>::empty(),
            old(self).rest().len() > 0 ==> r is Some && *r->0 == old(self).rest()[0],
            old(self).rest().len() > 0 ==> final(self).has_slice()
                && final(self).rest() == old(self).rest().drop_first(),
            old(self).rest().len() > 0 ==> (*final(old(self).slice()))@
                == seq![*final(r->0)] + (*final(final(self).slice()))@,
    {
        let values = match self.values.take() {
            Some(v) => v,
            None => return None,
        };
        if values.len() == 0 {
            let none = { values }.first_mut();
            return none;
        }
        let (head, tail) = values.split_at_mut(1);
        self.values = Some(tail);
        head.first_mut()
    }
}

impl<'a, V> DoubleEndedIterator for IterMut<'a, V> {
    /// Yields a mutable reference to the last value not yet yielded. What is
    /// finally held by the slice before the call is what is finally held by
    /// the slice that remains, followed by what is finally written through
    /// the yielded reference.
    fn next_back(&mut self) -> (r: Option<&'a mut V>)
        ensures
            old(self).rest().len() == 0 ==> r is None,
            old(self).rest().len() == 0 ==> final(self).rest() == Seq::<V>::empty(),
            old(self).rest().len() == 0 && old(self).has_slice()
                ==> (*final(old(self).slice()))@ == Seq::<V>::empty(),
            old(self).rest().len() > 0 ==> r is Some && *r->0 == old(self).rest().last(),
            old(self).rest().len() > 0 ==> final(self).has_slice()
                && final(self).rest() == old(self).rest().drop_last(),
            old(self).rest().len() > 0 ==> (*final(old(self).slice()))@
                == (*final(final(self).slice()))@ + seq![*final(r->0)],
    {
        let values = match self.values.take() {
            Some(v) => v,
            None => return None,
        };
        let len = values.len();
        if len == 0 {
            let none = { values }.first_mut();
            return none;
        }
        let (head, tail) = values.split_at_mut(len - 1);
        self.values = Some(head);
        tail.first_mut()
    }
}

/// `IterMut` claims none of the general iterator laws that vstd phrases over
/// prophesied items: its `next` and `next_back` state their own contracts,
/// including where the writes through the yielded references end up.
impl<'a, V> IteratorSpecImpl for IterMut<'a, V> {
    open spec fn obeys_prophetic_iter_laws(&self) -> bool {
        false
    }

    /// No prophesied items are offered; `rest` and the contracts of `next`
    /// and `next_back` describe the iterator instead.
    open spec fn remaining(&self) -> Seq<&'a mut V> {
        Seq::empty()
    }

    open spec fn will_return_none(&self) -> bool {
        true
    }

    open spec fn decrease(&self) -> Option<nat> {
        Some(self.rest().len())
    }

    open spec fn initial_value_relation(&self, init: &Self) -> bool {
        self.rest() == init.rest()
    }

    open spec fn peek(&self, index: int) -> Option<&'a mut V> {
        None
    }
}

impl<'a, V> DoubleEndedIteratorSpecImpl for IterMut<'a, V> {
    open spec fn peek_back(&self, index: int) -> Option<&'a mut V> {
        None
    }
}

} // verus!
