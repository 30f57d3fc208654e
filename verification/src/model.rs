use vstd::prelude::*;

verus! {

/// The capacity that a full container grows to: four slots the first time,
/// then twice the current capacity.
pub open spec fn grown_capacity(capacity: usize) -> int {
    if capacity == 0 {
        4
    } else {
        2 * capacity
    }
}

/// Whether buffers of `slots` slots, one of values of type `V` and one of
/// indexes, can be allocated: no allocation may exceed `isize::MAX` bytes.
pub open spec fn fits_allocation<V>(slots: int) -> bool {
    &&& slots * vstd::layout::size_of::<V>() <= isize::MAX
    &&& slots * vstd::layout::size_of::<usize>() <= isize::MAX
}

/// The abstract state of a sparse set.
///
/// * `values` is the dense array: the stored values, contiguous, in storage
///   order.
/// * `keys` lists every index handed out so far: `keys[d]` is the index of
///   `values[d]` for each dense position `d`, and the entries past the
///   values are the indexes that are free again, the next one to reuse first.
/// * `slots` is the sparse array: `slots[k]` is the dense position of the
///   value with index `k`, or `None` when index `k` is free.
pub struct SparseModel<V> {
    pub keys: Seq<usize>,
    pub slots: Seq<Option<usize>>,
    pub values: Seq<V>,
}

impl<V> SparseModel<V> {
    /// The number of stored values.
    pub open spec fn len(self) -> nat {
        self.values.len()
    }

    /// The bookkeeping is consistent: the keys are distinct indexes below the
    /// number of indexes handed out, and `keys` and `slots` are inverse to
    /// each other on the stored values, free indexes having empty slots.
    pub open spec fn wf(self) -> bool {
        &&& self.values.len() <= self.keys.len()
        &&& self.slots.len() == self.keys.len()
        &&& forall|i: int| 0 <= i < self.keys.len() ==> (#[trigger] self.keys[i]) < self.keys.len()
        &&& forall|i: int, j: int|
            0 <= i < self.keys.len() && 0 <= j < self.keys.len() && i != j ==> #[trigger] self.keys[i]
                != #[trigger] self.keys[j]
        &&& forall|i: int|
            0 <= i < self.keys.len() ==> self.slots[#[trigger] self.keys[i] as int] == (if i
                < self.values.len() {
                Some(i as usize)
            } else {
                None
            })
        &&& forall|k: int|
            0 <= k < self.slots.len() && (#[trigger] self.slots[k]) is Some ==> {
                &&& self.slots[k]->0 < self.values.len()
                &&& self.keys[self.slots[k]->0 as int] == k
            }
    }

    /// Whether `index` currently names a value.
    pub open spec fn contains(self, index: usize) -> bool {
        index < self.slots.len() && self.slots[index as int] is Some
    }

    /// The dense position of the value named by `index`.
    pub open spec fn position(self, index: usize) -> int {
        self.slots[index as int]->0 as int
    }

    /// The value named by `index`.
    pub open spec fn value_at(self, index: usize) -> V {
        self.values[self.position(index)]
    }

    /// The indexes of the stored values, in storage order.
    pub open spec fn live_keys(self) -> Seq<usize> {
        self.keys.subrange(0, self.values.len() as int)
    }

    /// The indexes that are free again, the one the next push reuses first.
    pub open spec fn free_indexes(self) -> Seq<usize> {
        self.keys.subrange(self.values.len() as int, self.keys.len() as int)
    }

    /// What the container maps each valid index to.
    pub open spec fn as_map(self) -> Map<usize, V> {
        Map::new(|k: usize| self.contains(k), |k: usize| self.value_at(k))
    }

    /// The index the next push hands out: the most recently freed index if
    /// there is one, else a fresh one.
    pub open spec fn next_index(self) -> usize {
        if self.values.len() < self.keys.len() {
            self.keys[self.values.len() as int]
        } else {
            self.keys.len() as usize
        }
    }

    /// No value and no index handed out.
    pub open spec fn empty() -> Self {
        SparseModel { keys: Seq::empty(), slots: Seq::empty(), values: Seq::empty() }
    }

    /// `values` stored in order under the indexes `0, 1, 2, ...`.
    pub open spec fn from_values(values: Seq<V>) -> Self {
        SparseModel {
            keys: Seq::new(values.len(), |i: int| i as usize),
            slots: Seq::new(values.len(), |i: int| Some(i as usize)),
            values,
        }
    }

    /// The same state with the value at dense position `d` replaced by
    /// `value`.
    pub open spec fn with_value_at(self, d: int, value: V) -> Self {
        SparseModel { values: self.values.update(d, value), ..self }
    }

    /// The same state with the stored values replaced by `values`.
    pub open spec fn with_values(self, values: Seq<V>) -> Self {
        SparseModel { values, ..self }
    }

    /// The same state with the value named by `index` replaced by `value`.
    pub open spec fn with_value(self, index: usize, value: V) -> Self {
        self.with_value_at(self.position(index), value)
    }

    /// The state after pushing `value`: it goes to the end of the dense array
    /// under `next_index()`.
    pub open spec fn pushed(self, value: V) -> Self {
        let len = self.values.len();
        if len < self.keys.len() {
            SparseModel {
                keys: self.keys,
                slots: self.slots.update(self.keys[len as int] as int, Some(len as usize)),
                values: self.values.push(value),
            }
        } else {
            SparseModel {
                keys: self.keys.push(len as usize),
                slots: self.slots.push(Some(len as usize)),
                values: self.values.push(value),
            }
        }
    }

    /// The state after removing the value named by `index`: the last value
    /// moves into the vacated position, `index` becomes the next free index,
    /// and nothing changes when `index` names no value.
    pub open spec fn removed(self, index: usize) -> Self {
        if self.contains(index) {
            let d = self.position(index);
            let last = self.values.len() - 1;
            let last_key = self.keys[last];
            SparseModel {
                keys: self.keys.update(d, last_key).update(last, index),
                slots: self.slots.update(last_key as int, Some(d as usize)).update(index as int, None),
                values: self.values.update(d, self.values[last]).drop_last(),
            }
        } else {
            self
        }
    }

    /// The state after removing the last value of the dense array; its index
    /// becomes the next free index. Nothing changes when there is no value.
    pub open spec fn popped(self) -> Self {
        if self.values.len() > 0 {
            let last = self.values.len() - 1;
            SparseModel {
                keys: self.keys,
                slots: self.slots.update(self.keys[last] as int, None),
                values: self.values.drop_last(),
            }
        } else {
            self
        }
    }

    /// The state after clearing: every value and every index is dropped,
    /// unless there is no value, in which case nothing changes.
    pub open spec fn cleared(self) -> Self {
        if self.values.len() > 0 {
            Self::empty()
        } else {
            self
        }
    }
}

/// A new container is well formed.
pub proof fn lemma_empty_wf<V>()
    ensures
        SparseModel::<V>::empty().wf(),
        SparseModel::<V>::empty().as_map() == Map::<usize, V>::empty(),
{
    assert(SparseModel::<V>::empty().as_map() =~= Map::<usize, V>::empty());
}

/// Values stored under `0, 1, 2, ...` form a well-formed container in which
/// index `i` names `values[i]`.
pub proof fn lemma_from_values<V>(values: Seq<V>)
    requires
        values.len() <= usize::MAX,
    ensures
        SparseModel::from_values(values).wf(),
        forall|i: usize|
            i < values.len() ==> SparseModel::from_values(values).contains(i)
                && #[trigger] SparseModel::from_values(values).value_at(i) == values[i as int],
        forall|i: usize| i >= values.len() ==> !#[trigger] SparseModel::from_values(values).contains(i),
        SparseModel::from_values(values).free_indexes().len() == 0,
        SparseModel::from_values(values).next_index() == values.len(),
{
    let m = SparseModel::from_values(values);
    assert forall|i: int| 0 <= i < m.keys.len() implies m.slots[#[trigger] m.keys[i] as int] == (if i
        < m.values.len() {
        Some(i as usize)
    } else {
        None
    }) by {
        assert(m.keys[i] == i);
    }
    assert forall|j: int| 0 <= j < m.slots.len() && (#[trigger] m.slots[j]) is Some implies {
        &&& m.slots[j]->0 < m.values.len()
        &&& m.keys[m.slots[j]->0 as int] == j
    } by {
        assert(m.slots[j]->0 == j);
    }
}

/// Pushing keeps the container well formed.
pub proof fn lemma_pushed_wf<V>(m: SparseModel<V>, value: V)
    requires
        m.wf(),
        m.len() < usize::MAX,
    ensures
        m.pushed(value).wf(),
{
    let p = m.pushed(value);
    let len = m.values.len();
    if len < m.keys.len() {
        let k = m.keys[len as int];
        assert forall|i: int| 0 <= i < p.keys.len() implies p.slots[#[trigger] p.keys[i] as int] == (if i
            < p.values.len() {
            Some(i as usize)
        } else {
            None
        }) by {
            if i != len {
                assert(m.keys[i] != k);
            }
        }
        assert forall|j: int| 0 <= j < p.slots.len() && (#[trigger] p.slots[j]) is Some implies {
            &&& p.slots[j]->0 < p.values.len()
            &&& p.keys[p.slots[j]->0 as int] == j
        } by {
            if j != k {
                assert(m.slots[j] is Some);
            }
        }
    } else {
        assert forall|i: int| 0 <= i < p.keys.len() implies (#[trigger] p.keys[i]) < p.keys.len() by {
            if i < m.keys.len() {
                assert(m.keys[i] < m.keys.len());
            }
        }
        assert forall|i: int, j: int|
            0 <= i < p.keys.len() && 0 <= j < p.keys.len() && i != j implies #[trigger] p.keys[i]
                != #[trigger] p.keys[j] by {
            if i < m.keys.len() {
                assert(m.keys[i] < m.keys.len());
            }
            if j < m.keys.len() {
                assert(m.keys[j] < m.keys.len());
            }
        }
        assert forall|i: int| 0 <= i < p.keys.len() implies p.slots[#[trigger] p.keys[i] as int] == (if i
            < p.values.len() {
            Some(i as usize)
        } else {
            None
        }) by {
            if i < m.keys.len() {
                assert(m.keys[i] < m.keys.len());
            }
        }
        assert forall|j: int| 0 <= j < p.slots.len() && (#[trigger] p.slots[j]) is Some implies {
            &&& p.slots[j]->0 < p.values.len()
            &&& p.keys[p.slots[j]->0 as int] == j
        } by {
            if j < m.slots.len() {
                assert(m.slots[j] is Some);
            }
        }
    }
}

/// Removing keeps the container well formed.
pub proof fn lemma_removed_wf<V>(m: SparseModel<V>, index: usize)
    requires
        m.wf(),
    ensures
        m.removed(index).wf(),
{
    if m.contains(index) {
        let p = m.removed(index);
        let d = m.position(index);
        let last = m.values.len() - 1;
        let lk = m.keys[last];
        assert(m.slots[index as int] is Some);
        assert(m.keys[d] == index);
        assert(m.slots[m.keys[last] as int] == Some(last as usize));
        assert forall|i: int| 0 <= i < p.keys.len() implies (#[trigger] p.keys[i]) < p.keys.len() by {
            assert(m.keys[i] < m.keys.len());
        }
        assert forall|i: int, j: int|
            0 <= i < p.keys.len() && 0 <= j < p.keys.len() && i != j implies #[trigger] p.keys[i]
                != #[trigger] p.keys[j] by {
            if i != d && i != last && j != d && j != last {
                assert(m.keys[i] != m.keys[j]);
            } else if d != last {
                if i != d && i != last {
                    assert(m.keys[i] != m.keys[d]);
                    assert(m.keys[i] != m.keys[last]);
                }
                if j != d && j != last {
                    assert(m.keys[j] != m.keys[d]);
                    assert(m.keys[j] != m.keys[last]);
                }
                assert(m.keys[d] != m.keys[last]);
            } else {
                if i != d {
                    assert(m.keys[i] != m.keys[d]);
                }
                if j != d {
                    assert(m.keys[j] != m.keys[d]);
                }
            }
        }
        assert forall|i: int| 0 <= i < p.keys.len() implies p.slots[#[trigger] p.keys[i] as int] == (if i
            < p.values.len() {
            Some(i as usize)
        } else {
            None
        }) by {
            if i != d && i != last {
                assert(m.keys[i] != m.keys[d]);
                assert(m.keys[i] != m.keys[last]);
                assert(m.slots[m.keys[i] as int] == (if i < m.values.len() {
                    Some(i as usize)
                } else {
                    None
                }));
            } else if i == d && d != last {
                assert(m.keys[d] != m.keys[last]);
            }
        }
        assert forall|j: int| 0 <= j < p.slots.len() && (#[trigger] p.slots[j]) is Some implies {
            &&& p.slots[j]->0 < p.values.len()
            &&& p.keys[p.slots[j]->0 as int] == j
        } by {
            if j != lk {
                assert(m.slots[j] is Some);
                let e = m.slots[j]->0 as int;
                assert(m.keys[e] == j);
                assert(e != d);
                assert(e != last);
            } else {
                assert(j != index);
                assert(d != last);
            }
        }
    }
}

/// Popping keeps the container well formed.
pub proof fn lemma_popped_wf<V>(m: SparseModel<V>)
    requires
        m.wf(),
    ensures
        m.popped().wf(),
{
    if m.values.len() > 0 {
        let p = m.popped();
        let last = m.values.len() - 1;
        let lk = m.keys[last];
        assert forall|i: int| 0 <= i < p.keys.len() implies p.slots[#[trigger] p.keys[i] as int] == (if i
            < p.values.len() {
            Some(i as usize)
        } else {
            None
        }) by {
            if i != last {
                assert(m.keys[i] != lk);
            }
        }
        assert forall|j: int| 0 <= j < p.slots.len() && (#[trigger] p.slots[j]) is Some implies {
            &&& p.slots[j]->0 < p.values.len()
            &&& p.keys[p.slots[j]->0 as int] == j
        } by {
            assert(m.slots[j] is Some);
            assert(m.slots[j]->0 != last);
        }
    }
}

/// Clearing keeps the container well formed.
pub proof fn lemma_cleared_wf<V>(m: SparseModel<V>)
    requires
        m.wf(),
    ensures
        m.cleared().wf(),
{
    lemma_empty_wf::<V>();
}

/// A push stores the value under an index that named nothing before, and
/// leaves every other index naming what it named.
pub proof fn lemma_push_inserts<V>(m: SparseModel<V>, value: V)
    requires
        m.wf(),
        m.len() < usize::MAX,
    ensures
        !m.contains(m.next_index()),
        m.pushed(value).contains(m.next_index()),
        m.pushed(value).value_at(m.next_index()) == value,
        m.pushed(value).as_map() == m.as_map().insert(m.next_index(), value),
{
    let p = m.pushed(value);
    let k = m.next_index();
    let len = m.values.len();
    if len < m.keys.len() {
        assert(m.slots[m.keys[len as int] as int] == None::<usize>);
    } else {
        assert forall|j: usize| #[trigger] m.contains(j) implies j < k by {}
    }
    assert forall|j: usize| #[trigger] p.contains(j) && j != k implies m.contains(j) && p.value_at(j)
        == m.value_at(j) by {
        assert(m.slots[j as int] is Some);
    }
    assert forall|j: usize| #[trigger] m.contains(j) && j != k implies p.contains(j) by {}
    assert(p.as_map() =~= m.as_map().insert(k, value));
}

/// Removing an index drops exactly that index: every other index keeps
/// naming the same value.
pub proof fn lemma_remove_keeps_other_indexes<V>(m: SparseModel<V>, index: usize)
    requires
        m.wf(),
    ensures
        m.removed(index).as_map() == m.as_map().remove(index),
{
    let p = m.removed(index);
    if m.contains(index) {
        let d = m.position(index);
        let last = m.values.len() - 1;
        let lk = m.keys[last];
        assert(m.keys[d] == index);
        assert(m.slots[lk as int] == Some(last as usize));
        assert forall|j: usize| #[trigger] m.contains(j) && j != index implies p.contains(j)
            && p.value_at(j) == m.value_at(j) by {
            if j != lk {
                let e = m.slots[j as int]->0 as int;
                assert(m.keys[e] == j);
                assert(e != d);
                assert(e != last);
            }
        }
        assert(p.as_map() =~= m.as_map().remove(index));
    } else {
        assert(p.as_map() =~= m.as_map().remove(index));
    }
}

/// The index freed by a removal is the one the next push hands out.
pub proof fn lemma_remove_then_push_reuses_index<V>(m: SparseModel<V>, index: usize)
    requires
        m.wf(),
        m.contains(index),
    ensures
        m.removed(index).next_index() == index,
{
}

/// Removing the index that a push just handed out gives back the value
/// pushed and restores both the stored values and what each index names.
pub proof fn lemma_push_then_remove_restores<V>(m: SparseModel<V>, value: V)
    requires
        m.wf(),
        m.len() < usize::MAX,
    ensures
        m.pushed(value).contains(m.next_index()),
        m.pushed(value).value_at(m.next_index()) == value,
        m.pushed(value).removed(m.next_index()).values == m.values,
        m.pushed(value).removed(m.next_index()).as_map() == m.as_map(),
{
    lemma_push_inserts(m, value);
    lemma_pushed_wf(m, value);
    lemma_remove_keeps_other_indexes(m.pushed(value), m.next_index());
    assert(m.pushed(value).removed(m.next_index()).values =~= m.values);
    assert(m.as_map().insert(m.next_index(), value).remove(m.next_index()) =~= m.as_map());
}

/// Popping drops the index of the last stored value and nothing else.
pub proof fn lemma_pop_drops_last_index<V>(m: SparseModel<V>)
    requires
        m.wf(),
        m.len() > 0,
    ensures
        m.contains(m.keys[m.len() - 1]),
        m.value_at(m.keys[m.len() - 1]) == m.values.last(),
        m.popped().as_map() == m.as_map().remove(m.keys[m.len() - 1]),
{
    let last = m.values.len() - 1;
    let lk = m.keys[last];
    let p = m.popped();
    assert(m.slots[lk as int] == Some(last as usize));
    assert forall|j: usize| #[trigger] m.contains(j) && j != lk implies p.contains(j) && p.value_at(j)
        == m.value_at(j) by {
        let e = m.slots[j as int]->0 as int;
        assert(m.keys[e] == j);
    }
    assert(p.as_map() =~= m.as_map().remove(lk));
}

/// The stored values are contiguous: the valid indexes are exactly the keys
/// of the stored values, one per value.
pub proof fn lemma_indexes_match_values<V>(m: SparseModel<V>)
    requires
        m.wf(),
    ensures
        m.live_keys().len() == m.len(),
        m.live_keys().no_duplicates(),
        m.as_map().dom() == m.live_keys().to_set(),
        m.as_map().dom().len() == m.len(),
        forall|d: int| 0 <= d < m.len() ==> m.value_at(#[trigger] m.live_keys()[d]) == m.values[d],
{
    let lk = m.live_keys();
    assert forall|i: int, j: int| 0 <= i < lk.len() && 0 <= j < lk.len() && i != j implies lk[i]
        != lk[j] by {
        assert(m.keys[i] != m.keys[j]);
    }
    assert forall|k: usize| #[trigger] m.as_map().dom().contains(k) <==> lk.to_set().contains(k) by {
        if m.contains(k) {
            let d = m.slots[k as int]->0 as int;
            assert(lk[d] == k);
        }
        if lk.to_set().contains(k) {
            let d = choose|d: int| 0 <= d < lk.len() && lk[d] == k;
            assert(m.keys[d] == k);
            assert(m.slots[m.keys[d] as int] == Some(d as usize));
        }
    }
    assert(m.as_map().dom() =~= lk.to_set());
    lk.unique_seq_to_set();
    assert forall|d: int| 0 <= d < m.len() implies m.value_at(#[trigger] lk[d]) == m.values[d] by {
        assert(m.slots[m.keys[d] as int] == Some(d as usize));
    }
}

/// Freed indexes are reused last freed first: a push hands out the most
/// recently freed index and leaves the other free indexes in their order, or,
/// when no index is free, hands out the first index never handed out. The
/// pushed value's index is appended to the indexes of the stored values.
pub proof fn lemma_push_takes_latest_freed<V>(m: SparseModel<V>, value: V)
    requires
        m.wf(),
        m.len() < usize::MAX,
    ensures
        m.free_indexes().len() > 0 ==> m.next_index() == m.free_indexes()[0]
            && m.pushed(value).free_indexes() == m.free_indexes().drop_first(),
        m.free_indexes().len() == 0 ==> m.next_index() == m.keys.len()
            && m.pushed(value).free_indexes() == Seq::<usize>::empty()
            && m.pushed(value).keys.len() == m.keys.len() + 1,
        m.free_indexes().len() > 0 ==> m.pushed(value).keys.len() == m.keys.len(),
        m.pushed(value).live_keys() == m.live_keys().push(m.next_index()),
        m.pushed(value).values == m.values.push(value),
{
    let p = m.pushed(value);
    assert(p.free_indexes() =~= (if m.free_indexes().len() > 0 {
        m.free_indexes().drop_first()
    } else {
        Seq::<usize>::empty()
    }));
    assert(p.live_keys() =~= m.live_keys().push(m.next_index()));
}

/// Removing a stored value shifts nothing: the last stored value moves into
/// the vacated position (with its index), and every other value stays where
/// it was.
pub proof fn lemma_remove_fills_hole_with_last<V>(m: SparseModel<V>, index: usize)
    requires
        m.wf(),
        m.contains(index),
    ensures
        m.removed(index).len() == m.len() - 1,
        forall|j: int|
            0 <= j < m.len() - 1 && j != m.position(index) ==> #[trigger] m.removed(index).values[j]
                == m.values[j] && m.removed(index).live_keys()[j] == m.live_keys()[j],
        m.position(index) < m.len() - 1 ==> m.removed(index).values[m.position(index)]
            == m.values.last() && m.removed(index).live_keys()[m.position(index)]
            == m.live_keys().last(),
{
    assert(m.slots[index as int] is Some);
}

/// Removing a stored value frees its index on top of the free indexes: it is
/// the next to be reused, and the indexes freed before keep their order.
pub proof fn lemma_remove_frees_index_first<V>(m: SparseModel<V>, index: usize)
    requires
        m.wf(),
        m.contains(index),
    ensures
        m.removed(index).free_indexes() == seq![index] + m.free_indexes(),
        m.removed(index).keys.len() == m.keys.len(),
        m.removed(index).len() == m.len() - 1,
{
    let p = m.removed(index);
    let d = m.position(index);
    assert(m.slots[index as int] is Some);
    assert(p.free_indexes() =~= seq![index] + m.free_indexes());
}

/// Popping frees the index of the last stored value on top of the free
/// indexes: it is the next to be reused, and the indexes freed before keep
/// their order.
pub proof fn lemma_pop_frees_last_index_first<V>(m: SparseModel<V>)
    requires
        m.wf(),
        m.len() > 0,
    ensures
        m.popped().free_indexes() == seq![m.live_keys().last()] + m.free_indexes(),
        m.popped().live_keys() == m.live_keys().drop_last(),
        m.popped().next_index() == m.live_keys().last(),
{
    let p = m.popped();
    assert(p.free_indexes() =~= seq![m.live_keys().last()] + m.free_indexes());
    assert(p.live_keys() =~= m.live_keys().drop_last());
}

/// Clearing a container that holds values forgets every index: no index is
/// valid, none is free, and the next push hands out index 0, as in a new
/// container.
pub proof fn lemma_clear_forgets_indexes<V>(m: SparseModel<V>)
    requires
        m.wf(),
        m.len() > 0,
    ensures
        m.cleared().keys.len() == 0,
        m.cleared().free_indexes() == Seq::<usize>::empty(),
        m.cleared().len() == 0,
        m.cleared().next_index() == 0,
        m.cleared().as_map() == Map::<usize, V>::empty(),
        forall|k: usize| !#[trigger] m.cleared().contains(k),
{
    assert(m.cleared().free_indexes() =~= Seq::<usize>::empty());
    assert(m.cleared().as_map() =~= Map::<usize, V>::empty());
}

} // verus!
