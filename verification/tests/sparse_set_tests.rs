use sparse_set::error::Error;
use sparse_set::SparseSet;

#[test]
fn macro_test() {
    let a = SparseSet::from_slice(&[69, 69, 69, 69, 69]);
    let b = SparseSet::from_arr([69; 5]);

    assert_eq!(a, b);
}

#[test]
fn clone_test() {
    let a = SparseSet::from_arr([69; 5]);
    let b = a.clone();

    assert_eq!(a, b);
}

#[test]
fn readme_example() {
    let mut s = SparseSet::<&'static str>::with_capacity(5);

    let a = s.push("a");
    let b = s.push("b");
    let c = s.push("c");
    let d = s.push("d");
    let e = s.push("e");

    assert_eq!([a, b, c, d, e], [0, 1, 2, 3, 4]);

    let removed_a = s.remove(a);
    assert_eq!(removed_a, Some("a"));
    assert_eq!(s.get(a), None);
    assert_eq!(s.values(), ["e", "b", "c", "d"]);

    let get_4 = s.get(4);
    assert_eq!(get_4, Some(&"e"));

    let indexed_4 = s[4];
    assert_eq!(indexed_4, "e");

    let new = s.push("f");
    assert_eq!(new, a);
}

#[test]
fn push_within_capacity_fills_exactly() {
    let mut s = SparseSet::with_capacity(5);
    for i in 0..5 {
        let res = s.push_within_capacity(i);
        assert!(res.is_ok());
    }
    assert_eq!(s.capacity(), 5);
    assert_eq!(s.values(), [0, 1, 2, 3, 4]);
}

#[test]
fn push_within_capacity_errors() {
    let mut s = SparseSet::<u8>::new();
    assert_eq!(s.push_within_capacity(1), Err(Error::Uninitialized));
    assert!(s.is_empty());

    let mut t = SparseSet::with_capacity(2);
    assert_eq!(t.push_within_capacity(1u8), Ok(0));
    assert_eq!(t.push_within_capacity(2u8), Ok(1));
    assert_eq!(t.push_within_capacity(3u8), Err(Error::ExceedCurrentCapacity));
    assert_eq!(t.values(), [1, 2]);
    assert_eq!(t.capacity(), 2);
}

#[test]
fn error_text_is_variant_name() {
    assert_eq!(Error::ExceedCurrentCapacity.to_string(), "ExceedCurrentCapacity");
    assert_eq!(Error::Uninitialized.to_string(), "Uninitialized");
}

#[test]
fn push_grows_capacity() {
    let mut s = SparseSet::new();
    assert_eq!(s.capacity(), 0);
    for i in 0..5 {
        s.push(i);
    }
    assert_eq!(s.capacity(), 8);
    assert_eq!(s.len(), 5);
    assert_eq!(s.values(), [0, 1, 2, 3, 4]);

    let mut t = SparseSet::with_capacity(3);
    for i in 0..4 {
        t.push(i);
    }
    assert_eq!(t.capacity(), 6);
}

#[test]
fn remove_moves_last_into_hole() {
    let mut s = SparseSet::with_capacity(8);
    for i in 0..8 {
        s.push_within_capacity(i).unwrap();
    }
    assert_eq!(s.values(), [0, 1, 2, 3, 4, 5, 6, 7]);
    assert_eq!(s.get(7), Some(&7));

    let removed = s.remove(4);
    assert_eq!(removed, Some(4));
    assert_eq!(s.values(), [0, 1, 2, 3, 7, 5, 6]);
    assert_eq!(s.indexes(), [0, 1, 2, 3, 7, 5, 6]);
    assert_eq!(s.get(7), Some(&7));
    assert_eq!(s.get(4), None);
}

#[test]
fn remove_invalid_index_changes_nothing() {
    let mut s = SparseSet::from_vec(vec![10, 20, 30]);
    assert_eq!(s.remove(3), None);
    assert_eq!(s.remove(100), None);
    assert_eq!(s.remove(1), Some(20));
    assert_eq!(s.remove(1), None);
    assert_eq!(s.values(), [10, 30]);
    assert_eq!(s.indexes(), [0, 2]);

    let mut e = SparseSet::<u8>::new();
    assert_eq!(e.remove(0), None);
}

#[test]
fn other_indexes_survive_many_removals() {
    let mut s = SparseSet::new();
    for i in 0..10u32 {
        assert_eq!(s.push(i * 100), i as usize);
    }
    assert_eq!(s.remove(3), Some(300));
    assert_eq!(s.remove(9), Some(900));
    assert_eq!(s.remove(0), Some(0));
    for k in [1usize, 2, 4, 5, 6, 7, 8] {
        assert_eq!(s.get(k), Some(&(k as u32 * 100)));
    }
    for k in [0usize, 3, 9] {
        assert_eq!(s.get(k), None);
    }
    assert_eq!(s.len(), 7);
}

#[test]
fn freed_indexes_are_reused_last_freed_first() {
    let mut s = SparseSet::new();
    for i in 0..5 {
        s.push(i);
    }
    s.remove(1);
    s.remove(3);
    assert_eq!(s.push(50), 3);
    assert_eq!(s.push(60), 1);
    assert_eq!(s.push(70), 5);
    assert_eq!(s.get(3), Some(&50));
    assert_eq!(s.get(1), Some(&60));
    assert_eq!(s.get(5), Some(&70));
}

#[test]
fn push_then_remove_restores_values() {
    let mut s = SparseSet::from_vec(vec!['x', 'y', 'z']);
    s.remove(0);
    let before: Vec<char> = s.values().to_vec();
    let k = s.push('w');
    assert_eq!(k, 0);
    assert_eq!(s.remove(k), Some('w'));
    assert_eq!(s.values(), before.as_slice());
    assert_eq!(s.get(1), Some(&'y'));
    assert_eq!(s.get(2), Some(&'z'));
}

#[test]
fn pop_removes_last_and_frees_its_index() {
    let mut s = SparseSet::from_vec(vec![1, 2, 3]);
    assert_eq!(s.pop(), Some(3));
    assert_eq!(s.get(2), None);
    assert_eq!(s.values(), [1, 2]);
    assert_eq!(s.push(9), 2);
    assert_eq!(s.get(2), Some(&9));

    let mut e = SparseSet::<i32>::new();
    assert_eq!(e.pop(), None);
}

#[test]
fn clear_resets_indexes_keeps_capacity() {
    let mut s = SparseSet::with_capacity(4);
    s.push(1);
    s.push(2);
    s.clear();
    assert!(s.is_empty());
    assert_eq!(s.capacity(), 4);
    assert_eq!(s.get(0), None);
    assert_eq!(s.push(7), 0);
}

#[test]
fn first_last_and_mutation() {
    let mut s = SparseSet::from_vec(vec![1, 2, 3]);
    assert_eq!(s.first(), Some(&1));
    assert_eq!(s.last(), Some(&3));
    *s.first_mut().unwrap() = 10;
    *s.last_mut().unwrap() = 30;
    *s.get_mut(1).unwrap() = 20;
    assert!(s.get_mut(7).is_none());
    assert_eq!(s.values(), [10, 20, 30]);
    *s.get_unchecked_mut(2) += 1;
    assert_eq!(*s.get_unchecked(2), 31);

    let mut e = SparseSet::<u8>::new();
    assert_eq!(e.first(), None);
    assert_eq!(e.last(), None);
    assert!(e.first_mut().is_none());
    assert!(e.last_mut().is_none());
}

#[test]
fn iterator_example() {
    let s = SparseSet::from_slice(&[1, 2, 3]);
    let mut iter = s.iter();
    assert_eq!(iter.next(), Some(&1));
    assert_eq!(iter.next(), Some(&2));
    assert_eq!(iter.next(), Some(&3));
    assert_eq!(iter.next(), None);

    let collected = s.iter().collect::<Vec<_>>();
    assert_eq!(collected, vec![&1, &2, &3]);
    let reversed = s.iter().rev().copied().collect::<Vec<_>>();
    assert_eq!(reversed, vec![3, 2, 1]);
}

#[test]
fn iterator_mut_example() {
    let mut s = SparseSet::from_slice(&[1, 2, 3]);
    let mut iter = s.iter_mut();
    assert_eq!(iter.next(), Some(&mut 1));
    assert_eq!(iter.next_back(), Some(&mut 3));
    assert_eq!(iter.next(), Some(&mut 2));
    assert_eq!(iter.next(), None);
    assert_eq!(iter.next_back(), None);

    let mut iter = s.iter_mut();
    while let Some(v) = iter.next() {
        *v *= 10;
    }
    assert_eq!(s.values(), [10, 20, 30]);
}

#[test]
fn from_vec_and_arr_number_in_order() {
    let s = SparseSet::from_vec(vec![0, 1, 2, 3, 4]);
    assert_eq!(s.values(), [0, 1, 2, 3, 4]);
    assert_eq!(s.indexes(), [0, 1, 2, 3, 4]);
    assert_eq!(s.capacity(), 5);
    let t = SparseSet::from_arr([0, 1, 2, 3, 4]);
    assert_eq!(s, t);
    let e = SparseSet::<u8>::from_vec(Vec::new());
    assert!(e.is_empty());
    assert_eq!(e.capacity(), 0);
}

#[test]
fn equality_compares_indexes_too() {
    let mut a = SparseSet::from_vec(vec![1, 2]);
    let b = SparseSet::from_vec(vec![1, 2]);
    assert_eq!(a, b);
    a.remove(0);
    a.push(1);
    assert_eq!(a.values(), [2, 1]);
    assert_ne!(a, b);
    let c = SparseSet::from_vec(vec![1, 3]);
    assert_ne!(b, c);
    let d: SparseSet<i32> = SparseSet::default();
    assert_eq!(d, SparseSet::new());
}

#[test]
fn zero_sized_values() {
    let mut s = SparseSet::<()>::new();
    assert_eq!(s.capacity(), 0);
    assert_eq!(s.push_within_capacity(()), Err(Error::Uninitialized));
    for i in 0..5 {
        assert_eq!(s.push(()), i);
    }
    assert_eq!(s.capacity(), 8);
    assert_eq!(s.remove(2), Some(()));
    assert_eq!(s.get(2), None);
    assert_eq!(s.push(()), 2);

    let mut t = SparseSet::<()>::with_capacity(2);
    assert_eq!(t.capacity(), 2);
    assert_eq!(t.push_within_capacity(()), Ok(0));
    assert_eq!(t.push_within_capacity(()), Ok(1));
    assert_eq!(t.push_within_capacity(()), Err(Error::ExceedCurrentCapacity));
    assert_eq!(t.len(), 2);
}

#[test]
fn iterator_mut_writes_land_in_the_set() {
    let mut s = SparseSet::from_vec(vec![1, 2, 3, 4]);
    s.remove(0);
    let before = s.indexes().to_vec();
    for v in s.iter_mut() {
        *v += 100;
    }
    assert_eq!(s.values(), [104, 102, 103]);
    assert_eq!(s.indexes(), before.as_slice());
    assert_eq!(s.get(1), Some(&102));
    assert_eq!(s.get(3), Some(&104));
    let reversed: Vec<i32> = s.iter_mut().rev().map(|v| *v).collect();
    assert_eq!(reversed, vec![103, 102, 104]);
}

#[test]
fn clone_reserves_what_it_needs() {
    let mut a = SparseSet::with_capacity(10);
    for i in 0..3 {
        a.push(i);
    }
    let b = a.clone();
    assert_eq!(b.capacity(), 3);
    assert_eq!(a.capacity(), 10);
    assert_eq!(a, b);

    a.remove(1);
    let mut c = a.clone();
    assert_eq!(c.capacity(), 3);
    assert_eq!(c, a);
    assert_eq!(c.push(7), 1);
    assert_eq!(a.push(7), 1);
    assert_eq!(c, a);
}

#[test]
fn allocation_check() {
    assert!(SparseSet::<u64>::fits_allocation(1000));
    assert!(!SparseSet::<u64>::fits_allocation(usize::MAX));
    assert!(!SparseSet::<()>::fits_allocation(usize::MAX));
    assert!(SparseSet::<()>::fits_allocation(0));
}
