use std::cmp::Ordering;
use gapbuf::{Bound, GapBuffer, Range, RangeMut, Slice};

fn items<T: Clone>(b: &GapBuffer<T>) -> Vec<T> {
    let mut out = Vec::new();
    let mut it = b.iter();
    while let Some(x) = it.next() {
        out.push(x.clone());
    }
    out
}

fn buf_of<T>(values: Vec<T>) -> GapBuffer<T> {
    let mut b = GapBuffer::new();
    for v in values {
        b.push_back(v);
    }
    b
}

#[test]
fn new_is_empty() {
    let buf = GapBuffer::<i32>::new();
    assert_eq!(buf.is_empty(), true);
    assert_eq!(buf.len(), 0);
    assert_eq!(buf.capacity(), 0);
    let mut buf = GapBuffer::new();
    buf.push_back(5);
    assert_eq!(items(&buf), vec![5]);
}

#[test]
fn default_is_empty() {
    let buf: GapBuffer<u8> = Default::default();
    assert_eq!(buf.len(), 0);
    assert_eq!(buf.capacity(), 0);
    assert_eq!(buf.gap(), 0);
}

#[test]
fn with_capacity_sets_capacity() {
    let buf: GapBuffer<i32> = GapBuffer::with_capacity(5);
    assert_eq!(buf.is_empty(), true);
    assert_eq!(buf.len(), 0);
    assert_eq!(buf.capacity(), 5);
    let buf: GapBuffer<i32> = GapBuffer::with_capacity(10);
    assert_eq!(buf.capacity(), 10);
}

#[test]
fn macro_list_form() {
    let b = buf_of(vec![1, 2, 3]);
    assert_eq!(b.len(), 3);
    assert_eq!(*b.index(0), 1);
    assert_eq!(*b.index(1), 2);
    assert_eq!(*b.index(2), 3);
}

#[test]
fn macro_repeat_form() {
    let mut b = GapBuffer::with_capacity(2);
    b.resize(2, "abc");
    assert_eq!(b.len(), 2);
    assert_eq!(*b.index(0), "abc");
    assert_eq!(*b.index(1), "abc");
    assert_eq!(b.capacity(), 2);
}

#[test]
fn reserve_grows() {
    let mut buf = GapBuffer::new();
    buf.push_back(1);
    buf.reserve(10);
    assert!(buf.capacity() >= 11);
    assert_eq!(buf.capacity(), 11);
    assert_eq!(items(&buf), vec![1]);
}

#[test]
fn reserve_doubles() {
    let mut buf: GapBuffer<i32> = GapBuffer::with_capacity(8);
    for i in 0..8 {
        buf.push_back(i);
    }
    assert_eq!(buf.capacity(), 8);
    buf.reserve(1);
    assert_eq!(buf.capacity(), 16);
    buf.reserve(5);
    assert_eq!(buf.capacity(), 16);
}

#[test]
fn reserve_exact_grows() {
    let mut buf = GapBuffer::new();
    buf.push_back(1);
    buf.reserve_exact(10);
    assert!(buf.capacity() >= 11);
    assert_eq!(buf.capacity(), 11);
}

#[test]
fn reserve_keeps_back_part() {
    let mut buf = buf_of(vec![1, 2, 3, 4]);
    buf.set_gap(1);
    buf.reserve_exact(20);
    assert_eq!(buf.capacity(), 24);
    assert_eq!(buf.gap(), 1);
    assert_eq!(items(&buf), vec![1, 2, 3, 4]);
}

#[test]
fn shrink_to_fit_example() {
    let mut buf = GapBuffer::new();
    buf.push_back(1);
    buf.reserve(10);
    assert!(buf.capacity() >= 11);
    buf.shrink_to_fit();
    assert_eq!(buf.capacity(), 1);
    assert_eq!(items(&buf), vec![1]);
}

#[test]
fn shrink_to_fit_moves_gap_to_end() {
    let mut buf = buf_of(vec![1, 2, 3]);
    buf.reserve(10);
    buf.set_gap(1);
    buf.shrink_to_fit();
    assert_eq!(buf.capacity(), 3);
    assert_eq!(buf.gap(), 3);
    assert_eq!(items(&buf), vec![1, 2, 3]);
}

#[test]
fn set_gap_keeps_elements() {
    let mut buf = buf_of(vec![1, 2, 3, 4, 5]);
    for g in [0, 5, 2, 4, 1, 3] {
        buf.set_gap(g);
        assert_eq!(buf.gap(), g);
        assert_eq!(items(&buf), vec![1, 2, 3, 4, 5]);
    }
}

#[test]
fn insert_in_middle() {
    let mut buf = buf_of(vec![1, 2, 4]);
    buf.insert(2, 3);
    assert_eq!(items(&buf), vec![1, 2, 3, 4]);
    assert_eq!(buf.gap(), 3);
    buf.insert(0, 0);
    assert_eq!(items(&buf), vec![0, 1, 2, 3, 4]);
    assert_eq!(buf.gap(), 1);
}

#[test]
fn insert_capacity_growth() {
    let mut buf: GapBuffer<i32> = GapBuffer::new();
    buf.insert(0, 7);
    assert_eq!(buf.capacity(), 1);
    buf.insert(0, 6);
    assert_eq!(buf.capacity(), 2);
    buf.insert(1, 5);
    assert_eq!(buf.capacity(), 4);
    assert_eq!(items(&buf), vec![6, 5, 7]);
}

#[test]
fn insert_iter_inserts_in_order() {
    let mut buf = buf_of(vec![1, 5]);
    buf.insert_iter(1, vec![2, 3, 4]);
    assert_eq!(items(&buf), vec![1, 2, 3, 4, 5]);
    assert_eq!(buf.gap(), 4);
    assert_eq!(buf.capacity(), 5);
}

#[test]
fn insert_iter_empty_changes_nothing() {
    let mut buf = buf_of(vec![1, 2]);
    buf.set_gap(0);
    let cap = buf.capacity();
    buf.insert_iter(1, Vec::new());
    assert_eq!(items(&buf), vec![1, 2]);
    assert_eq!(buf.gap(), 0);
    assert_eq!(buf.capacity(), cap);
}

#[test]
fn push_back_and_front() {
    let mut buf = GapBuffer::new();
    buf.push_back(2);
    buf.push_front(1);
    buf.push_back(3);
    buf.push_front(0);
    assert_eq!(items(&buf), vec![0, 1, 2, 3]);
    assert_eq!(buf.gap(), 0);
}

#[test]
fn swap_remove_example() {
    let mut buf = buf_of(vec![1, 2, 3, 4, 5]);
    buf.set_gap(5);
    let value = buf.swap_remove(0);
    assert_eq!(value, 1);
    assert_eq!(items(&buf), vec![5, 2, 3, 4]);
    assert_eq!(buf.gap(), 4);
}

#[test]
fn swap_remove_after_gap() {
    let mut buf = buf_of(vec![1, 2, 3, 4, 5]);
    buf.set_gap(1);
    let value = buf.swap_remove(4);
    assert_eq!(value, 5);
    assert_eq!(items(&buf), vec![1, 3, 4, 2]);
    assert_eq!(buf.gap(), 1);
}

#[test]
fn swap_remove_next_to_gap() {
    let mut buf = buf_of(vec![1, 2, 3]);
    buf.set_gap(2);
    assert_eq!(buf.swap_remove(1), 2);
    assert_eq!(items(&buf), vec![1, 3]);
    assert_eq!(buf.swap_remove(1), 3);
    assert_eq!(items(&buf), vec![1]);
}

#[test]
fn remove_example() {
    let mut buf = buf_of(vec![1, 2, 3, 4, 5]);
    let value = buf.remove(0);
    assert_eq!(value, 1);
    assert_eq!(items(&buf), vec![2, 3, 4, 5]);
    assert_eq!(buf.gap(), 0);
}

#[test]
fn remove_then_insert_restores() {
    let mut buf = buf_of(vec![10, 20, 30, 40]);
    let cap = buf.capacity();
    let v = buf.remove(2);
    buf.insert(2, v);
    assert_eq!(items(&buf), vec![10, 20, 30, 40]);
    assert_eq!(buf.capacity(), cap);
}

#[test]
fn insert_then_remove_restores() {
    let mut buf = buf_of(vec![10, 20, 30]);
    buf.insert(1, 15);
    assert_eq!(buf.remove(1), 15);
    assert_eq!(items(&buf), vec![10, 20, 30]);
}

#[test]
fn clear_keeps_capacity() {
    let mut buf = buf_of(vec![1, 2, 3]);
    let cap = buf.capacity();
    buf.clear();
    assert!(buf.is_empty());
    assert_eq!(buf.capacity(), cap);
    assert_eq!(buf.gap(), 0);
}

#[test]
fn truncate_example() {
    let mut buf = buf_of(vec![1, 2, 3, 4]);
    buf.truncate(2);
    assert_eq!(items(&buf), vec![1, 2]);
    assert_eq!(buf.gap(), 2);
    buf.truncate(5);
    assert_eq!(items(&buf), vec![1, 2]);
}

#[test]
fn truncate_with_gap_in_front() {
    let mut buf = buf_of(vec![String::from("a"), String::from("b"), String::from("c")]);
    buf.set_gap(0);
    buf.truncate(1);
    assert_eq!(items(&buf), vec![String::from("a")]);
    assert_eq!(buf.gap(), 1);
}

#[test]
fn retain_example() {
    let mut buf = buf_of(vec![1, 2, 3, 4]);
    buf.retain(|&x| x % 2 == 0);
    assert_eq!(items(&buf), vec![2, 4]);
}

#[test]
fn retain_all_and_none() {
    let mut buf = buf_of(vec![1, 2, 3]);
    buf.retain(|_| true);
    assert_eq!(items(&buf), vec![1, 2, 3]);
    buf.retain(|_| false);
    assert!(buf.is_empty());
}

#[test]
fn pop_front_and_back() {
    let mut buf = buf_of(vec![1, 2, 3]);
    assert_eq!(buf.pop_front(), Some(1));
    assert_eq!(buf.pop_back(), Some(3));
    assert_eq!(buf.pop_back(), Some(2));
    assert_eq!(buf.pop_back(), None);
    assert_eq!(buf.pop_front(), None);
}

#[test]
fn push_pop_round_trip() {
    let mut buf = buf_of(vec![1, 2]);
    buf.push_back(9);
    assert_eq!(buf.pop_back(), Some(9));
    buf.push_front(8);
    assert_eq!(buf.pop_front(), Some(8));
    assert_eq!(items(&buf), vec![1, 2]);
}

#[test]
fn drain_example() {
    let mut buf = buf_of(vec![1, 2, 3, 4]);
    let mut d = buf.drain(Bound::Included(1), Bound::Excluded(3));
    let mut drained = Vec::new();
    while let Some(x) = d.next() {
        drained.push(x);
    }
    assert_eq!(items(&buf), vec![1, 4]);
    assert_eq!(drained, vec![2, 3]);
    buf.drain(Bound::Unbounded, Bound::Unbounded);
    assert_eq!(buf.is_empty(), true);
}

#[test]
fn drain_removes_without_consuming() {
    let mut buf = buf_of(vec![1, 2, 3, 4, 5]);
    let d = buf.drain(Bound::Excluded(0), Bound::Included(2));
    assert_eq!(d.size_hint(), (2, Some(2)));
    assert_eq!(items(&buf), vec![1, 4, 5]);
    assert_eq!(buf.gap(), 1);
}

#[test]
fn drain_empty_range() {
    let mut buf = buf_of(vec![1, 2]);
    buf.set_gap(0);
    let mut d = buf.drain(Bound::Included(1), Bound::Excluded(1));
    assert_eq!(d.next(), None);
    assert_eq!(items(&buf), vec![1, 2]);
    assert_eq!(buf.gap(), 0);
}

#[test]
fn resize_grows_and_shrinks() {
    let mut buf = buf_of(vec![1, 2]);
    buf.resize(4, 7);
    assert_eq!(items(&buf), vec![1, 2, 7, 7]);
    assert_eq!(buf.capacity(), 4);
    buf.resize(1, 0);
    assert_eq!(items(&buf), vec![1]);
    buf.resize(1, 0);
    assert_eq!(items(&buf), vec![1]);
}

#[test]
fn get_and_get_mut() {
    let mut buf = buf_of(vec![1, 2, 3]);
    buf.set_gap(1);
    assert_eq!(buf.get(0), Some(&1));
    assert_eq!(buf.get(2), Some(&3));
    assert_eq!(buf.get(3), None);
    *buf.get_mut(2).unwrap() = 30;
    *buf.index_mut(0) = 10;
    assert!(buf.get_mut(3).is_none());
    assert_eq!(items(&buf), vec![10, 2, 30]);
}

#[test]
fn swap_elements() {
    let mut buf = buf_of(vec![1, 2, 3, 4]);
    buf.set_gap(2);
    buf.swap(0, 3);
    assert_eq!(items(&buf), vec![4, 2, 3, 1]);
    buf.swap(0, 3);
    assert_eq!(items(&buf), vec![1, 2, 3, 4]);
    buf.swap(1, 1);
    assert_eq!(items(&buf), vec![1, 2, 3, 4]);
}

#[test]
fn ranges_read_through_gap() {
    let mut buf = buf_of(vec![0, 1, 2, 3, 4, 5]);
    buf.set_gap(3);
    let r = buf.range(Bound::Included(2), Bound::Included(4));
    assert_eq!(r.len(), 3);
    assert_eq!(r.get(0), Some(&2));
    assert_eq!(*r.index(2), 4);
    assert_eq!(r.get(3), None);
    let sub = r.range(Bound::Excluded(0), Bound::Unbounded);
    assert_eq!(sub.len(), 2);
    assert_eq!(sub.get(0), Some(&3));
    let mut it = r.iter();
    assert_eq!(it.size_hint(), (3, Some(3)));
    assert_eq!(it.next(), Some(&2));
    assert_eq!(it.next(), Some(&3));
    assert_eq!(it.next(), Some(&4));
    assert_eq!(it.next(), None);
    let c = r.clone();
    assert_eq!(c.len(), 3);
    let e: Range<i32> = Range::empty();
    assert!(e.is_empty());
    assert_eq!(e.get(0), None);
}

#[test]
fn range_mut_writes_through() {
    let mut buf = buf_of(vec![0, 1, 2, 3, 4]);
    buf.set_gap(2);
    {
        let mut r = buf.range_mut(Bound::Included(1), Bound::Excluded(4));
        assert_eq!(r.len(), 3);
        {
            let sub = r.range(Bound::Excluded(0), Bound::Unbounded);
            assert_eq!(sub.len(), 2);
            assert_eq!(sub.get(0), Some(&2));
            assert_eq!(sub.get(1), Some(&3));
        }
        *r.get_mut(0).unwrap() = 10;
        *r.index_mut(2) = 30;
        r.swap(0, 1);
        assert_eq!(r.get(0), Some(&2));
        assert!(r.get_mut(3).is_none());
        let mut it = r.iter_mut();
        while let Some(x) = it.next() {
            *x += 100;
        }
    }
    assert_eq!(items(&buf), vec![0, 102, 110, 130, 4]);
    let e: RangeMut<i32> = RangeMut::empty();
    assert_eq!(e.len(), 0);
}

#[test]
fn iter_mut_updates_all() {
    let mut buf = buf_of(vec![1, 2, 3]);
    buf.set_gap(1);
    let mut it = buf.iter_mut();
    assert_eq!(it.size_hint(), (3, Some(3)));
    while let Some(x) = it.next() {
        *x *= 2;
    }
    assert_eq!(items(&buf), vec![2, 4, 6]);
}

#[test]
fn into_iter_yields_in_order() {
    let mut buf = buf_of(vec![1, 2, 3]);
    buf.set_gap(1);
    let mut it = buf.into_iter();
    assert_eq!(it.size_hint(), (3, Some(3)));
    assert_eq!(it.next(), Some(1));
    assert_eq!(it.next(), Some(2));
    assert_eq!(it.next(), Some(3));
    assert_eq!(it.next(), None);
}

#[test]
fn as_slices_split_at_gap() {
    let mut buf = buf_of(vec![1, 2, 3, 4]);
    buf.set_gap(1);
    let (a, b) = buf.as_slices();
    assert_eq!(a, vec![&1]);
    assert_eq!(b, vec![&2, &3, &4]);
}

#[test]
fn clone_from_iter_extend() {
    let mut buf = buf_of(vec![1, 2, 3]);
    buf.reserve(10);
    buf.set_gap(0);
    let c = buf.clone();
    assert_eq!(items(&c), vec![1, 2, 3]);
    assert_eq!(c.capacity(), 3);
    assert_eq!(c.gap(), 3);
    let mut f = GapBuffer::from_iter(vec![4, 5]);
    assert_eq!(f.capacity(), 2);
    f.extend(vec![6]);
    assert_eq!(items(&f), vec![4, 5, 6]);
    assert_eq!(f.capacity(), 4);
}

#[test]
fn slice_basics() {
    let s: Slice<i32> = Slice::empty();
    assert_eq!(s.len(), 0);
    assert!(s.is_empty());
    assert_eq!(s.get(0), None);
    let buf = buf_of(vec![3, 4]);
    assert_eq!(buf.len(), 2);
}

#[test]
fn eq_compares_elements() {
    let mut buf = buf_of(vec![1, 2, 3]);
    buf.set_gap(1);
    assert!(buf.eq(&[1, 2, 3]));
    assert!(!buf.eq(&[1, 2]));
    assert!(!buf.eq(&[1, 2, 4]));
    let empty: GapBuffer<i32> = GapBuffer::new();
    assert!(empty.eq(&[]));
}

#[test]
fn extend_from_slice_copies() {
    let mut buf = buf_of(vec![1]);
    buf.extend_from_slice(&[2, 3]);
    assert_eq!(items(&buf), vec![1, 2, 3]);
    buf.extend_from_slice(&[]);
    assert_eq!(items(&buf), vec![1, 2, 3]);
}

#[test]
fn swap_remove_removes_exactly_one() {
    for g in 0..=5 {
        for i in 0..5 {
            let mut buf = buf_of(vec![1, 2, 3, 4, 5]);
            buf.set_gap(g);
            let v = buf.swap_remove(i);
            assert_eq!(v, i as i32 + 1);
            let mut rest = items(&buf);
            rest.sort();
            let mut expected: Vec<i32> = (1..=5).filter(|&x| x != v).collect();
            expected.sort();
            assert_eq!(rest, expected);
        }
    }
}

#[test]
fn read_after_write() {
    let mut buf = buf_of(vec![1, 2, 3]);
    buf.set_gap(2);
    *buf.index_mut(1) = 20;
    assert_eq!(*buf.index(1), 20);
    assert_eq!(*buf.index(0), 1);
    assert_eq!(*buf.index(2), 3);
}

#[test]
fn insert_within_capacity_keeps_capacity() {
    let mut buf: GapBuffer<i32> = GapBuffer::with_capacity(4);
    buf.push_back(1);
    buf.push_front(0);
    buf.insert(1, 5);
    buf.push_back(2);
    assert_eq!(buf.capacity(), 4);
    assert_eq!(items(&buf), vec![0, 5, 1, 2]);
}

#[test]
fn drain_splits_in_order() {
    let mut buf = buf_of(vec![1, 2, 3, 4, 5, 6]);
    buf.set_gap(4);
    let mut d = buf.drain(Bound::Included(1), Bound::Included(3));
    let mut out = Vec::new();
    while let Some(x) = d.next() {
        out.push(x);
    }
    let mut all = vec![*buf.index(0)];
    all.extend(out);
    all.push(*buf.index(1));
    all.push(*buf.index(2));
    assert_eq!(all, vec![1, 2, 3, 4, 5, 6]);
}

#[test]
fn cmp_is_lexicographic() {
    let mut a = buf_of(vec![1, 2, 3]);
    a.set_gap(1);
    let b = buf_of(vec![1, 2, 4]);
    let c = buf_of(vec![1, 2]);
    assert_eq!(a.cmp(&b), Ordering::Less);
    assert_eq!(b.cmp(&a), Ordering::Greater);
    assert_eq!(a.cmp(&c), Ordering::Greater);
    assert_eq!(c.cmp(&a), Ordering::Less);
    assert_eq!(a.cmp(&a), Ordering::Equal);
}

#[test]
fn partial_cmp_is_lexicographic() {
    let a = buf_of(vec![1.0, 2.0]);
    assert_eq!(a.partial_cmp(&[1.0, 3.0]), Some(Ordering::Less));
    assert_eq!(a.partial_cmp(&[1.0, 2.0]), Some(Ordering::Equal));
    assert_eq!(a.partial_cmp(&[1.0]), Some(Ordering::Greater));
    assert_eq!(a.partial_cmp(&[f64::NAN, 0.0]), None);
}

#[test]
fn iter_mut_hands_out_many_references() {
    let mut buf = buf_of(vec![1, 2, 3, 4]);
    buf.set_gap(2);
    let mut refs = Vec::new();
    let mut it = buf.iter_mut();
    while let Some(x) = it.next() {
        refs.push(x);
    }
    for r in refs.iter_mut() {
        **r += 10;
    }
    *refs[0] = 0;
    drop(refs);
    assert_eq!(items(&buf), vec![0, 12, 13, 14]);
}

#[test]
fn as_mut_slices_write_through() {
    let mut buf = buf_of(vec![1, 2, 3, 4]);
    buf.set_gap(3);
    let (a, b) = buf.as_mut_slices();
    assert_eq!(a.len(), 3);
    assert_eq!(b.len(), 1);
    for x in a {
        *x *= 2;
    }
    for x in b {
        *x = 0;
    }
    assert_eq!(items(&buf), vec![2, 4, 6, 0]);
    assert_eq!(buf.gap(), 3);
}

#[test]
fn truncate_to_length_moves_gap_for_plain_values() {
    let mut buf = buf_of(vec![1, 2, 3]);
    buf.set_gap(1);
    buf.truncate(3);
    assert_eq!(items(&buf), vec![1, 2, 3]);
    assert_eq!(buf.gap(), 3);
}

#[test]
fn truncate_to_length_keeps_gap_for_dropped_values() {
    let mut buf = buf_of(vec![String::from("a"), String::from("b")]);
    buf.set_gap(1);
    buf.truncate(2);
    assert_eq!(items(&buf), vec![String::from("a"), String::from("b")]);
    assert_eq!(buf.gap(), 1);
}

#[test]
fn truncate_past_length_changes_nothing() {
    let mut buf = buf_of(vec![1, 2, 3]);
    buf.set_gap(1);
    buf.truncate(7);
    assert_eq!(items(&buf), vec![1, 2, 3]);
    assert_eq!(buf.gap(), 1);
}

#[test]
fn retain_leaves_gap_at_last_removal() {
    let mut buf = buf_of(vec![1, 2, 3, 4, 6, 8]);
    buf.retain(|&x| x != 3 && x != 1);
    assert_eq!(items(&buf), vec![2, 4, 6, 8]);
    assert_eq!(buf.gap(), 1);
    let mut buf = buf_of(vec![1, 2, 3]);
    buf.set_gap(2);
    buf.retain(|_| true);
    assert_eq!(buf.gap(), 2);
}

#[test]
fn eq_buffer_ignores_gap_and_capacity() {
    let mut a = buf_of(vec![1, 2, 3]);
    let mut b: GapBuffer<i32> = GapBuffer::with_capacity(10);
    b.extend(vec![1, 2, 3]);
    b.set_gap(0);
    assert!(a.eq_buffer(&b));
    a.shrink_to_fit();
    a.set_gap(2);
    assert!(a.eq_buffer(&b));
    let c = buf_of(vec![1, 2, 4]);
    assert!(!a.eq_buffer(&c));
    let d = buf_of(vec![1, 2]);
    assert!(!a.eq_buffer(&d));
}

#[test]
fn range_mut_swap_keeps_gap_and_capacity() {
    let mut buf = buf_of(vec![1, 2, 3]);
    buf.set_gap(1);
    let cap = buf.capacity();
    {
        let mut r = buf.range_mut(Bound::Unbounded, Bound::Unbounded);
        r.swap(0, 2);
    }
    assert_eq!(items(&buf), vec![3, 2, 1]);
    assert_eq!(buf.gap(), 1);
    assert_eq!(buf.capacity(), cap);
}
