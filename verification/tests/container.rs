//! The container operations, held against the reference array model.

use dst::{FixedVec, Handle};

/// A container of `n` records: header `i`, tail `[i, i + 1, i + 2]`.
fn numbered(n: usize) -> FixedVec<usize, usize> {
    let mut v = FixedVec::new(3);
    for i in 0..n {
        v.push(i, vec![i, i + 1, i + 2]);
    }
    v
}

/// The headers of all records, in index order.
fn headers(v: &FixedVec<usize, usize>) -> Vec<usize> {
    let mut out = Vec::new();
    let mut it = v.iter();
    while let Some(h) = it.next() {
        out.push(h.value);
    }
    out
}

#[test]
fn push_then_get() {
    // A record just pushed is what `get` at the new last index returns.
    let mut v = FixedVec::new(2);
    v.push("alpha", vec![1u8, 2]);
    v.push("beta", vec![3, 4, 5]);
    assert_eq!(v.len(), 2);
    let h = v.get(v.len() - 1).unwrap();
    assert_eq!(h.value, "beta");
    // Excess tail elements are dropped: exactly the tail length is kept.
    assert_eq!(h.tail, vec![3, 4]);
}

#[test]
fn get_out_of_range_is_none() {
    let v = numbered(2);
    assert!(v.get(1).is_some());
    assert!(v.get(2).is_none());
    assert!(v.get(usize::MAX).is_none());
}

#[test]
fn push_and_get_defaults() {
    let mut vec = FixedVec::<Option<&str>, usize>::new(4);
    vec.push_default();
    let item = vec.get(0).unwrap();
    assert_eq!(item.value, None);
    assert_eq!(item.tail, [0, 0, 0, 0]);

    vec.push(Some("Name"), vec![1, 2, 3, 4]);
    let item = vec.get(1).unwrap();
    assert_eq!(item.value, Some("Name"));
    assert_eq!(item.tail, [1, 2, 3, 4]);
    assert_eq!(vec.len(), 2);
}

#[test]
fn insert_matches_array_model() {
    // The same insert against a plain array model, compared by full
    // iteration.
    let mut v = numbered(4);
    v.insert(2, 9, vec![9, 10, 11]);
    let mut model: Vec<usize> = vec![0, 1, 2, 3];
    model.insert(2, 9);
    assert_eq!(headers(&v), model);
    let mut it = v.iter();
    let mut n: usize = 0;
    while let Some(h) = it.next() {
        assert_eq!(h.value, model[n]);
        n += 1;
    }
    assert_eq!(n, model.len());
}

#[test]
fn insert_at_both_ends() {
    let mut v = numbered(2);
    v.insert(0, 7, vec![7, 8, 9]);
    v.insert(3, 8, vec![8, 9, 10]);
    assert_eq!(headers(&v), vec![7, 0, 1, 8]);
}

#[test]
fn length_tracks_net_insertions() {
    // Length is net insertions minus removals, and capacity covers length
    // at every observation point.
    let mut v = numbered(0);
    assert_eq!(v.len(), 0);
    assert!(v.capacity() >= v.len());
    for i in 0..10 {
        v.push(i, vec![0, 0, 0]);
        assert_eq!(v.len(), i + 1);
        assert!(v.capacity() >= v.len());
    }
    v.pop();
    v.remove(0);
    assert_eq!(v.len(), 8);
    assert!(v.capacity() >= v.len());
    v.remove_range(1..3);
    assert_eq!(v.len(), 6);
    v.insert(2, 42, vec![0, 0, 0]);
    assert_eq!(v.len(), 7);
    assert!(v.capacity() >= v.len());
}

#[test]
fn capacity_growth_is_deterministic() {
    let mut v = numbered(0);
    assert_eq!(v.capacity(), 0);
    v.push(0, vec![0, 0, 0]);
    // Baseline (1 + 0 + 1) / 2 = 1, doubled to the power of two 2.
    assert_eq!(v.capacity(), 2);
    v.push(1, vec![0, 0, 0]);
    assert_eq!(v.capacity(), 2);
    v.push(2, vec![0, 0, 0]);
    assert_eq!(v.capacity(), 4);
    v.push(3, vec![0, 0, 0]);
    v.push(4, vec![0, 0, 0]);
    assert_eq!(v.capacity(), 8);
}

#[test]
fn reserve_and_reserve_exact() {
    let mut v = numbered(0);
    v.reserve_exact(3);
    assert_eq!(v.capacity(), 3);
    v.reserve_exact(2);
    assert_eq!(v.capacity(), 3);
    let mut w = numbered(1);
    w.reserve(5);
    // Baseline (5 + 1 + 1) / 2 = 3, doubled to the power of two 8.
    assert_eq!(w.capacity(), 8);
    assert_eq!(w.len(), 1);
}

#[test]
fn pop_drops_last() {
    let mut v = numbered(3);
    v.pop();
    assert_eq!(headers(&v), vec![0, 1]);
}

#[test]
fn pop_boxed_detaches_record() {
    let mut v = numbered(3);
    let b = v.pop_boxed();
    assert_eq!(b.value, 2);
    assert_eq!(b.tail, vec![2, 3, 4]);
    assert_eq!(headers(&v), vec![0, 1]);
}

#[test]
fn pop_value_returns_header_only() {
    // Length shrinks by one and the returned value is the stored header.
    let mut v = numbered(3);
    let value = v.pop_value();
    assert_eq!(value, 2);
    assert_eq!(v.len(), 2);
    assert!(v.get(2).is_none());
    assert_eq!(headers(&v), vec![0, 1]);
}

#[test]
fn remove_preserves_order() {
    let mut v = numbered(5);
    v.remove(1);
    assert_eq!(headers(&v), vec![0, 2, 3, 4]);
}

#[test]
fn remove_range_keeps_survivors_in_order() {
    // Five records, removing 1..3 leaves the original indices 0, 3, 4 in
    // order.
    let mut v = numbered(5);
    v.remove_range(1..3);
    assert_eq!(v.len(), 3);
    assert_eq!(headers(&v), vec![0, 3, 4]);
}

#[test]
fn remove_range_empty_and_full() {
    let mut v = numbered(3);
    v.remove_range(1..1);
    assert_eq!(headers(&v), vec![0, 1, 2]);
    v.remove_range(0..3);
    assert_eq!(v.len(), 0);
}

#[test]
fn remove_replace_takes_former_last() {
    // Index 1 is replaced by the former last element; everything else is
    // untouched.
    let mut v = numbered(5);
    v.remove_replace(1);
    assert_eq!(headers(&v), vec![0, 4, 2, 3]);
    // At the last index the removal is a plain drop.
    let mut w = numbered(3);
    w.remove_replace(2);
    assert_eq!(headers(&w), vec![0, 1]);
}

#[test]
fn remove_range_replace_refills_from_the_end() {
    // Five records, removing 1..3 refills the span from the tail end,
    // last record first: order 0, 4, 3.
    let mut v = numbered(5);
    v.remove_range_replace(1..3);
    assert_eq!(v.len(), 3);
    assert_eq!(headers(&v), vec![0, 4, 3]);
}

#[test]
fn remove_range_replace_boundaries() {
    // Removal at the very start.
    let mut v = numbered(4);
    v.remove_range_replace(0..2);
    assert_eq!(headers(&v), vec![3, 2]);
    // Removal at the very end is a plain truncation.
    let mut w = numbered(4);
    w.remove_range_replace(2..4);
    assert_eq!(headers(&w), vec![0, 1]);
    // Removing everything empties the container.
    let mut x = numbered(4);
    x.remove_range_replace(0..4);
    assert_eq!(x.len(), 0);
    // A span wider than the remaining suffix takes all of it, last first.
    let mut y = numbered(5);
    y.remove_range_replace(1..4);
    assert_eq!(headers(&y), vec![0, 4]);
}

#[test]
fn remove_value_returns_header_and_shifts() {
    let mut v = numbered(4);
    let value = v.remove_value(1);
    assert_eq!(value, 1);
    assert_eq!(headers(&v), vec![0, 2, 3]);
}

#[test]
fn move_from_relocates_range_in_order() {
    // The destination gains the moved range as its suffix, in original
    // order; the source closes the gap by shifting, earlier elements
    // unchanged.
    let mut dst = numbered(2);
    let mut src = numbered(5);
    dst.move_from(&mut src, 1..4);
    assert_eq!(headers(&dst), vec![0, 1, 1, 2, 3]);
    assert_eq!(headers(&src), vec![0, 4]);
    assert_eq!(src.len(), 2);
    let moved = dst.get(2).unwrap();
    assert_eq!(moved.tail, vec![1, 2, 3]);
}

#[test]
fn move_from_empty_range_moves_nothing() {
    let mut dst = numbered(1);
    let mut src = numbered(3);
    dst.move_from(&mut src, 2..2);
    assert_eq!(headers(&dst), vec![0]);
    assert_eq!(headers(&src), vec![0, 1, 2]);
}

#[test]
fn clone_is_structurally_equal_and_independent() {
    let mut v: FixedVec<u8, u8> = FixedVec::new(2);
    v.push(1, vec![10, 11]);
    v.push(2, vec![20, 21]);
    let mut c = v.clone();
    assert_eq!(c.len(), v.len());
    assert_eq!(c.capacity(), v.capacity());
    assert_eq!(c.slice_length(), v.slice_length());
    for i in 0..v.len() {
        assert_eq!(v.get(i).unwrap(), c.get(i).unwrap());
    }
    // The copy owns its records: changing it leaves the original alone.
    c.pop();
    c.push(9, vec![90, 91]);
    assert_eq!(v.get(1).unwrap().value, 2);
    assert_eq!(c.get(1).unwrap().value, 9);
}

#[test]
fn get_mut_edits_in_place() {
    let mut v = numbered(3);
    {
        let h = v.get_mut(1).unwrap();
        h.value = 77;
        h.tail[0] = 70;
    }
    assert_eq!(v.get(1).unwrap().value, 77);
    assert_eq!(v.get(1).unwrap().tail, vec![70, 2, 3]);
    assert!(v.get_mut(3).is_none());
}

#[test]
fn iteration_is_restartable() {
    let v = numbered(3);
    let mut first = v.iter();
    assert_eq!(first.next().unwrap().value, 0);
    assert_eq!(first.next().unwrap().value, 1);
    assert_eq!(first.next().unwrap().value, 2);
    assert!(first.next().is_none());
    assert!(first.next().is_none());
    let mut second = v.iter();
    assert_eq!(second.next().unwrap().value, 0);
}

#[test]
fn slice_length_is_fixed() {
    let v = numbered(4);
    assert_eq!(v.slice_length(), 3);
    assert!(!v.is_empty());
    assert!(numbered(0).is_empty());
}

#[test]
fn insert_default_variants() {
    let mut v: FixedVec<u8, u8> = FixedVec::new(2);
    v.push(5, vec![1, 2]);
    v.insert_default(0);
    v.insert_default_slice(1, 9);
    v.push_default_slice(7);
    assert_eq!(v.len(), 4);
    assert_eq!(v.get(0).unwrap().value, 0);
    assert_eq!(v.get(0).unwrap().tail, vec![0, 0]);
    assert_eq!(v.get(1).unwrap().value, 9);
    assert_eq!(v.get(1).unwrap().tail, vec![0, 0]);
    assert_eq!(v.get(2).unwrap().value, 5);
    assert_eq!(v.get(3).unwrap().value, 7);
    assert_eq!(v.get(3).unwrap().tail, vec![0, 0]);
}

#[test]
fn populate_and_extend_records() {
    // `populate` draws exactly the tail length; excess stays unused.
    let h: Handle<u8, u8> = Handle::populate(5, 3, vec![1, 2, 3, 9, 9]);
    assert_eq!(h.value, 5);
    assert_eq!(h.tail, vec![1, 2, 3]);
    // Two-phase population: continue from an offset.
    let mut h: Handle<u8, u8> = Handle::populate(6, 2, vec![1, 2]);
    let written = h.extend(4, 2, vec![8, 9, 10]);
    assert_eq!(written, 4);
    assert_eq!(h.tail, vec![1, 2, 8, 9]);
}

#[test]
fn record_structural_equality() {
    // Records compare by header and tail contents, not by provenance.
    let a: Handle<u8, u8> = Handle::populate(1, 2, vec![2, 3]);
    let b: Handle<u8, u8> = Handle::populate(1, 2, vec![2, 3, 9]);
    let c: Handle<u8, u8> = Handle::populate(1, 2, vec![2, 4]);
    assert_eq!(a, b);
    assert_ne!(a, c);
}

#[test]
fn iterator_can_be_cloned() {
    // A cloned cursor continues from the same spot, independently.
    let v = numbered(3);
    let mut a = v.iter();
    a.next();
    let mut b = a.clone();
    assert_eq!(a.next().unwrap().value, 1);
    assert_eq!(a.next().unwrap().value, 2);
    assert_eq!(b.next().unwrap().value, 1);
}
