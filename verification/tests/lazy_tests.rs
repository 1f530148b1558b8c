use fmap::lazy::{lazy_bind, lazy_fmap, LazySeq, Pull};
use std::cell::Cell;

#[test]
fn test_lazy_bind_laziness() {
    let calls = Cell::new(0u32);
    let src = LazySeq::new(vec![1u64, 2]);
    let mut b = lazy_bind(src, |x: u64| {
        calls.set(calls.get() + 1);
        LazySeq::new(vec![x * 10])
    });
    assert_eq!(calls.get(), 0);
    assert_eq!(b.next(), Some(10));
    assert_eq!(calls.get(), 1);
    assert_eq!(b.next(), Some(20));
    assert_eq!(calls.get(), 2);
    assert_eq!(b.next(), None);
    assert_eq!(calls.get(), 2);
}

#[test]
fn test_lazy_bind_flattens_in_order() {
    let src = LazySeq::new(vec![5u64, 6, 7]);
    let mut b = lazy_bind(src, |x: u64| LazySeq::new(vec![2 * x, 10 * x]));
    let mut out = Vec::new();
    while let Some(x) = b.next() {
        out.push(x);
    }
    assert_eq!(out, vec![10, 50, 12, 60, 14, 70]);
}

#[test]
fn test_lazy_bind_skips_empty_inner_sequences() {
    let src = LazySeq::new(vec![1u64, 2, 3]);
    let mut b = lazy_bind(src, |x: u64| {
        if x % 2 == 0 {
            LazySeq::new(vec![x])
        } else {
            LazySeq::new(Vec::new())
        }
    });
    assert_eq!(b.next(), Some(2));
    assert_eq!(b.next(), None);
}

#[test]
fn test_lazy_fmap_is_lazy() {
    let calls = Cell::new(0u32);
    let src = LazySeq::new(vec![1u64, 2]);
    let mut m = lazy_fmap(src, |x: u64| {
        calls.set(calls.get() + 1);
        x + 1
    });
    assert_eq!(calls.get(), 0);
    assert_eq!(m.next(), Some(2));
    assert_eq!(calls.get(), 1);
    assert_eq!(m.next(), Some(3));
    assert_eq!(m.next(), None);
    assert_eq!(calls.get(), 2);
}

#[test]
fn test_lazy_pure_yields_once() {
    let mut s = LazySeq::pure(5u64);
    assert_eq!(s.next(), Some(5));
    assert_eq!(s.next(), None);
}

#[test]
fn test_lazy_seq_yields_in_order() {
    let mut s = LazySeq::new(vec![3u64, 1, 4]);
    assert_eq!(s.next(), Some(3));
    assert_eq!(s.next(), Some(1));
    assert_eq!(s.next(), Some(4));
    assert_eq!(s.next(), None);
    assert_eq!(s.next(), None);
}
