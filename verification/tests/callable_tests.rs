use fmap::callable::{
    accept_adapted, accept_sink, apply_call, call_fmap, call_pure, contramap, sink, Accept,
};
use std::cell::RefCell;

#[test]
fn test_contramap_sink() {
    let received = RefCell::new(Vec::<String>::new());
    let original = sink(|s: String| {
        received.borrow_mut().push(s);
    });
    let adapted = contramap(original, |n: u64| format!("{n}"));
    adapted.accept(13u64);
    assert_eq!(received.into_inner(), vec!["13".to_string()]);
}

#[test]
fn test_contramap_converts_before_forwarding() {
    let got = RefCell::new(0u64);
    let original = sink(|n: u64| {
        *got.borrow_mut() = n;
    });
    let adapted = contramap(original, |n: u64| n * 2);
    adapted.accept(21u64);
    assert_eq!(got.into_inner(), 42);
}

#[test]
fn test_sink_accepts_once() {
    let count = RefCell::new(0u32);
    let s = sink(|_n: u64| {
        *count.borrow_mut() += 1;
    });
    s.accept(7u64);
    assert_eq!(count.into_inner(), 1);
}

#[test]
fn test_checked_accept_entry_points() {
    assert_eq!(accept_sink(sink(|x: u64| x + 1), 4u64), 5);
    let adapted = contramap(sink(|s: String| s.len()), |n: u64| format!("{n}"));
    assert_eq!(accept_adapted(adapted, 123u64), 3);
}

#[test]
fn test_call_fmap_transforms_result() {
    let s = sink(|x: u64| x * 2);
    let mapped = call_fmap(s, |r: u64| r + 1);
    assert_eq!(mapped.accept(5u64), 11);
}

#[test]
fn test_call_pure_ignores_input() {
    let c = call_pure(99u64);
    assert_eq!(c.accept(123u64), 99);
}

#[test]
fn test_apply_call_duplicates_input() {
    let func = sink(|x: u64| move |a: u64| a * x);
    let arg = sink(|x: u64| x + 1);
    let applied = apply_call(func, arg);
    assert_eq!(applied.accept(3u64), 12);
}
