use fmap::callable::{apply_deferred, drive_thunk, thunk};
use fmap::future::{drive_bound, drive_mapped, future_bind, future_fmap, Deferred, Future};
use std::cell::RefCell;

#[test]
fn test_future_bind_ordering() {
    let composed = future_bind(Future::pure(2u64), |x: u64| Future::pure(x * 7));
    assert_eq!(composed.drive(), 14);
}

#[test]
fn test_future_bind_defers_step() {
    let composed = future_bind(Future::pure(1u64), |_x: u64| -> Future<u64> { panic!() });
    // never driven: the step must not have run
    drop(composed);
}

#[test]
fn test_future_fmap() {
    let mapped = future_fmap(Future::pure(3u64), |x: u64| x + 1);
    assert_eq!(mapped.drive(), 4);
}

#[test]
fn test_future_fmap_defers_transform() {
    let mapped = future_fmap(Future::pure(3u64), |_x: u64| -> u64 { panic!() });
    drop(mapped);
}

#[test]
fn test_drive_bound_and_mapped() {
    let composed = future_bind(Future::pure(2u64), |x: u64| Future::pure(x * 7));
    assert_eq!(drive_bound(composed), 14);
    let mapped = future_fmap(Future::pure(3u64), |x: u64| x + 1);
    assert_eq!(drive_mapped(mapped), 4);
}

#[test]
fn test_drive_thunk() {
    assert_eq!(drive_thunk(thunk(|| 5u64)), 5);
}

#[test]
fn test_future_bind_chains() {
    let first = future_bind(Future::pure(2u64), |x: u64| Future::pure(x + 1));
    let second = future_bind(first, |x: u64| Future::pure(x * 10));
    assert_eq!(second.drive(), 30);
}

#[test]
fn test_thunk_runs_only_when_driven() {
    let log = RefCell::new(Vec::new());
    let t = thunk(|| {
        log.borrow_mut().push("ran");
        5u64
    });
    assert!(log.borrow().is_empty());
    assert_eq!(t.drive(), 5);
    assert_eq!(*log.borrow(), vec!["ran"]);
}

#[test]
fn test_apply_deferred_resolves_transform_first() {
    let log = RefCell::new(Vec::new());
    let func = thunk(|| {
        log.borrow_mut().push("transform");
        |x: u64| x + 1
    });
    let arg = thunk(|| {
        log.borrow_mut().push("value");
        41u64
    });
    let applied = apply_deferred(func, arg);
    assert!(log.borrow().is_empty());
    assert_eq!(applied.drive(), 42);
    assert_eq!(*log.borrow(), vec!["transform", "value"]);
}
