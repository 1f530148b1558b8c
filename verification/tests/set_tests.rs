use fmap::set_shape::set_fmap;
use std::collections::HashSet;

#[test]
fn test_set_fmap_maps_every_element() {
    let mut s: HashSet<u64> = HashSet::new();
    s.insert(1);
    s.insert(2);
    s.insert(3);
    let r = set_fmap(&s, |x: &u64| *x * 2);
    let expected: HashSet<u64> = vec![2, 4, 6].into_iter().collect();
    assert_eq!(r, expected);
}

#[test]
fn test_set_fmap_collapses_duplicates() {
    let mut s: HashSet<u64> = HashSet::new();
    s.insert(1);
    s.insert(2);
    s.insert(3);
    s.insert(4);
    let r = set_fmap(&s, |x: &u64| *x % 2);
    let expected: HashSet<u64> = vec![0, 1].into_iter().collect();
    assert_eq!(r, expected);
}

#[test]
fn test_set_fmap_empty() {
    let s: HashSet<u64> = HashSet::new();
    let r = set_fmap(&s, |_x: &u64| -> u64 { panic!() });
    assert!(r.is_empty());
}
