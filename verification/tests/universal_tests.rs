use fmap::list::LinkedList;
use fmap::universal::{UniversalFunctor, UniversalMonad};
use std::collections::{BTreeMap, HashMap, VecDeque};

fn functor_round_trip<A, T: UniversalFunctor<A>>(x: T) -> T {
    T::from_mapped_functor(x.change_functor_target())
}

fn monad_round_trip<A, T: UniversalMonad<A>>(x: T) -> T {
    T::from_mapped_monad(x.change_monad_target())
}

#[test]
fn test_universal_functor_option() {
    assert_eq!(functor_round_trip(Some(99u64)), Some(99));
    assert_eq!(functor_round_trip(None::<u64>), None);
}

#[test]
fn test_universal_functor_vec() {
    assert_eq!(functor_round_trip(vec![4u64, 5]), vec![4, 5]);
}

#[test]
fn test_universal_functor_vecdeque() {
    let d: VecDeque<u64> = VecDeque::from(vec![1, 2]);
    assert_eq!(functor_round_trip(d.clone()), d);
}

#[test]
fn test_universal_functor_linkedlist() {
    let l = LinkedList::from_vec(vec![1u64, 2]);
    assert_eq!(functor_round_trip(l.clone()), l);
}

#[test]
fn test_universal_functor_result() {
    assert_eq!(functor_round_trip(Ok::<u64, &str>(3)), Ok(3));
    assert_eq!(functor_round_trip(Err::<u64, &str>("e")), Err("e"));
}

#[test]
fn test_universal_functor_maps() {
    let mut h: HashMap<u64, u64> = HashMap::new();
    h.insert(1, 10);
    assert_eq!(functor_round_trip(h.clone()), h);
    let mut b: BTreeMap<u64, u64> = BTreeMap::new();
    b.insert(2, 20);
    assert_eq!(functor_round_trip(b.clone()), b);
}

#[test]
fn test_universal_monad_round_trips() {
    assert_eq!(monad_round_trip(Some(7u64)), Some(7));
    assert_eq!(monad_round_trip(vec![7u64, 8]), vec![7, 8]);
    assert_eq!(monad_round_trip(Ok::<u64, &str>(7)), Ok(7));
    let d: VecDeque<u64> = VecDeque::from(vec![7]);
    assert_eq!(monad_round_trip(d.clone()), d);
    let l = LinkedList::from_vec(vec![7u64]);
    assert_eq!(monad_round_trip(l.clone()), l);
}
