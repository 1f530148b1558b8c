use fmap::{Monad, MonadTyCon};
use fmap::combinators::{mjoin, monad_fmap};
use fmap::list::LinkedList;
use std::collections::VecDeque;

fn foo<T, TC>(functor: T) -> T
where
    TC: MonadTyCon<u8, Outer = T> + MonadTyCon<u16>,
    T: Monad<u8, u8, TyCon = TC> + Monad<u8, u16, TyCon = TC>,
    <TC as MonadTyCon<u16>>::Outer: Monad<u16, u8, TyCon = TC>,
{
    let doubled = <T as Monad<u8, u8>>::fmap(functor, |x: u8| (x * 2) as u8);
    let widened = <T as Monad<u8, u16>>::fmap(doubled, |x: u8| x as u16);
    <<TC as MonadTyCon<u16>>::Outer as Monad<u16, u8>>::fmap(widened, |x: u16| x as u8)
}

#[test]
fn test_vec_fmap() {
    assert_eq!(foo(vec![4u8, 7, 9]), vec![8, 14, 18]);
}

#[test]
fn test_option_fmap_maps_held_value() {
    assert_eq!(
        <Option<u64> as Monad<u64, u64>>::fmap(Some(5), |x: u64| x + 1),
        Some(6)
    );
}

#[test]
fn test_option_fmap_absent_skips_transform() {
    let r = <Option<u64> as Monad<u64, u64>>::fmap(None, |_x: u64| -> u64 { panic!() });
    assert_eq!(r, None);
}

#[test]
fn test_option_bind_none_short_circuit() {
    let r = <Option<u64> as Monad<u64, u64>>::bind(None, |_x: u64| -> Option<u64> { panic!() });
    assert_eq!(r, None);
}

#[test]
fn test_option_bind_present() {
    let r = <Option<u64> as Monad<u64, u64>>::bind(Some(4), |x: u64| Some(x * 3));
    assert_eq!(r, Some(12));
    let r = <Option<u64> as Monad<u64, u64>>::bind(Some(4), |_x: u64| None);
    assert_eq!(r, None);
}

#[test]
fn test_result_bind_error_short_circuit() {
    let r = <Result<u64, &str> as Monad<u64, u64>>::bind(Err("boom"), |_x: u64| -> Result<
        u64,
        &str,
    > { panic!() });
    assert_eq!(r, Err("boom"));
}

#[test]
fn test_result_fmap_and_bind() {
    assert_eq!(
        <Result<u64, &str> as Monad<u64, u64>>::fmap(Ok(10), |x: u64| x - 1),
        Ok::<u64, &str>(9)
    );
    assert_eq!(
        <Result<u64, &str> as Monad<u64, u64>>::fmap(Err("e"), |x: u64| x - 1),
        Err::<u64, &str>("e")
    );
    assert_eq!(
        <Result<u64, &str> as Monad<u64, u64>>::bind(Ok(10), |_x: u64| Err("late")),
        Err::<u64, &str>("late")
    );
}

#[test]
fn test_sequence_flatten_order() {
    let r = <Vec<u64> as Monad<u64, u64>>::bind(vec![5, 6, 7], |x: u64| vec![2 * x, 10 * x]);
    assert_eq!(r, vec![10, 50, 12, 60, 14, 70]);
}

#[test]
fn test_nested_flatten() {
    let nested: Vec<Vec<u64>> = vec![vec![1, 3], vec![2, 9, 9]];
    let flat: Vec<u64> = mjoin(nested);
    assert_eq!(flat, vec![1, 3, 2, 9, 9]);
}

#[test]
fn test_bind_empty_inners() {
    let r = <Vec<u64> as Monad<u64, u64>>::bind(vec![1, 2, 3], |_x: u64| Vec::new());
    assert_eq!(r, Vec::<u64>::new());
}

#[test]
fn test_fmap_empty_sequence() {
    let r = <Vec<u64> as Monad<u64, u64>>::fmap(Vec::new(), |_x: u64| -> u64 { panic!() });
    assert_eq!(r, Vec::<u64>::new());
}

#[test]
fn test_pure_shapes() {
    assert_eq!(<Option<u64> as Monad<u64, u64>>::pure(7), Some(7));
    assert_eq!(<Result<u64, &str> as Monad<u64, u64>>::pure(7), Ok::<u64, &str>(7));
    assert_eq!(<Vec<u64> as Monad<u64, u64>>::pure(7), vec![7]);
    assert_eq!(
        <VecDeque<u64> as Monad<u64, u64>>::pure(7),
        VecDeque::from(vec![7])
    );
    let l = <LinkedList<u64> as Monad<u64, u64>>::pure(7);
    assert_eq!(l.into_vec(), vec![7]);
}

#[test]
fn test_vecdeque_fmap_and_bind() {
    let d: VecDeque<u64> = VecDeque::from(vec![1, 2, 3]);
    let r = <VecDeque<u64> as Monad<u64, u64>>::fmap(d, |x: u64| x * 10);
    assert_eq!(r, VecDeque::from(vec![10, 20, 30]));
    let d: VecDeque<u64> = VecDeque::from(vec![1, 2]);
    let r = <VecDeque<u64> as Monad<u64, u64>>::bind(d, |x: u64| VecDeque::from(vec![x, x + 100]));
    assert_eq!(r, VecDeque::from(vec![1, 101, 2, 102]));
}

#[test]
fn test_linkedlist_fmap_and_bind() {
    let l = LinkedList::from_vec(vec![1u64, 2, 3]);
    let r = <LinkedList<u64> as Monad<u64, u64>>::fmap(l, |x: u64| x + 5);
    assert_eq!(r.into_vec(), vec![6, 7, 8]);
    let l = LinkedList::from_vec(vec![1u64, 2]);
    let r = <LinkedList<u64> as Monad<u64, u64>>::bind(l, |x: u64| {
        LinkedList::from_vec(vec![x, 9])
    });
    assert_eq!(r.into_vec(), vec![1, 9, 2, 9]);
}

#[test]
fn test_map_identity_scenarios() {
    assert_eq!(<Vec<u64> as Monad<u64, u64>>::fmap(vec![3, 1, 4], |x: u64| x), vec![3, 1, 4]);
    assert_eq!(<Option<u64> as Monad<u64, u64>>::fmap(Some(9), |x: u64| x), Some(9));
    assert_eq!(
        <Result<u64, &str> as Monad<u64, u64>>::fmap(Err("e"), |x: u64| x),
        Err::<u64, &str>("e")
    );
}

#[test]
fn test_map_composition_scenario() {
    let twice = <Vec<u64> as Monad<u64, u64>>::fmap(
        <Vec<u64> as Monad<u64, u64>>::fmap(vec![1, 2, 3], |x: u64| x + 1),
        |x: u64| x * 2,
    );
    let composed = <Vec<u64> as Monad<u64, u64>>::fmap(vec![1, 2, 3], |x: u64| (x + 1) * 2);
    assert_eq!(twice, composed);
}

#[test]
fn test_wrap_then_bind_scenario() {
    let step = |x: u64| vec![x, x + 1];
    let r = <Vec<u64> as Monad<u64, u64>>::bind(<Vec<u64> as Monad<u64, u64>>::pure(5), step);
    assert_eq!(r, step(5));
    let ostep = |x: u64| Some(x * 2);
    let r = <Option<u64> as Monad<u64, u64>>::bind(<Option<u64> as Monad<u64, u64>>::pure(5), ostep);
    assert_eq!(r, ostep(5));
}

#[test]
fn test_bind_then_wrap_scenario() {
    let v = vec![4u64, 7, 9];
    let r = <Vec<u64> as Monad<u64, u64>>::bind(v.clone(), |x: u64| {
        <Vec<u64> as Monad<u64, u64>>::pure(x)
    });
    assert_eq!(r, v);
    let r = <Option<u64> as Monad<u64, u64>>::bind(Some(3), |x: u64| {
        <Option<u64> as Monad<u64, u64>>::pure(x)
    });
    assert_eq!(r, Some(3));
}

fn bump(x: u64) -> u64 {
    x + 1
}

#[test]
fn test_monad_fmap_combinator() {
    assert_eq!(monad_fmap(vec![1u64, 2, 3], bump), vec![2, 3, 4]);
    assert_eq!(monad_fmap(Some(41u64), bump), Some(42));
    assert_eq!(monad_fmap(None::<u64>, bump), None);
}
