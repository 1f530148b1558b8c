use fmap::applicative::vec_apply;
use fmap::zipvec::ZipVec;

fn scaler(c: u64) -> impl Fn(u64) -> u64 {
    move |x| x * c
}

#[test]
fn test_apply_cross_product() {
    let funcs = vec![scaler(1), scaler(100)];
    let vals = vec![4u64, 7, 9];
    let r = vec_apply(funcs, vals);
    assert_eq!(r, vec![4, 7, 9, 400, 700, 900]);
}

#[test]
fn test_apply_empty_values() {
    let funcs = vec![scaler(2)];
    let r = vec_apply(funcs, Vec::<u64>::new());
    assert_eq!(r, Vec::<u64>::new());
}

#[test]
fn test_apply_no_functions() {
    let funcs: Vec<fn(u64) -> u64> = Vec::new();
    let r = vec_apply(funcs, vec![1u64, 2]);
    assert_eq!(r, Vec::<u64>::new());
}

fn adder(c: u64) -> impl Fn(u64) -> u64 {
    move |x| x + c
}

#[test]
fn test_zipvec_apply_zips_positions() {
    let vals = ZipVec(vec![1u64, 2, 3]);
    let funcs = ZipVec(vec![adder(10), adder(20), adder(30)]);
    let r = vals.apply(funcs);
    assert_eq!(r, ZipVec(vec![11, 22, 33]));
}

#[test]
fn test_zipvec_apply_stops_at_shorter() {
    let vals = ZipVec(vec![1u64, 2, 3]);
    let funcs = ZipVec(vec![adder(10)]);
    let r = vals.apply(funcs);
    assert_eq!(r, ZipVec(vec![11]));
}

#[test]
fn test_zipvec_fmap() {
    let r = ZipVec(vec![1u64, 2]).fmap(|x: u64| x * 3);
    assert_eq!(r, ZipVec(vec![3, 6]));
}

#[test]
fn test_zipvec_fmap_mut_matches_rebuild() {
    let mut z = ZipVec(vec![1u64, 2, 3]);
    z.fmap_mut(|x: u64| x + 1);
    assert_eq!(z, ZipVec(vec![2, 3, 4]));
    let r = ZipVec(vec![1u64, 2, 3]).fmap_fn_mutref(|x: u64| x + 1);
    assert_eq!(r, z);
    let rebuilt = ZipVec(vec![1u64, 2, 3]).fmap(|x: u64| x + 1);
    assert_eq!(rebuilt, z);
}

#[test]
fn test_zipvec_pure() {
    assert_eq!(ZipVec::pure(5u64), ZipVec(vec![5]));
}
