use ckboots::samples::{EnumTest1, EnumTest2, EnumTest3};
use ckboots::{consume_and_decode, OnChain};

#[test]
fn lib_builtin_onchain_test() {
    let bytes = 0u32._to_bytes();
    let (actual, left) = consume_and_decode::<u32>(&bytes).unwrap();
    assert_eq!(left.len(), 0);
    assert_eq!(actual, 0);
}

#[test]
fn lib_vec_onchain_bytes() {
    let v: Vec<u32> = vec![0, 2, 4, 5, 6];
    let bytes = v._to_bytes();
    let actual = consume_and_decode::<Vec<u32>>(&bytes).unwrap().0;
    assert_eq!(v, actual);
    let v: Vec<Vec<u32>> = vec![vec![0, 2, 4], vec![]];
    let bytes = v._to_bytes();
    let actual = consume_and_decode::<Vec<Vec<u32>>>(&bytes).unwrap().0;
    assert_eq!(actual, v);
}

#[test]
fn enum_default() {
    assert!(matches!(EnumTest1::_default(), EnumTest1::BB));

    match EnumTest2::_default() {
        EnumTest2::BB(t) => assert_eq!(t, 4),
        _ => panic!(""),
    }

    match EnumTest3::_default() {
        EnumTest3::BB(t) => assert_eq!(t, 0),
        _ => panic!(""),
    }
}
