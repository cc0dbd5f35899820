use rvec::value::{RVecData, OpError};
use rvec::select::SelectionIndex;

fn iv(xs: &[i64]) -> RVecData {
    RVecData::Int(xs.to_vec())
}

fn sv(xs: &[&str]) -> RVecData {
    RVecData::Str(xs.iter().map(|x| x.to_string()).collect())
}

fn ints(v: &RVecData) -> Vec<i64> {
    match v {
        RVecData::Int(b) => b.clone(),
        _ => panic!("expected an integer vector"),
    }
}

fn strs(v: &RVecData) -> Vec<String> {
    match v {
        RVecData::Str(b) => b.clone(),
        _ => panic!("expected a string vector"),
    }
}

#[test]
fn single_index_and_wraparound() {
    let v = iv(&[10, 20, 30]);
    let a = v.select(&SelectionIndex::Single(-1)).unwrap();
    let b = v.select(&SelectionIndex::Single(2)).unwrap();
    assert_eq!(ints(&a), vec![30]);
    assert_eq!(ints(&b), vec![30]);
    assert!(a.is_scalar());
    let c = v.select(&SelectionIndex::Single(-3)).unwrap();
    assert_eq!(ints(&c), vec![10]);
    assert_eq!(
        v.select(&SelectionIndex::Single(3)).unwrap_err(),
        OpError::IndexError { index: 3, length: 3 }
    );
    assert_eq!(
        v.select(&SelectionIndex::Single(-4)).unwrap_err(),
        OpError::IndexError { index: -4, length: 3 }
    );
}

#[test]
fn fancy_indexing() {
    let v = sv(&["a", "b", "c"]);
    let r = v.select(&SelectionIndex::Positions(vec![2, 0, 2, -1])).unwrap();
    assert_eq!(strs(&r), vec!["c", "a", "c", "c"]);
    let bad = v.select(&SelectionIndex::Positions(vec![0, 5, 1]));
    assert_eq!(bad.unwrap_err(), OpError::IndexError { index: 5, length: 3 });
}

#[test]
fn boolean_mask_selection() {
    let v = iv(&[10, 20, 30]);
    let r = v.select(&SelectionIndex::Mask(vec![true, false, true])).unwrap();
    assert_eq!(ints(&r), vec![10, 30]);
    let bad = v.select(&SelectionIndex::Mask(vec![true, false]));
    assert_eq!(bad.unwrap_err(), OpError::LengthMismatch { left_len: 3, right_len: 2 });
}

#[test]
fn getindex_by_vector() {
    let v = iv(&[10, 20, 30]);
    let r = v.getindex(&iv(&[1, 1, -1])).unwrap();
    assert_eq!(ints(&r), vec![20, 20, 30]);
    let m = v.getindex(&RVecData::Bool(vec![false, true, true])).unwrap();
    assert_eq!(ints(&m), vec![20, 30]);
    assert!(v.getindex(&sv(&["0"])).is_err());
}

#[test]
fn slice_walks() {
    let v = iv(&[10, 20, 30, 40, 50]);
    let all = v
        .select(&SelectionIndex::Slice { start: None, stop: None, step: None })
        .unwrap();
    assert_eq!(ints(&all), vec![10, 20, 30, 40, 50]);
    let head = v
        .select(&SelectionIndex::Slice { start: Some(0), stop: Some(3), step: Some(1) })
        .unwrap();
    assert_eq!(ints(&head), vec![10, 20, 30]);
    let strided = v
        .select(&SelectionIndex::Slice { start: Some(1), stop: None, step: Some(2) })
        .unwrap();
    assert_eq!(ints(&strided), vec![20, 40]);
    let reversed = v
        .select(&SelectionIndex::Slice { start: None, stop: None, step: Some(-1) })
        .unwrap();
    assert_eq!(ints(&reversed), vec![50, 40, 30, 20, 10]);
    let neg = v
        .select(&SelectionIndex::Slice { start: Some(-2), stop: None, step: Some(-2) })
        .unwrap();
    assert_eq!(ints(&neg), vec![40, 20]);
    let empty = v
        .select(&SelectionIndex::Slice { start: Some(3), stop: Some(3), step: Some(1) })
        .unwrap();
    assert_eq!(ints(&empty), Vec::<i64>::new());
}

#[test]
fn slice_errors() {
    let v = iv(&[10, 20, 30]);
    assert_eq!(
        v.select(&SelectionIndex::Slice { start: None, stop: None, step: Some(0) }).unwrap_err(),
        OpError::IndexError { index: 0, length: 3 }
    );
    assert_eq!(
        v.select(&SelectionIndex::Slice { start: Some(7), stop: None, step: Some(1) }).unwrap_err(),
        OpError::IndexError { index: 7, length: 3 }
    );
    assert_eq!(
        v.select(&SelectionIndex::Slice { start: None, stop: Some(-9), step: Some(1) }).unwrap_err(),
        OpError::IndexError { index: -9, length: 3 }
    );
}

#[test]
fn empty_vector_selection() {
    let v = iv(&[]);
    let all = v
        .select(&SelectionIndex::Slice { start: None, stop: None, step: Some(-1) })
        .unwrap();
    assert_eq!(ints(&all), Vec::<i64>::new());
    assert_eq!(
        v.select(&SelectionIndex::Single(0)).unwrap_err(),
        OpError::IndexError { index: 0, length: 0 }
    );
}
