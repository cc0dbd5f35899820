use rvec::value::{RVecData, ElementKind, Operator, OpError};

fn sv(xs: &[&str]) -> RVecData {
    RVecData::Str(xs.iter().map(|x| x.to_string()).collect())
}

fn iv(xs: &[i64]) -> RVecData {
    RVecData::Int(xs.to_vec())
}

fn strs(v: &RVecData) -> Vec<String> {
    match v {
        RVecData::Str(b) => b.clone(),
        _ => panic!("expected a string vector"),
    }
}

fn ints(v: &RVecData) -> Vec<i64> {
    match v {
        RVecData::Int(b) => b.clone(),
        _ => panic!("expected an integer vector"),
    }
}

fn bools(v: &RVecData) -> Vec<bool> {
    match v {
        RVecData::Bool(b) => b.clone(),
        _ => panic!("expected a boolean vector"),
    }
}

#[test]
fn transform_type_guard() {
    let e = OpError::TypeError {
        operator: Operator::Transform,
        left_kind: ElementKind::Integer,
        right_kind: ElementKind::Integer,
    };
    assert_eq!(iv(&[1]).lower().unwrap_err(), e);
    assert!(iv(&[1]).upper().is_err());
    assert!(iv(&[1]).capitalize().is_err());
    assert!(iv(&[1]).strip().is_err());
    assert!(iv(&[1]).count("x").is_err());
    assert!(iv(&[1]).find("x").is_err());
    assert!(iv(&[1]).replace("a", "b").is_err());
    assert!(iv(&[1]).split(",").is_err());
    assert!(iv(&[1]).startswith("a").is_err());
    assert!(iv(&[1]).endswith("a").is_err());
    assert!(iv(&[1]).center(3, '-').is_err());
}

#[test]
fn case_transforms() {
    assert_eq!(strs(&sv(&["AbC", "x"]).lower().unwrap()), vec!["abc", "x"]);
    assert_eq!(strs(&sv(&["AbC", "x"]).upper().unwrap()), vec!["ABC", "X"]);
    assert_eq!(
        strs(&sv(&["hello World", "", "aBC"]).capitalize().unwrap()),
        vec!["Hello world", "", "Abc"]
    );
}

#[test]
fn center_transform() {
    assert_eq!(strs(&sv(&["ab"]).center(5, '-').unwrap()), vec!["-ab--"]);
    assert_eq!(strs(&sv(&["ab"]).center(2, '-').unwrap()), vec!["ab"]);
    assert_eq!(strs(&sv(&["ab"]).center(1, '-').unwrap()), vec!["ab"]);
    assert_eq!(strs(&sv(&[""]).center(3, '*').unwrap()), vec!["***"]);
}

#[test]
fn count_transform() {
    assert_eq!(ints(&sv(&["aaa", "abcab", "x"]).count("a").unwrap()), vec![3, 2, 0]);
    // non-overlapping
    assert_eq!(ints(&sv(&["aaaa"]).count("aa").unwrap()), vec![2]);
    // the empty needle matches at every boundary
    assert_eq!(ints(&sv(&["ab"]).count("").unwrap()), vec![3]);
}

#[test]
fn find_transform() {
    assert_eq!(ints(&sv(&["abcab", "xyz"]).find("ab").unwrap()), vec![0, -1]);
    assert_eq!(ints(&sv(&["abcab"]).find("ca").unwrap()), vec![2]);
    assert_eq!(ints(&sv(&["abc"]).find("").unwrap()), vec![0]);
}

#[test]
fn startswith_endswith() {
    assert_eq!(
        bools(&sv(&["apple", "apricot", "banana"]).startswith("ap").unwrap()),
        vec![true, true, false]
    );
    assert_eq!(
        bools(&sv(&["hat", "cat", "dog"]).endswith("at").unwrap()),
        vec![true, true, false]
    );
    assert_eq!(bools(&sv(&["a"]).startswith("abc").unwrap()), vec![false]);
}

#[test]
fn replace_transform() {
    assert_eq!(strs(&sv(&["aaa"]).replace("a", "b").unwrap()), vec!["bbb"]);
    assert_eq!(strs(&sv(&["aaaa"]).replace("aa", "b").unwrap()), vec!["bb"]);
    assert_eq!(strs(&sv(&["abc"]).replace("d", "x").unwrap()), vec!["abc"]);
    // the empty pattern inserts at every boundary
    assert_eq!(strs(&sv(&["ab"]).replace("", "-").unwrap()), vec!["-a-b-"]);
}

#[test]
fn split_collapses() {
    // split keeps one string per element: the pieces rejoined
    assert_eq!(strs(&sv(&["a,b,c"]).split(",").unwrap()), vec!["abc"]);
    assert_eq!(strs(&sv(&["a--b"]).split("-").unwrap()), vec!["ab"]);
    assert_eq!(strs(&sv(&["ab"]).split("").unwrap()), vec!["ab"]);
}

#[test]
fn strip_family() {
    assert_eq!(strs(&sv(&["  a b  ", "x"]).strip().unwrap()), vec!["a b", "x"]);
    assert_eq!(strs(&sv(&["  ab  "]).lstrip().unwrap()), vec!["ab  "]);
    assert_eq!(strs(&sv(&["  ab  "]).rstrip().unwrap()), vec!["  ab"]);
    assert_eq!(strs(&sv(&["   "]).strip().unwrap()), vec![""]);
}

#[test]
fn concat_helpers() {
    let a = vec!["x".to_string(), "y".to_string()];
    let b = vec!["z".to_string()];
    assert_eq!(
        rvec::value::concat_str_str(&a, &b),
        vec!["x".to_string(), "y".to_string(), "z".to_string()]
    );
    let c = vec![true, false];
    let d = vec![false];
    assert_eq!(rvec::value::concat_bool_bool(&c, &d), vec![true, false, false]);
}
