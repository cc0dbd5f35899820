use rvec::value::{RVecData, ElementKind, Operator, OpError};

fn fv(xs: &[f64]) -> RVecData {
    RVecData::Float(xs.iter().map(|x| x.to_bits()).collect())
}

fn iv(xs: &[i64]) -> RVecData {
    RVecData::Int(xs.to_vec())
}

fn bv(xs: &[bool]) -> RVecData {
    RVecData::Bool(xs.to_vec())
}

fn sv(xs: &[&str]) -> RVecData {
    RVecData::Str(xs.iter().map(|x| x.to_string()).collect())
}

fn ints(v: &RVecData) -> Vec<i64> {
    match v {
        RVecData::Int(b) => b.clone(),
        _ => panic!("expected an integer vector"),
    }
}

fn floats(v: &RVecData) -> Vec<f64> {
    match v {
        RVecData::Float(b) => b.iter().map(|x| f64::from_bits(*x)).collect(),
        _ => panic!("expected a float vector"),
    }
}

fn bools(v: &RVecData) -> Vec<bool> {
    match v {
        RVecData::Bool(b) => b.clone(),
        _ => panic!("expected a boolean vector"),
    }
}

fn strs(v: &RVecData) -> Vec<String> {
    match v {
        RVecData::Str(b) => b.clone(),
        _ => panic!("expected a string vector"),
    }
}

#[test]
fn basic_introspection() {
    let v = iv(&[1, 2, 3]);
    assert_eq!(v.len(), 3);
    assert!(!v.is_scalar());
    assert_eq!(v.element_type(), ElementKind::Integer);
    assert!(iv(&[7]).is_scalar());
    assert_eq!(sv(&["a"]).element_type(), ElementKind::Str);
    assert_eq!(bv(&[true]).element_type(), ElementKind::Boolean);
    assert_eq!(fv(&[1.5]).element_type(), ElementKind::Float);
}

#[test]
fn int_arithmetic_zip() {
    assert_eq!(ints(&iv(&[1, 2]).add(&iv(&[3, 4])).unwrap()), vec![4, 6]);
    assert_eq!(ints(&iv(&[5, 7]).subtract(&iv(&[1, 9])).unwrap()), vec![4, -2]);
    assert_eq!(ints(&iv(&[3, -4]).multiply(&iv(&[5, 6])).unwrap()), vec![15, -24]);
}

#[test]
fn int_arithmetic_wraps() {
    let r = iv(&[i64::MAX]).add(&iv(&[1])).unwrap();
    assert_eq!(ints(&r), vec![i64::MIN]);
    let r = iv(&[i64::MIN]).negate().unwrap();
    assert_eq!(ints(&r), vec![i64::MIN]);
}

#[test]
fn broadcast_identity_elementwise() {
    // op(a, scalar) equals mapping op over each element of a
    let a = [1.0f64, 2.0, 3.5];
    let s = 4.25f64;
    for op in ["add", "sub", "mul", "div"] {
        let whole = match op {
            "add" => fv(&a).add(&fv(&[s])).unwrap(),
            "sub" => fv(&a).subtract(&fv(&[s])).unwrap(),
            "mul" => fv(&a).multiply(&fv(&[s])).unwrap(),
            _ => fv(&a).divide(&fv(&[s])).unwrap(),
        };
        let each: Vec<f64> = a
            .iter()
            .map(|x| {
                let one = match op {
                    "add" => fv(&[*x]).add(&fv(&[s])).unwrap(),
                    "sub" => fv(&[*x]).subtract(&fv(&[s])).unwrap(),
                    "mul" => fv(&[*x]).multiply(&fv(&[s])).unwrap(),
                    _ => fv(&[*x]).divide(&fv(&[s])).unwrap(),
                };
                floats(&one)[0]
            })
            .collect();
        assert_eq!(floats(&whole), each);
    }
}

#[test]
fn promotion_commutes() {
    // numeric cases, floats included
    let r1 = floats(&iv(&[2, 3]).add(&fv(&[0.5, 1.5])).unwrap());
    let r2 = floats(&fv(&[0.5, 1.5]).add(&iv(&[2, 3])).unwrap());
    assert_eq!(r1, r2);
    let m1 = floats(&fv(&[1.5]).multiply(&fv(&[2.5])).unwrap());
    let m2 = floats(&fv(&[2.5]).multiply(&fv(&[1.5])).unwrap());
    assert_eq!(m1, m2);
    // string repetition holds in both orders
    let s1 = strs(&sv(&["ab"]).multiply(&iv(&[3])).unwrap());
    let s2 = strs(&iv(&[3]).multiply(&sv(&["ab"])).unwrap());
    assert_eq!(s1, s2);
    assert_eq!(s1, vec!["ababab".to_string()]);
}

#[test]
fn division_always_floats() {
    let r = iv(&[4, 2]).divide(&iv(&[2, 1])).unwrap();
    assert_eq!(r.element_type(), ElementKind::Float);
    assert_eq!(floats(&r), vec![2.0, 2.0]);
}

#[test]
fn bool_arithmetic_vs_comparison() {
    let r = bv(&[true]).add(&bv(&[true])).unwrap();
    assert_eq!(r.element_type(), ElementKind::Integer);
    assert_eq!(ints(&r), vec![2]);
    let e = bv(&[true]).eq_ew(&iv(&[1]));
    assert_eq!(
        e.unwrap_err(),
        OpError::TypeError {
            operator: Operator::Equals,
            left_kind: ElementKind::Boolean,
            right_kind: ElementKind::Integer,
        }
    );
}

#[test]
fn bool_numeric_promotion() {
    assert_eq!(ints(&bv(&[true, false]).add(&iv(&[10, 20])).unwrap()), vec![11, 20]);
    assert_eq!(floats(&bv(&[true]).add(&fv(&[0.5])).unwrap()), vec![1.5]);
    assert_eq!(ints(&bv(&[true, true]).subtract(&bv(&[false, true])).unwrap()), vec![1, 0]);
    assert_eq!(ints(&bv(&[true, false]).multiply(&bv(&[true, true])).unwrap()), vec![1, 0]);
    assert_eq!(floats(&bv(&[true]).divide(&bv(&[true])).unwrap()), vec![1.0]);
}

#[test]
fn string_repetition_edges() {
    assert_eq!(strs(&sv(&["ab"]).multiply(&iv(&[3])).unwrap()), vec!["ababab"]);
    assert_eq!(strs(&sv(&["ab"]).multiply(&iv(&[0])).unwrap()), vec![""]);
    assert_eq!(strs(&sv(&["ab"]).multiply(&iv(&[-1])).unwrap()), vec![""]);
    assert_eq!(strs(&sv(&["ab"]).multiply(&bv(&[true, false])).unwrap()), vec!["ab", ""]);
}

#[test]
fn string_concat_and_errors() {
    assert_eq!(strs(&sv(&["a", "b"]).add(&sv(&["x", "y"])).unwrap()), vec!["ax", "by"]);
    assert_eq!(strs(&sv(&["a", "b"]).add(&sv(&["-"])).unwrap()), vec!["a-", "b-"]);
    assert!(sv(&["a"]).add(&iv(&[1])).is_err());
    assert!(sv(&["a"]).subtract(&sv(&["b"])).is_err());
    assert!(sv(&["a"]).multiply(&sv(&["b"])).is_err());
    assert!(sv(&["a"]).divide(&sv(&["b"])).is_err());
    assert!(sv(&["a"]).multiply(&fv(&[2.0])).is_err());
}

#[test]
fn length_mismatch_error() {
    let r = iv(&[1, 2, 3]).add(&iv(&[1, 2]));
    assert_eq!(r.unwrap_err(), OpError::LengthMismatch { left_len: 3, right_len: 2 });
}

#[test]
fn negate_kinds() {
    assert_eq!(ints(&iv(&[1, -2]).negate().unwrap()), vec![-1, 2]);
    assert_eq!(ints(&bv(&[true, false]).negate().unwrap()), vec![-1, 0]);
    assert_eq!(floats(&fv(&[1.5, -2.5]).negate().unwrap()), vec![-1.5, 2.5]);
    assert!(sv(&["a"]).negate().is_err());
}

#[test]
fn comparisons_numeric() {
    assert_eq!(bools(&iv(&[1, 2, 3]).lt_ew(&iv(&[2, 2, 2])).unwrap()), vec![true, false, false]);
    assert_eq!(bools(&iv(&[1, 2, 3]).le_ew(&iv(&[2, 2, 2])).unwrap()), vec![true, true, false]);
    assert_eq!(bools(&iv(&[1, 2, 3]).gt_ew(&iv(&[2])).unwrap()), vec![false, false, true]);
    assert_eq!(bools(&iv(&[1, 2, 3]).ge_ew(&iv(&[2])).unwrap()), vec![false, true, true]);
    assert_eq!(bools(&iv(&[1, 2]).eq_ew(&fv(&[1.0, 2.5])).unwrap()), vec![true, false]);
    assert_eq!(bools(&fv(&[0.5]).ne_ew(&fv(&[0.5, 0.25])).unwrap()), vec![false, true]);
}

#[test]
fn comparisons_nan() {
    let nan = f64::NAN;
    assert_eq!(bools(&fv(&[nan]).eq_ew(&fv(&[nan])).unwrap()), vec![false]);
    assert_eq!(bools(&fv(&[nan]).ne_ew(&fv(&[nan])).unwrap()), vec![true]);
    assert_eq!(bools(&fv(&[nan]).lt_ew(&fv(&[1.0])).unwrap()), vec![false]);
    assert_eq!(bools(&fv(&[nan]).ge_ew(&fv(&[1.0])).unwrap()), vec![false]);
    // zeros of either sign compare equal
    assert_eq!(bools(&fv(&[0.0]).eq_ew(&fv(&[-0.0])).unwrap()), vec![true]);
}

#[test]
fn comparisons_strings_and_bools() {
    assert_eq!(bools(&sv(&["abc", "b"]).lt_ew(&sv(&["abd", "b"])).unwrap()), vec![true, false]);
    assert_eq!(bools(&sv(&["ab"]).lt_ew(&sv(&["abc"])).unwrap()), vec![true]);
    assert_eq!(bools(&sv(&["a", "b"]).eq_ew(&sv(&["a", "c"])).unwrap()), vec![true, false]);
    assert_eq!(bools(&bv(&[false, true]).lt_ew(&bv(&[true, true])).unwrap()), vec![true, false]);
    assert!(sv(&["1"]).eq_ew(&iv(&[1])).is_err());
    assert!(iv(&[1]).eq_ew(&sv(&["1"])).is_err());
    assert!(bv(&[true]).eq_ew(&fv(&[1.0])).is_err());
}

#[test]
fn comparison_length_mismatch() {
    let r = iv(&[1, 2, 3]).eq_ew(&iv(&[1, 2]));
    assert_eq!(r.unwrap_err(), OpError::LengthMismatch { left_len: 3, right_len: 2 });
}

#[test]
fn logic_operators() {
    assert_eq!(
        bools(&bv(&[true, true, false]).and_ew(&bv(&[true, false, false])).unwrap()),
        vec![true, false, false]
    );
    assert_eq!(
        bools(&bv(&[true, false]).or_ew(&bv(&[false, false])).unwrap()),
        vec![true, false]
    );
    assert_eq!(
        bools(&bv(&[true, false]).xor_ew(&bv(&[true, true])).unwrap()),
        vec![false, true]
    );
    assert_eq!(bools(&bv(&[true, false]).not_ew().unwrap()), vec![false, true]);
    // broadcasting applies to the logical family too
    assert_eq!(
        bools(&bv(&[true, false]).and_ew(&bv(&[true])).unwrap()),
        vec![true, false]
    );
    assert!(iv(&[1]).and_ew(&bv(&[true])).is_err());
    assert!(bv(&[true]).or_ew(&iv(&[1])).is_err());
    assert!(iv(&[0]).not_ew().is_err());
    let r = bv(&[true, false]).xor_ew(&bv(&[true, false, true]));
    assert_eq!(r.unwrap_err(), OpError::LengthMismatch { left_len: 2, right_len: 3 });
}
