use rvec::value::{RVecData, ElementKind};

fn fv(xs: &[f64]) -> RVecData {
    RVecData::Float(xs.iter().map(|x| x.to_bits()).collect())
}

fn iv(xs: &[i64]) -> RVecData {
    RVecData::Int(xs.to_vec())
}

fn bv(xs: &[bool]) -> RVecData {
    RVecData::Bool(xs.to_vec())
}

fn sv(xs: &[&str]) -> RVecData {
    RVecData::Str(xs.iter().map(|x| x.to_string()).collect())
}

fn strs(v: &RVecData) -> Vec<String> {
    match v {
        RVecData::Str(b) => b.clone(),
        _ => panic!("expected a string vector"),
    }
}

fn ints(v: &RVecData) -> Vec<i64> {
    match v {
        RVecData::Int(b) => b.clone(),
        _ => panic!("expected an integer vector"),
    }
}

fn bools(v: &RVecData) -> Vec<bool> {
    match v {
        RVecData::Bool(b) => b.clone(),
        _ => panic!("expected a boolean vector"),
    }
}

fn float_bits(v: &RVecData) -> Vec<u64> {
    match v {
        RVecData::Float(b) => b.clone(),
        _ => panic!("expected a float vector"),
    }
}

#[test]
fn int_stringification_exact() {
    let v = iv(&[0, -5, 123, i64::MIN, i64::MAX]);
    assert_eq!(
        strs(&v.to_string_vector()),
        vec!["0", "-5", "123", "-9223372036854775808", "9223372036854775807"]
    );
}

#[test]
fn bool_stringification_exact() {
    assert_eq!(strs(&bv(&[true, false]).to_string_vector()), vec!["true", "false"]);
}

#[test]
fn string_stringification_is_identity() {
    assert_eq!(strs(&sv(&["a", "b"]).to_string_vector()), vec!["a", "b"]);
}

#[test]
fn int_round_trip() {
    let v = iv(&[0, 1, -1, 42, i64::MIN, i64::MAX]);
    let parsed = v.to_string_vector().parse_numbers(ElementKind::Integer).unwrap();
    assert_eq!(ints(&parsed), ints(&v));
}

#[test]
fn bool_round_trip() {
    let v = bv(&[true, false, true]);
    let parsed = v.to_string_vector().parse_numbers(ElementKind::Boolean).unwrap();
    assert_eq!(bools(&parsed), bools(&v));
}

#[test]
fn float_round_trip() {
    let v = fv(&[0.0, 1.5, -2.25, 0.1, 1.0e300, -1.0e-300, f64::INFINITY, f64::NEG_INFINITY]);
    let parsed = v.to_string_vector().parse_numbers(ElementKind::Float).unwrap();
    assert_eq!(float_bits(&parsed), float_bits(&v));
}

#[test]
fn parser_accepts_canonical_only() {
    assert!(sv(&["007"]).parse_numbers(ElementKind::Integer).is_none());
    assert!(sv(&[""]).parse_numbers(ElementKind::Integer).is_none());
    assert!(sv(&["--1"]).parse_numbers(ElementKind::Integer).is_none());
    assert!(sv(&["-0"]).parse_numbers(ElementKind::Integer).is_none());
    assert!(sv(&["1a"]).parse_numbers(ElementKind::Integer).is_none());
    assert!(sv(&["9223372036854775808"]).parse_numbers(ElementKind::Integer).is_none());
    assert!(sv(&["-9223372036854775809"]).parse_numbers(ElementKind::Integer).is_none());
    assert_eq!(
        ints(&sv(&["-9223372036854775808"]).parse_numbers(ElementKind::Integer).unwrap()),
        vec![i64::MIN]
    );
    assert!(sv(&["True"]).parse_numbers(ElementKind::Boolean).is_none());
    assert!(sv(&["zzz"]).parse_numbers(ElementKind::Float).is_none());
    assert!(iv(&[1]).parse_numbers(ElementKind::Integer).is_none());
}

#[test]
fn to_float_vector_casts() {
    let r = iv(&[1, -2]).to_float_vector().unwrap();
    assert_eq!(r.element_type(), ElementKind::Float);
    assert_eq!(float_bits(&r), vec![(1.0f64).to_bits(), (-2.0f64).to_bits()]);
    let same = fv(&[1.5]).to_float_vector().unwrap();
    assert_eq!(float_bits(&same), vec![(1.5f64).to_bits()]);
    assert!(bv(&[true]).to_float_vector().is_err());
    assert!(sv(&["1.5"]).to_float_vector().is_err());
}

#[test]
fn float_arithmetic_matches_hardware() {
    // the software float layer must agree with the machine bit for bit
    let a = 0.1f64;
    let b = 0.2f64;
    let sum = fv(&[a]).add(&fv(&[b])).unwrap();
    assert_eq!(float_bits(&sum), vec![(a + b).to_bits()]);
    let prod = fv(&[a]).multiply(&fv(&[b])).unwrap();
    assert_eq!(float_bits(&prod), vec![(a * b).to_bits()]);
    let quot = fv(&[a]).divide(&fv(&[b])).unwrap();
    assert_eq!(float_bits(&quot), vec![(a / b).to_bits()]);
    let diff = fv(&[a]).subtract(&fv(&[b])).unwrap();
    assert_eq!(float_bits(&diff), vec![(a - b).to_bits()]);
    // division by zero gives the IEEE infinities, not an error
    let inf = fv(&[1.0]).divide(&fv(&[0.0])).unwrap();
    assert_eq!(float_bits(&inf), vec![f64::INFINITY.to_bits()]);
    // an integer operand converts exactly as the machine converts
    let mixed = iv(&[3]).add(&fv(&[0.5])).unwrap();
    assert_eq!(float_bits(&mixed), vec![(3.0f64 + 0.5).to_bits()]);
}

#[test]
fn to_integer_vector_truncates() {
    let v = fv(&[2.9, -2.9, 0.0, 1.0e300, -1.0e300, f64::NAN]);
    let r = v.to_integer_vector().unwrap();
    assert_eq!(
        ints(&r),
        vec![
            2.9f64 as i64,
            -2.9f64 as i64,
            0,
            1.0e300f64 as i64,
            -1.0e300f64 as i64,
            f64::NAN as i64,
        ]
    );
    assert_eq!(ints(&iv(&[5, -7]).to_integer_vector().unwrap()), vec![5, -7]);
    assert_eq!(ints(&bv(&[true, false]).to_integer_vector().unwrap()), vec![1, 0]);
    assert!(sv(&["1"]).to_integer_vector().is_err());
}
