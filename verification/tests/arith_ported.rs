use rvec::value::RVecData;

fn fv(xs: &[f64]) -> RVecData {
    RVecData::Float(xs.iter().map(|x| x.to_bits()).collect())
}

fn floats(v: &RVecData) -> Vec<f64> {
    match v {
        RVecData::Float(b) => b.iter().map(|x| f64::from_bits(*x)).collect(),
        _ => panic!("expected a float vector"),
    }
}

#[test]
fn test_add() {
    let a = fv(&[1.0, 2.0, 3.0]);
    let b = fv(&[4.0, 5.0, 6.0]);
    let c = a.add(&b).unwrap();
    assert_eq!(floats(&c), vec![5.0, 7.0, 9.0]);

    let d = fv(&[1.0, 2.0, 3.0]);
    let e = fv(&[4.0, 5.0]);
    let result = d.add(&e);
    assert!(result.is_err());
}

#[test]
fn test_subtract() {
    let a = fv(&[1.0, 2.0, 3.0]);
    let b = fv(&[4.0, 5.0, 6.0]);
    let c = a.subtract(&b).unwrap();
    assert_eq!(floats(&c), vec![-3.0, -3.0, -3.0]);

    let d = fv(&[1.0, 2.0, 3.0]);
    let e = fv(&[4.0, 5.0]);
    let result = d.subtract(&e);
    assert!(result.is_err());
}

#[test]
fn test_multiply() {
    let a = fv(&[1.0, 2.0, 3.0]);
    let b = fv(&[4.0, 5.0, 6.0]);
    let c = a.multiply(&b).unwrap();
    assert_eq!(floats(&c), vec![4.0, 10.0, 18.0]);

    let d = fv(&[1.0, 2.0, 3.0]);
    let e = fv(&[4.0, 5.0]);
    let result = d.multiply(&e);
    assert!(result.is_err());
}

#[test]
fn test_divide() {
    let a = fv(&[1.0, 2.0, 3.0]);
    let b = fv(&[4.0, 5.0, 6.0]);
    let c = a.divide(&b).unwrap();
    assert_eq!(floats(&c), vec![0.25, 0.4, 0.5]);

    let d = fv(&[1.0, 2.0, 3.0]);
    let e = fv(&[4.0, 5.0]);
    let result = d.divide(&e);
    assert!(result.is_err());
}

#[test]
fn test_scalar_add() {
    let a = fv(&[1.0, 2.0, 3.0]);
    let b = a.add(&fv(&[4.0])).unwrap();
    assert_eq!(floats(&b), vec![5.0, 6.0, 7.0]);
}

#[test]
fn test_scalar_subtract() {
    let a = fv(&[1.0, 2.0, 3.0]);
    let b = a.subtract(&fv(&[4.0])).unwrap();
    assert_eq!(floats(&b), vec![-3.0, -2.0, -1.0]);
}

#[test]
fn test_scalar_multiply() {
    let a = fv(&[1.0, 2.0, 3.0]);
    let b = a.multiply(&fv(&[4.0])).unwrap();
    assert_eq!(floats(&b), vec![4.0, 8.0, 12.0]);
}

#[test]
fn test_scalar_divide() {
    let a = fv(&[1.0, 2.0, 3.0]);
    let b = a.divide(&fv(&[4.0])).unwrap();
    assert_eq!(floats(&b), vec![0.25, 0.5, 0.75]);
}
