//! Elementwise binary arithmetic (add, subtract, multiply, divide) and unary
//! negate, driven by one promotion table and the shared
//! length-reconciliation rule.
//!
//! The numeric lattice: integer combined with integer stays integer, any
//! float side promotes to float, and booleans count as 0 and 1. Division
//! always yields a float result, even for two integer operands. Strings
//! concatenate under addition and repeat under multiplication by an integer
//! or boolean (a non-positive count gives the empty string); every other
//! string combination is a type error. Integer arithmetic wraps modulo 2^64
//! (two's complement), which is documented here once and holds consistently.
use vstd::prelude::*;

use vstd::wrapping::i64_specs;

use crate::fpbits::{fp_add, fp_sub, fp_mul, fp_div, fp_neg_spec};
use crate::fpbits::{fp_add_bits, fp_sub_bits, fp_mul_bits, fp_div_bits, fp_neg_bits};
use crate::value::{RVecData, Model, ElementKind, Operator, OpError};
use crate::value::{kind_of, mlen, lens_compatible, joined_len, side_index, bool_int};
use crate::value::{as_int_elems, as_fp_elems, out_view};

verus! {

pub open spec fn type_err(op: Operator, l: ElementKind, r: ElementKind) -> OpError {
    OpError::TypeError { operator: op, left_kind: l, right_kind: r }
}

pub open spec fn len_err(la: nat, lb: nat) -> OpError {
    OpError::LengthMismatch { left_len: la as usize, right_len: lb as usize }
}

/// The promotion table for the arithmetic family: the result kind of an
/// operator on a pair of element kinds, or `None` where the combination is
/// unsupported.
pub open spec fn arith_result_kind(op: Operator, l: ElementKind, r: ElementKind) -> Option<
    ElementKind,
> {
    match (l, r) {
        (ElementKind::Integer, ElementKind::Integer) => if op == Operator::Divide {
            Some(ElementKind::Float)
        } else {
            Some(ElementKind::Integer)
        },
        (ElementKind::Integer, ElementKind::Boolean) => if op == Operator::Divide {
            Some(ElementKind::Float)
        } else {
            Some(ElementKind::Integer)
        },
        (ElementKind::Boolean, ElementKind::Integer) => if op == Operator::Divide {
            Some(ElementKind::Float)
        } else {
            Some(ElementKind::Integer)
        },
        (ElementKind::Boolean, ElementKind::Boolean) => if op == Operator::Divide {
            Some(ElementKind::Float)
        } else {
            Some(ElementKind::Integer)
        },
        (ElementKind::Integer, ElementKind::Float) => Some(ElementKind::Float),
        (ElementKind::Float, ElementKind::Integer) => Some(ElementKind::Float),
        (ElementKind::Float, ElementKind::Float) => Some(ElementKind::Float),
        (ElementKind::Float, ElementKind::Boolean) => Some(ElementKind::Float),
        (ElementKind::Boolean, ElementKind::Float) => Some(ElementKind::Float),
        (ElementKind::Str, ElementKind::Str) => if op == Operator::Add {
            Some(ElementKind::Str)
        } else {
            None
        },
        (ElementKind::Str, ElementKind::Integer) => if op == Operator::Multiply {
            Some(ElementKind::Str)
        } else {
            None
        },
        (ElementKind::Integer, ElementKind::Str) => if op == Operator::Multiply {
            Some(ElementKind::Str)
        } else {
            None
        },
        (ElementKind::Str, ElementKind::Boolean) => if op == Operator::Multiply {
            Some(ElementKind::Str)
        } else {
            None
        },
        (ElementKind::Boolean, ElementKind::Str) => if op == Operator::Multiply {
            Some(ElementKind::Str)
        } else {
            None
        },
        (ElementKind::Str, ElementKind::Float) => None,
        (ElementKind::Float, ElementKind::Str) => None,
    }
}

/// Wrapping 64-bit combination for the integer-domain operators.
pub open spec fn int_combine(op: Operator, x: i64, y: i64) -> i64 {
    if op == Operator::Add {
        i64_specs::wrapping_add(x, y)
    } else if op == Operator::Subtract {
        i64_specs::wrapping_sub(x, y)
    } else {
        i64_specs::wrapping_mul(x, y)
    }
}

/// IEEE-754 combination for the float-domain operators, over bit patterns.
pub open spec fn fp_combine(op: Operator, x: u64, y: u64) -> u64 {
    if op == Operator::Add {
        fp_add(x, y)
    } else if op == Operator::Subtract {
        fp_sub(x, y)
    } else if op == Operator::Multiply {
        fp_mul(x, y)
    } else {
        fp_div(x, y)
    }
}

/// A string repeated `n` times; any non-positive count gives the empty
/// string rather than an error.
pub open spec fn str_repeat(s: Seq<char>, n: int) -> Seq<char>
    decreases n,
{
    if n <= 0 {
        Seq::empty()
    } else {
        str_repeat(s, n - 1) + s
    }
}

/// Element `i` of a string-kind arithmetic result: concatenation under Add,
/// repetition under Multiply with an integer or boolean count.
pub open spec fn str_arith_elem(a: Model, b: Model, la: nat, lb: nat, i: int) -> Seq<char> {
    match (a, b) {
        (Model::Str(x), Model::Str(y)) => x[side_index(la, i)] + y[side_index(lb, i)],
        (Model::Str(x), Model::Int(y)) => str_repeat(
            x[side_index(la, i)],
            y[side_index(lb, i)] as int,
        ),
        (Model::Str(x), Model::Bool(y)) => str_repeat(
            x[side_index(la, i)],
            bool_int(y[side_index(lb, i)]) as int,
        ),
        (Model::Int(x), Model::Str(y)) => str_repeat(
            y[side_index(lb, i)],
            x[side_index(la, i)] as int,
        ),
        (Model::Bool(x), Model::Str(y)) => str_repeat(
            y[side_index(lb, i)],
            bool_int(x[side_index(la, i)]) as int,
        ),
        _ => Seq::empty(),
    }
}

/// What an arithmetic operator returns: the promoted elementwise result, a
/// `LengthMismatch` when neither equal lengths nor a scalar side reconcile
/// the operands, or a `TypeError` where the table has no entry.
pub open spec fn arith_model(op: Operator, a: Model, b: Model) -> Result<Model, OpError> {
    let la = mlen(a);
    let lb = mlen(b);
    if !lens_compatible(la, lb) {
        Err(len_err(la, lb))
    } else {
        let n = joined_len(la, lb);
        match arith_result_kind(op, kind_of(a), kind_of(b)) {
            None => Err(type_err(op, kind_of(a), kind_of(b))),
            Some(k) => if k == ElementKind::Integer {
                let xs = as_int_elems(a).unwrap();
                let ys = as_int_elems(b).unwrap();
                Ok(
                    Model::Int(
                        Seq::new(
                            n,
                            |i: int| int_combine(op, xs[side_index(la, i)], ys[side_index(lb, i)]),
                        ),
                    ),
                )
            } else if k == ElementKind::Float {
                let xs = as_fp_elems(a).unwrap();
                let ys = as_fp_elems(b).unwrap();
                Ok(
                    Model::Float(
                        Seq::new(
                            n,
                            |i: int| fp_combine(op, xs[side_index(la, i)], ys[side_index(lb, i)]),
                        ),
                    ),
                )
            } else {
                Ok(Model::Str(Seq::new(n, |i: int| str_arith_elem(a, b, la, lb, i))))
            },
        }
    }
}

/// What negation returns: integers and booleans negate as integers (`-true`
/// is -1), floats flip their sign bit, strings are a type error.
pub open spec fn negate_model(a: Model) -> Result<Model, OpError> {
    match a {
        Model::Int(s) => Ok(Model::Int(s.map_values(|x: i64| i64_specs::wrapping_sub(0i64, x)))),
        Model::Float(s) => Ok(Model::Float(s.map_values(|x: u64| fp_neg_spec(x)))),
        Model::Bool(s) => Ok(
            Model::Int(
                s.map_values(
                    |b: bool|
                        if b {
                            -1i64
                        } else {
                            0i64
                        },
                ),
            ),
        ),
        Model::Str(_) => Err(type_err(Operator::Negate, ElementKind::Str, ElementKind::Str)),
    }
}

fn int_apply(op: Operator, x: i64, y: i64) -> (r: i64)
    ensures
        r == int_combine(op, x, y),
{
    match op {
        Operator::Add => x.wrapping_add(y),
        Operator::Subtract => x.wrapping_sub(y),
        _ => x.wrapping_mul(y),
    }
}

fn fp_apply(op: Operator, x: u64, y: u64) -> (r: u64)
    ensures
        r == fp_combine(op, x, y),
{
    match op {
        Operator::Add => fp_add_bits(x, y),
        Operator::Subtract => fp_sub_bits(x, y),
        Operator::Multiply => fp_mul_bits(x, y),
        _ => fp_div_bits(x, y),
    }
}

/// A fresh string holding `s` repeated `count` times (none for a
/// non-positive count).
pub fn repeat_str(s: &String, count: i64) -> (r: String)
    ensures
        r@ == str_repeat(s@, count as int),
{
    let mut out = String::new();
    let mut j: i64 = 0;
    proof {
        assert(out@ =~= str_repeat(s@, 0));
    }
    while j < count
        invariant
            0 <= j,
            count > 0 ==> j <= count,
            count <= 0 ==> j == 0,
            out@ == str_repeat(s@, j as int),
        decreases count - j,
    {
        out.append(s.as_str());
        j = j + 1;
    }
    proof {
        if count <= 0 {
            assert(str_repeat(s@, count as int) =~= Seq::<char>::empty());
        }
    }
    out
}

fn combine_int_vecs(op: Operator, xs: &Vec<i64>, ys: &Vec<i64>, n: usize) -> (out: Vec<i64>)
    requires
        xs@.len() == 1 || xs@.len() == n,
        ys@.len() == 1 || ys@.len() == n,
    ensures
        out@ == Seq::new(
            n as nat,
            |i: int|
                int_combine(
                    op,
                    xs@[side_index(xs@.len(), i)],
                    ys@[side_index(ys@.len(), i)],
                ),
        ),
{
    let la = xs.len();
    let lb = ys.len();
    let mut out: Vec<i64> = Vec::new();
    let mut i: usize = 0;
    while i < n
        invariant
            i <= n,
            la == xs@.len(),
            lb == ys@.len(),
            la == 1 || la == n,
            lb == 1 || lb == n,
            out@.len() == i,
            forall|j: int|
                0 <= j < i ==> out@[j] == int_combine(
                    op,
                    xs@[side_index(la as nat, j)],
                    ys@[side_index(lb as nat, j)],
                ),
        decreases n - i,
    {
        let ia = if la == 1 {
            0
        } else {
            i
        };
        let ib = if lb == 1 {
            0
        } else {
            i
        };
        out.push(int_apply(op, xs[ia], ys[ib]));
        i = i + 1;
    }
    proof {
        assert(out@ =~= Seq::new(
            n as nat,
            |i: int|
                int_combine(op, xs@[side_index(la as nat, i)], ys@[side_index(lb as nat, i)]),
        ));
    }
    out
}

fn combine_fp_vecs(op: Operator, xs: &Vec<u64>, ys: &Vec<u64>, n: usize) -> (out: Vec<u64>)
    requires
        xs@.len() == 1 || xs@.len() == n,
        ys@.len() == 1 || ys@.len() == n,
    ensures
        out@ == Seq::new(
            n as nat,
            |i: int|
                fp_combine(op, xs@[side_index(xs@.len(), i)], ys@[side_index(ys@.len(), i)]),
        ),
{
    let la = xs.len();
    let lb = ys.len();
    let mut out: Vec<u64> = Vec::new();
    let mut i: usize = 0;
    while i < n
        invariant
            i <= n,
            la == xs@.len(),
            lb == ys@.len(),
            la == 1 || la == n,
            lb == 1 || lb == n,
            out@.len() == i,
            forall|j: int|
                0 <= j < i ==> out@[j] == fp_combine(
                    op,
                    xs@[side_index(la as nat, j)],
                    ys@[side_index(lb as nat, j)],
                ),
        decreases n - i,
    {
        let ia = if la == 1 {
            0
        } else {
            i
        };
        let ib = if lb == 1 {
            0
        } else {
            i
        };
        out.push(fp_apply(op, xs[ia], ys[ib]));
        i = i + 1;
    }
    proof {
        assert(out@ =~= Seq::new(
            n as nat,
            |i: int|
                fp_combine(op, xs@[side_index(la as nat, i)], ys@[side_index(lb as nat, i)]),
        ));
    }
    out
}

fn arith_bin(op: Operator, a: &RVecData, b: &RVecData) -> (r: Result<RVecData, OpError>)
    requires
        op == Operator::Add || op == Operator::Subtract || op == Operator::Multiply || op
            == Operator::Divide,
    ensures
        out_view(r) == arith_model(op, a@, b@),
{
    let la = a.len();
    let lb = b.len();
    if !(la == lb || la == 1 || lb == 1) {
        return Err(OpError::LengthMismatch { left_len: la, right_len: lb });
    }
    let n: usize = if la == 1 {
        lb
    } else {
        la
    };
    let ka = a.element_type();
    let kb = b.element_type();
    match (a, b) {
        (RVecData::Str(x), RVecData::Str(y)) => {
            if op == Operator::Add {
                let mut out: Vec<String> = Vec::new();
                let mut i: usize = 0;
                while i < n
                    invariant
                        i <= n,
                        la == x@.len(),
                        lb == y@.len(),
                        la == 1 || la == n,
                        lb == 1 || lb == n,
                        out@.len() == i,
                        forall|j: int|
                            0 <= j < i ==> out@[j]@ == x@[side_index(la as nat, j)]@ + y@[
                                side_index(lb as nat, j)
                            ]@,
                    decreases n - i,
                {
                    let ia = if la == 1 {
                        0
                    } else {
                        i
                    };
                    let ib = if lb == 1 {
                        0
                    } else {
                        i
                    };
                    out.push(x[ia].clone().concat(y[ib].as_str()));
                    i = i + 1;
                }
                proof {
                    assert(out.deep_view() =~= Seq::new(
                        n as nat,
                        |i: int| str_arith_elem(a@, b@, la as nat, lb as nat, i),
                    ));
                }
                Ok(RVecData::Str(out))
            } else {
                Err(
                    OpError::TypeError {
                        operator: op,
                        left_kind: ElementKind::Str,
                        right_kind: ElementKind::Str,
                    },
                )
            }
        },
        (RVecData::Str(x), RVecData::Int(_)) | (RVecData::Str(x), RVecData::Bool(_)) => {
            if op == Operator::Multiply {
                let counts = b.int_elems();
                let mut out: Vec<String> = Vec::new();
                let mut i: usize = 0;
                while i < n
                    invariant
                        i <= n,
                        la == x@.len(),
                        lb == counts@.len(),
                        la == 1 || la == n,
                        lb == 1 || lb == n,
                        out@.len() == i,
                        forall|j: int|
                            0 <= j < i ==> out@[j]@ == str_repeat(
                                x@[side_index(la as nat, j)]@,
                                counts@[side_index(lb as nat, j)] as int,
                            ),
                    decreases n - i,
                {
                    let ia = if la == 1 {
                        0
                    } else {
                        i
                    };
                    let ib = if lb == 1 {
                        0
                    } else {
                        i
                    };
                    out.push(repeat_str(&x[ia], counts[ib]));
                    i = i + 1;
                }
                proof {
                    assert(out.deep_view() =~= Seq::new(
                        n as nat,
                        |i: int| str_arith_elem(a@, b@, la as nat, lb as nat, i),
                    ));
                }
                Ok(RVecData::Str(out))
            } else {
                Err(OpError::TypeError { operator: op, left_kind: ka, right_kind: kb })
            }
        },
        (RVecData::Int(_), RVecData::Str(y)) | (RVecData::Bool(_), RVecData::Str(y)) => {
            if op == Operator::Multiply {
                let counts = a.int_elems();
                let mut out: Vec<String> = Vec::new();
                let mut i: usize = 0;
                while i < n
                    invariant
                        i <= n,
                        la == counts@.len(),
                        lb == y@.len(),
                        la == 1 || la == n,
                        lb == 1 || lb == n,
                        out@.len() == i,
                        forall|j: int|
                            0 <= j < i ==> out@[j]@ == str_repeat(
                                y@[side_index(lb as nat, j)]@,
                                counts@[side_index(la as nat, j)] as int,
                            ),
                    decreases n - i,
                {
                    let ia = if la == 1 {
                        0
                    } else {
                        i
                    };
                    let ib = if lb == 1 {
                        0
                    } else {
                        i
                    };
                    out.push(repeat_str(&y[ib], counts[ia]));
                    i = i + 1;
                }
                proof {
                    assert(out.deep_view() =~= Seq::new(
                        n as nat,
                        |i: int| str_arith_elem(a@, b@, la as nat, lb as nat, i),
                    ));
                }
                Ok(RVecData::Str(out))
            } else {
                Err(OpError::TypeError { operator: op, left_kind: ka, right_kind: kb })
            }
        },
        (RVecData::Str(_), RVecData::Float(_)) | (RVecData::Float(_), RVecData::Str(_)) => Err(
            OpError::TypeError { operator: op, left_kind: ka, right_kind: kb },
        ),
        _ => {
            let float_domain = ka == ElementKind::Float || kb == ElementKind::Float || op
                == Operator::Divide;
            if !float_domain {
                let xs = a.int_elems();
                let ys = b.int_elems();
                let out = combine_int_vecs(op, &xs, &ys, n);
                proof {
                    assert(arith_result_kind(op, kind_of(a@), kind_of(b@)) == Some(
                        ElementKind::Integer,
                    ));
                }
                Ok(RVecData::Int(out))
            } else {
                let xs = a.fp_elems();
                let ys = b.fp_elems();
                let out = combine_fp_vecs(op, &xs, &ys, n);
                proof {
                    assert(arith_result_kind(op, kind_of(a@), kind_of(b@)) == Some(
                        ElementKind::Float,
                    ));
                }
                Ok(RVecData::Float(out))
            }
        },
    }
}

impl RVecData {
    /// Elementwise addition under the promotion table: numeric widening with
    /// booleans as 0/1, string concatenation for two string operands.
    pub fn add(&self, other: &RVecData) -> (r: Result<RVecData, OpError>)
        ensures
            out_view(r) == arith_model(Operator::Add, self@, other@),
    {
        arith_bin(Operator::Add, self, other)
    }

    /// Elementwise subtraction under the numeric promotion lattice; strings
    /// do not subtract.
    pub fn subtract(&self, other: &RVecData) -> (r: Result<RVecData, OpError>)
        ensures
            out_view(r) == arith_model(Operator::Subtract, self@, other@),
    {
        arith_bin(Operator::Subtract, self, other)
    }

    /// Elementwise multiplication: numeric promotion, plus string repetition
    /// by an integer or boolean count on either side.
    pub fn multiply(&self, other: &RVecData) -> (r: Result<RVecData, OpError>)
        ensures
            out_view(r) == arith_model(Operator::Multiply, self@, other@),
    {
        arith_bin(Operator::Multiply, self, other)
    }

    /// Elementwise true division: always promotes to a float result, even
    /// for two integer operands.
    pub fn divide(&self, other: &RVecData) -> (r: Result<RVecData, OpError>)
        ensures
            out_view(r) == arith_model(Operator::Divide, self@, other@),
    {
        arith_bin(Operator::Divide, self, other)
    }

    /// Elementwise negation: integers and booleans negate as integers,
    /// floats flip their sign, strings are a type error.
    pub fn negate(&self) -> (r: Result<RVecData, OpError>)
        ensures
            out_view(r) == negate_model(self@),
    {
        match self {
            RVecData::Int(v) => {
                let n = v.len();
                let mut out: Vec<i64> = Vec::new();
                let mut i: usize = 0;
                while i < n
                    invariant
                        i <= n,
                        n == v@.len(),
                        out@.len() == i,
                        forall|j: int|
                            0 <= j < i ==> out@[j] == i64_specs::wrapping_sub(0i64, v@[j]),
                    decreases n - i,
                {
                    out.push((0i64).wrapping_sub(v[i]));
                    i = i + 1;
                }
                proof {
                    assert(out@ =~= v@.map_values(|x: i64| i64_specs::wrapping_sub(0i64, x)));
                }
                Ok(RVecData::Int(out))
            },
            RVecData::Float(v) => {
                let n = v.len();
                let mut out: Vec<u64> = Vec::new();
                let mut i: usize = 0;
                while i < n
                    invariant
                        i <= n,
                        n == v@.len(),
                        out@.len() == i,
                        forall|j: int| 0 <= j < i ==> out@[j] == fp_neg_spec(v@[j]),
                    decreases n - i,
                {
                    out.push(fp_neg_bits(v[i]));
                    i = i + 1;
                }
                proof {
                    assert(out@ =~= v@.map_values(|x: u64| fp_neg_spec(x)));
                }
                Ok(RVecData::Float(out))
            },
            RVecData::Bool(v) => {
                let n = v.len();
                let mut out: Vec<i64> = Vec::new();
                let mut i: usize = 0;
                while i < n
                    invariant
                        i <= n,
                        n == v@.len(),
                        out@.len() == i,
                        forall|j: int|
                            0 <= j < i ==> out@[j] == (if v@[j] {
                                -1i64
                            } else {
                                0i64
                            }),
                    decreases n - i,
                {
                    out.push(
                        if v[i] {
                            -1i64
                        } else {
                            0i64
                        },
                    );
                    i = i + 1;
                }
                proof {
                    assert(out@ =~= v@.map_values(
                        |b: bool|
                            if b {
                                -1i64
                            } else {
                                0i64
                            },
                    ));
                }
                Ok(RVecData::Int(out))
            },
            RVecData::Str(_) => Err(
                OpError::TypeError {
                    operator: Operator::Negate,
                    left_kind: ElementKind::Str,
                    right_kind: ElementKind::Str,
                },
            ),
        }
    }
}

} // verus!
