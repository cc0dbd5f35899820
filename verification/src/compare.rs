//! Elementwise comparisons (equals, not-equals, less, less-or-equal,
//! greater, greater-or-equal) under the same length-reconciliation rule as
//! arithmetic. Numbers compare numerically across the integer/float divide
//! (the integer side is converted to a double first); two integer operands
//! compare exactly. Strings compare lexicographically by code point, and only
//! against strings. Booleans compare only against booleans: arithmetic treats
//! a boolean as a number, comparison does not, and that asymmetry is
//! deliberate. The result is always a boolean vector of the reconciled
//! length.
use vstd::prelude::*;

use crate::fpbits::{fp_lt, fp_eq, fp_gt, fp_cmp, fp_cmp_bits};
use crate::value::{RVecData, Model, ElementKind, Operator, OpError};
use crate::value::{kind_of, mlen, lens_compatible, joined_len, side_index, bool_int};
use crate::value::{as_fp_elems, as_int_elems, out_view};
use crate::arith::{type_err, len_err};

verus! {

/// Which kind pairs compare at all.
pub open spec fn cmp_defined(l: ElementKind, r: ElementKind) -> bool {
    match (l, r) {
        (ElementKind::Integer, ElementKind::Integer) => true,
        (ElementKind::Integer, ElementKind::Float) => true,
        (ElementKind::Float, ElementKind::Integer) => true,
        (ElementKind::Float, ElementKind::Float) => true,
        (ElementKind::Str, ElementKind::Str) => true,
        (ElementKind::Boolean, ElementKind::Boolean) => true,
        _ => false,
    }
}

/// A comparison operator read off the three order outcomes. Keeping the
/// three outcomes separate lets float comparisons involving a NaN make every
/// ordered test false while not-equals stays true.
pub open spec fn ord_test(op: Operator, lt: bool, eq: bool, gt: bool) -> bool {
    if op == Operator::Equals {
        eq
    } else if op == Operator::NotEquals {
        !eq
    } else if op == Operator::Less {
        lt
    } else if op == Operator::LessEq {
        lt || eq
    } else if op == Operator::Greater {
        gt
    } else {
        gt || eq
    }
}

/// Strict lexicographic order on character sequences, by code point.
pub open spec fn lex_lt(x: Seq<char>, y: Seq<char>) -> bool
    decreases x.len(),
{
    if y.len() == 0 {
        false
    } else if x.len() == 0 {
        true
    } else if (x[0] as u32) < (y[0] as u32) {
        true
    } else if (x[0] as u32) > (y[0] as u32) {
        false
    } else {
        lex_lt(x.skip(1), y.skip(1))
    }
}

/// Element `i` of a comparison result.
pub open spec fn cmp_elem(op: Operator, a: Model, b: Model, la: nat, lb: nat, i: int) -> bool {
    match (a, b) {
        (Model::Int(x), Model::Int(y)) => {
            let xa = x[side_index(la, i)];
            let yb = y[side_index(lb, i)];
            ord_test(op, xa < yb, xa == yb, xa > yb)
        },
        (Model::Str(x), Model::Str(y)) => {
            let xa = x[side_index(la, i)];
            let yb = y[side_index(lb, i)];
            ord_test(op, lex_lt(xa, yb), xa == yb, lex_lt(yb, xa))
        },
        (Model::Bool(x), Model::Bool(y)) => {
            let xa = bool_int(x[side_index(la, i)]);
            let yb = bool_int(y[side_index(lb, i)]);
            ord_test(op, xa < yb, xa == yb, xa > yb)
        },
        _ => {
            let xs = as_fp_elems(a).unwrap();
            let ys = as_fp_elems(b).unwrap();
            let xa = xs[side_index(la, i)];
            let yb = ys[side_index(lb, i)];
            ord_test(op, fp_lt(xa, yb), fp_eq(xa, yb), fp_gt(xa, yb))
        },
    }
}

/// What a comparison operator returns: a boolean vector of the reconciled
/// length, a `LengthMismatch`, or a `TypeError` for a cross-family pair.
pub open spec fn cmp_model(op: Operator, a: Model, b: Model) -> Result<Model, OpError> {
    let la = mlen(a);
    let lb = mlen(b);
    if !lens_compatible(la, lb) {
        Err(len_err(la, lb))
    } else if !cmp_defined(kind_of(a), kind_of(b)) {
        Err(type_err(op, kind_of(a), kind_of(b)))
    } else {
        Ok(Model::Bool(Seq::new(joined_len(la, lb), |i: int| cmp_elem(op, a, b, la, lb, i))))
    }
}

fn ord_apply(op: Operator, lt: bool, eq: bool, gt: bool) -> (r: bool)
    ensures
        r == ord_test(op, lt, eq, gt),
{
    match op {
        Operator::Equals => eq,
        Operator::NotEquals => !eq,
        Operator::Less => lt,
        Operator::LessEq => lt || eq,
        Operator::Greater => gt,
        _ => gt || eq,
    }
}

proof fn lemma_lex_skip(x: Seq<char>, y: Seq<char>, i: int)
    requires
        0 <= i <= x.len(),
        i <= y.len(),
        forall|k: int| 0 <= k < i ==> x[k] == y[k],
    ensures
        lex_lt(x, y) == lex_lt(x.skip(i), y.skip(i)),
    decreases i,
{
    if i == 0 {
        assert(x.skip(0) =~= x);
        assert(y.skip(0) =~= y);
    } else {
        assert(x[0] == y[0]);
        lemma_lex_skip(x.skip(1), y.skip(1), i - 1);
        assert(x.skip(1).skip(i - 1) =~= x.skip(i));
        assert(y.skip(1).skip(i - 1) =~= y.skip(i));
    }
}

/// Three-way lexicographic comparison of two strings by code point:
/// -1 for less, 0 for equal, 1 for greater.
pub fn str_cmp(a: &str, b: &str) -> (r: i8)
    ensures
        (r == -1i8) == lex_lt(a@, b@),
        (r == 0i8) == (a@ == b@),
        (r == 1i8) == lex_lt(b@, a@),
{
    let la = a.unicode_len();
    let lb = b.unicode_len();
    let mut i: usize = 0;
    while i < la && i < lb
        invariant
            la == a@.len(),
            lb == b@.len(),
            i <= la,
            i <= lb,
            forall|k: int| 0 <= k < i ==> a@[k] == b@[k],
        decreases la - i,
    {
        let ca = a.get_char(i);
        let cb = b.get_char(i);
        if (ca as u32) < (cb as u32) {
            proof {
                lemma_lex_skip(a@, b@, i as int);
                lemma_lex_skip(b@, a@, i as int);
                assert(a@[i as int] != b@[i as int]);
            }
            return -1;
        }
        if (ca as u32) > (cb as u32) {
            proof {
                lemma_lex_skip(a@, b@, i as int);
                lemma_lex_skip(b@, a@, i as int);
                assert(a@[i as int] != b@[i as int]);
            }
            return 1;
        }
        proof {
            assert(a@[i as int] == b@[i as int]) by {
                assert((ca as u32) == (cb as u32));
                assert(ca == a@[i as int] && cb == b@[i as int]);
            }
        }
        i = i + 1;
    }
    proof {
        lemma_lex_skip(a@, b@, i as int);
        lemma_lex_skip(b@, a@, i as int);
    }
    if la == lb {
        proof {
            assert(a@ =~= b@);
        }
        0
    } else if la < lb {
        -1
    } else {
        1
    }
}

fn cmp_int_vecs(op: Operator, xs: &Vec<i64>, ys: &Vec<i64>, n: usize) -> (out: Vec<bool>)
    requires
        xs@.len() == 1 || xs@.len() == n,
        ys@.len() == 1 || ys@.len() == n,
    ensures
        out@ == Seq::new(
            n as nat,
            |i: int|
                {
                    let xa = xs@[side_index(xs@.len(), i)];
                    let yb = ys@[side_index(ys@.len(), i)];
                    ord_test(op, xa < yb, xa == yb, xa > yb)
                },
        ),
{
    let la = xs.len();
    let lb = ys.len();
    let mut out: Vec<bool> = Vec::new();
    let mut i: usize = 0;
    while i < n
        invariant
            i <= n,
            la == xs@.len(),
            lb == ys@.len(),
            la == 1 || la == n,
            lb == 1 || lb == n,
            out@.len() == i,
            forall|j: int|
                0 <= j < i ==> out@[j] == {
                    let xa = xs@[side_index(la as nat, j)];
                    let yb = ys@[side_index(lb as nat, j)];
                    ord_test(op, xa < yb, xa == yb, xa > yb)
                },
        decreases n - i,
    {
        let ia = if la == 1 {
            0
        } else {
            i
        };
        let ib = if lb == 1 {
            0
        } else {
            i
        };
        let xa = xs[ia];
        let yb = ys[ib];
        out.push(ord_apply(op, xa < yb, xa == yb, xa > yb));
        i = i + 1;
    }
    proof {
        assert(out@ =~= Seq::new(
            n as nat,
            |i: int|
                {
                    let xa = xs@[side_index(la as nat, i)];
                    let yb = ys@[side_index(lb as nat, i)];
                    ord_test(op, xa < yb, xa == yb, xa > yb)
                },
        ));
    }
    out
}

fn cmp_fp_vecs(op: Operator, xs: &Vec<u64>, ys: &Vec<u64>, n: usize) -> (out: Vec<bool>)
    requires
        xs@.len() == 1 || xs@.len() == n,
        ys@.len() == 1 || ys@.len() == n,
    ensures
        out@ == Seq::new(
            n as nat,
            |i: int|
                {
                    let xa = xs@[side_index(xs@.len(), i)];
                    let yb = ys@[side_index(ys@.len(), i)];
                    ord_test(op, fp_lt(xa, yb), fp_eq(xa, yb), fp_gt(xa, yb))
                },
        ),
{
    let la = xs.len();
    let lb = ys.len();
    let mut out: Vec<bool> = Vec::new();
    let mut i: usize = 0;
    while i < n
        invariant
            i <= n,
            la == xs@.len(),
            lb == ys@.len(),
            la == 1 || la == n,
            lb == 1 || lb == n,
            out@.len() == i,
            forall|j: int|
                0 <= j < i ==> out@[j] == {
                    let xa = xs@[side_index(la as nat, j)];
                    let yb = ys@[side_index(lb as nat, j)];
                    ord_test(op, fp_lt(xa, yb), fp_eq(xa, yb), fp_gt(xa, yb))
                },
        decreases n - i,
    {
        let ia = if la == 1 {
            0
        } else {
            i
        };
        let ib = if lb == 1 {
            0
        } else {
            i
        };
        let c = fp_cmp_bits(xs[ia], ys[ib]);
        let lt = match c {
            Some(v) => v == -1,
            None => false,
        };
        let eq = match c {
            Some(v) => v == 0,
            None => false,
        };
        let gt = match c {
            Some(v) => v == 1,
            None => false,
        };
        out.push(ord_apply(op, lt, eq, gt));
        i = i + 1;
    }
    proof {
        assert(out@ =~= Seq::new(
            n as nat,
            |i: int|
                {
                    let xa = xs@[side_index(la as nat, i)];
                    let yb = ys@[side_index(lb as nat, i)];
                    ord_test(op, fp_lt(xa, yb), fp_eq(xa, yb), fp_gt(xa, yb))
                },
        ));
    }
    out
}

fn cmp_bin(op: Operator, a: &RVecData, b: &RVecData) -> (r: Result<RVecData, OpError>)
    requires
        op == Operator::Equals || op == Operator::NotEquals || op == Operator::Less || op
            == Operator::LessEq || op == Operator::Greater || op == Operator::GreaterEq,
    ensures
        out_view(r) == cmp_model(op, a@, b@),
{
    let la = a.len();
    let lb = b.len();
    if !(la == lb || la == 1 || lb == 1) {
        return Err(OpError::LengthMismatch { left_len: la, right_len: lb });
    }
    let n: usize = if la == 1 {
        lb
    } else {
        la
    };
    let ka = a.element_type();
    let kb = b.element_type();
    match (a, b) {
        (RVecData::Int(x), RVecData::Int(y)) => {
            let out = cmp_int_vecs(op, x, y, n);
            proof {
                assert(out@ =~= Seq::new(
                    n as nat,
                    |i: int| cmp_elem(op, a@, b@, la as nat, lb as nat, i),
                ));
            }
            Ok(RVecData::Bool(out))
        },
        (RVecData::Bool(_), RVecData::Bool(_)) => {
            let xs = a.int_elems();
            let ys = b.int_elems();
            let out = cmp_int_vecs(op, &xs, &ys, n);
            proof {
                assert(out@ =~= Seq::new(
                    n as nat,
                    |i: int| cmp_elem(op, a@, b@, la as nat, lb as nat, i),
                ));
            }
            Ok(RVecData::Bool(out))
        },
        (RVecData::Int(_), RVecData::Float(_))
        | (RVecData::Float(_), RVecData::Int(_))
        | (RVecData::Float(_), RVecData::Float(_)) => {
            let xs = a.fp_elems();
            let ys = b.fp_elems();
            let out = cmp_fp_vecs(op, &xs, &ys, n);
            proof {
                assert(out@ =~= Seq::new(
                    n as nat,
                    |i: int| cmp_elem(op, a@, b@, la as nat, lb as nat, i),
                ));
            }
            Ok(RVecData::Bool(out))
        },
        (RVecData::Str(x), RVecData::Str(y)) => {
            let mut out: Vec<bool> = Vec::new();
            let mut i: usize = 0;
            while i < n
                invariant
                    i <= n,
                    la == x@.len(),
                    lb == y@.len(),
                    la == 1 || la == n,
                    lb == 1 || lb == n,
                    out@.len() == i,
                    forall|j: int|
                        0 <= j < i ==> out@[j] == {
                            let xa = x@[side_index(la as nat, j)]@;
                            let yb = y@[side_index(lb as nat, j)]@;
                            ord_test(op, lex_lt(xa, yb), xa == yb, lex_lt(yb, xa))
                        },
                decreases n - i,
            {
                let ia = if la == 1 {
                    0
                } else {
                    i
                };
                let ib = if lb == 1 {
                    0
                } else {
                    i
                };
                let c = str_cmp(x[ia].as_str(), y[ib].as_str());
                out.push(ord_apply(op, c == -1, c == 0, c == 1));
                i = i + 1;
            }
            proof {
                assert(out@ =~= Seq::new(
                    n as nat,
                    |i: int| cmp_elem(op, a@, b@, la as nat, lb as nat, i),
                ));
            }
            Ok(RVecData::Bool(out))
        },
        _ => Err(OpError::TypeError { operator: op, left_kind: ka, right_kind: kb }),
    }
}

impl RVecData {
    /// Elementwise equality; yields a boolean vector.
    pub fn eq_ew(&self, other: &RVecData) -> (r: Result<RVecData, OpError>)
        ensures
            out_view(r) == cmp_model(Operator::Equals, self@, other@),
    {
        cmp_bin(Operator::Equals, self, other)
    }

    /// Elementwise inequality.
    pub fn ne_ew(&self, other: &RVecData) -> (r: Result<RVecData, OpError>)
        ensures
            out_view(r) == cmp_model(Operator::NotEquals, self@, other@),
    {
        cmp_bin(Operator::NotEquals, self, other)
    }

    /// Elementwise strictly-less.
    pub fn lt_ew(&self, other: &RVecData) -> (r: Result<RVecData, OpError>)
        ensures
            out_view(r) == cmp_model(Operator::Less, self@, other@),
    {
        cmp_bin(Operator::Less, self, other)
    }

    /// Elementwise less-or-equal.
    pub fn le_ew(&self, other: &RVecData) -> (r: Result<RVecData, OpError>)
        ensures
            out_view(r) == cmp_model(Operator::LessEq, self@, other@),
    {
        cmp_bin(Operator::LessEq, self, other)
    }

    /// Elementwise strictly-greater.
    pub fn gt_ew(&self, other: &RVecData) -> (r: Result<RVecData, OpError>)
        ensures
            out_view(r) == cmp_model(Operator::Greater, self@, other@),
    {
        cmp_bin(Operator::Greater, self, other)
    }

    /// Elementwise greater-or-equal.
    pub fn ge_ew(&self, other: &RVecData) -> (r: Result<RVecData, OpError>)
        ensures
            out_view(r) == cmp_model(Operator::GreaterEq, self@, other@),
    {
        cmp_bin(Operator::GreaterEq, self, other)
    }
}

} // verus!
