//! Elementwise logical operators (and, or, xor, and unary not). They are
//! defined only for boolean operands; any other kind is a type error. Binary
//! forms share the length-reconciliation rule with arithmetic and
//! comparison.
use vstd::prelude::*;

use crate::value::{RVecData, Model, ElementKind, Operator, OpError};
use crate::value::{kind_of, mlen, lens_compatible, joined_len, side_index, out_view};
use crate::arith::{type_err, len_err};

verus! {

pub open spec fn logic_combine(op: Operator, x: bool, y: bool) -> bool {
    if op == Operator::And {
        x && y
    } else if op == Operator::Or {
        x || y
    } else {
        x != y
    }
}

/// What a binary logical operator returns: pure boolean algebra over
/// reconciled boolean operands, errors elsewhere.
pub open spec fn logic_model(op: Operator, a: Model, b: Model) -> Result<Model, OpError> {
    let la = mlen(a);
    let lb = mlen(b);
    if !lens_compatible(la, lb) {
        Err(len_err(la, lb))
    } else {
        match (a, b) {
            (Model::Bool(x), Model::Bool(y)) => Ok(
                Model::Bool(
                    Seq::new(
                        joined_len(la, lb),
                        |i: int|
                            logic_combine(op, x[side_index(la, i)], y[side_index(lb, i)]),
                    ),
                ),
            ),
            _ => Err(type_err(op, kind_of(a), kind_of(b))),
        }
    }
}

/// What elementwise negation-of-booleans returns.
pub open spec fn not_model(a: Model) -> Result<Model, OpError> {
    match a {
        Model::Bool(s) => Ok(Model::Bool(s.map_values(|b: bool| !b))),
        _ => Err(type_err(Operator::Not, kind_of(a), kind_of(a))),
    }
}

fn logic_apply(op: Operator, x: bool, y: bool) -> (r: bool)
    ensures
        r == logic_combine(op, x, y),
{
    match op {
        Operator::And => x && y,
        Operator::Or => x || y,
        _ => x != y,
    }
}

fn logic_bin(op: Operator, a: &RVecData, b: &RVecData) -> (r: Result<RVecData, OpError>)
    ensures
        out_view(r) == logic_model(op, a@, b@),
{
    let la = a.len();
    let lb = b.len();
    if !(la == lb || la == 1 || lb == 1) {
        return Err(OpError::LengthMismatch { left_len: la, right_len: lb });
    }
    let n: usize = if la == 1 {
        lb
    } else {
        la
    };
    match (a, b) {
        (RVecData::Bool(x), RVecData::Bool(y)) => {
            let mut out: Vec<bool> = Vec::new();
            let mut i: usize = 0;
            while i < n
                invariant
                    i <= n,
                    la == x@.len(),
                    lb == y@.len(),
                    la == 1 || la == n,
                    lb == 1 || lb == n,
                    out@.len() == i,
                    forall|j: int|
                        0 <= j < i ==> out@[j] == logic_combine(
                            op,
                            x@[side_index(la as nat, j)],
                            y@[side_index(lb as nat, j)],
                        ),
                decreases n - i,
            {
                let ia = if la == 1 {
                    0
                } else {
                    i
                };
                let ib = if lb == 1 {
                    0
                } else {
                    i
                };
                out.push(logic_apply(op, x[ia], y[ib]));
                i = i + 1;
            }
            proof {
                assert(out@ =~= Seq::new(
                    n as nat,
                    |i: int|
                        logic_combine(
                            op,
                            x@[side_index(la as nat, i)],
                            y@[side_index(lb as nat, i)],
                        ),
                ));
            }
            Ok(RVecData::Bool(out))
        },
        _ => Err(
            OpError::TypeError {
                operator: op,
                left_kind: a.element_type(),
                right_kind: b.element_type(),
            },
        ),
    }
}

impl RVecData {
    /// Elementwise logical and of two boolean vectors.
    pub fn and_ew(&self, other: &RVecData) -> (r: Result<RVecData, OpError>)
        ensures
            out_view(r) == logic_model(Operator::And, self@, other@),
    {
        logic_bin(Operator::And, self, other)
    }

    /// Elementwise logical or of two boolean vectors.
    pub fn or_ew(&self, other: &RVecData) -> (r: Result<RVecData, OpError>)
        ensures
            out_view(r) == logic_model(Operator::Or, self@, other@),
    {
        logic_bin(Operator::Or, self, other)
    }

    /// Elementwise exclusive or of two boolean vectors.
    pub fn xor_ew(&self, other: &RVecData) -> (r: Result<RVecData, OpError>)
        ensures
            out_view(r) == logic_model(Operator::Xor, self@, other@),
    {
        logic_bin(Operator::Xor, self, other)
    }

    /// Elementwise logical negation of a boolean vector.
    pub fn not_ew(&self) -> (r: Result<RVecData, OpError>)
        ensures
            out_view(r) == not_model(self@),
    {
        match self {
            RVecData::Bool(v) => {
                let n = v.len();
                let mut out: Vec<bool> = Vec::new();
                let mut i: usize = 0;
                while i < n
                    invariant
                        i <= n,
                        n == v@.len(),
                        out@.len() == i,
                        forall|j: int| 0 <= j < i ==> out@[j] == !v@[j],
                    decreases n - i,
                {
                    out.push(!v[i]);
                    i = i + 1;
                }
                proof {
                    assert(out@ =~= v@.map_values(|b: bool| !b));
                }
                Ok(RVecData::Bool(out))
            },
            _ => Err(
                OpError::TypeError {
                    operator: Operator::Not,
                    left_kind: self.element_type(),
                    right_kind: self.element_type(),
                },
            ),
        }
    }
}

} // verus!
