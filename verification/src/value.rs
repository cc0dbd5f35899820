//! The vector value itself: a tagged union over homogeneous backing arrays of
//! four element kinds, with its mathematical model, the shared
//! length-reconciliation rule, and the error taxonomy.
use vstd::prelude::*;

use crate::fpbits::fp_of_int;

verus! {

/// The element kind of a vector value. Float elements are IEEE-754 binary64
/// values held as raw bit patterns.
#[derive(Clone, Copy, Debug, PartialEq, Eq, Structural)]
pub enum ElementKind {
    Integer,
    Float,
    Str,
    Boolean,
}

/// The operators of the engine. `Cast` stands for the explicit conversion
/// helpers and `Transform` for the vectorized string transforms; both report
/// type errors through the same taxonomy as the elementwise operators.
#[derive(Clone, Copy, Debug, PartialEq, Eq, Structural)]
pub enum Operator {
    Add,
    Subtract,
    Multiply,
    Divide,
    Negate,
    Equals,
    NotEquals,
    Less,
    LessEq,
    Greater,
    GreaterEq,
    And,
    Or,
    Xor,
    Not,
    Index,
    Cast,
    Transform,
}

/// The typed failures of the engine. Nothing panics: every illegal request
/// is returned as one of these.
/// For a unary operator, `TypeError` repeats the operand kind on both sides.
#[derive(Clone, Copy, Debug, PartialEq, Eq, Structural)]
pub enum OpError {
    /// The operator is undefined for this pair of element kinds.
    TypeError { operator: Operator, left_kind: ElementKind, right_kind: ElementKind },
    /// Neither equal lengths nor a length-1 side (or a boolean mask whose
    /// length differs from the operand's).
    LengthMismatch { left_len: usize, right_len: usize },
    /// An index or slice bound that resolves outside the operand, or a slice
    /// step of zero (reported with `index` 0).
    IndexError { index: i64, length: usize },
}

/// The mathematical model of a vector value: one sequence per element kind.
/// Float elements appear as their IEEE-754 bit patterns.
pub enum Model {
    Int(Seq<i64>),
    Float(Seq<u64>),
    Str(Seq<Seq<char>>),
    Bool(Seq<bool>),
}

/// A homogeneous, dynamically typed vector value. A length-1 value is the
/// scalar form used for broadcasting. Operators never mutate an operand;
/// every result is a fresh value.
#[derive(Debug)]
pub enum RVecData {
    Int(Vec<i64>),
    Float(Vec<u64>),
    Str(Vec<String>),
    Bool(Vec<bool>),
}

impl View for RVecData {
    type V = Model;

    open spec fn view(&self) -> Model {
        match self {
            RVecData::Int(v) => Model::Int(v@),
            RVecData::Float(v) => Model::Float(v@),
            RVecData::Str(v) => Model::Str(v.deep_view()),
            RVecData::Bool(v) => Model::Bool(v@),
        }
    }
}

pub open spec fn kind_of(m: Model) -> ElementKind {
    match m {
        Model::Int(_) => ElementKind::Integer,
        Model::Float(_) => ElementKind::Float,
        Model::Str(_) => ElementKind::Str,
        Model::Bool(_) => ElementKind::Boolean,
    }
}

pub open spec fn mlen(m: Model) -> nat {
    match m {
        Model::Int(s) => s.len(),
        Model::Float(s) => s.len(),
        Model::Str(s) => s.len(),
        Model::Bool(s) => s.len(),
    }
}

/// The shared length-reconciliation rule: equal lengths pair positionally,
/// and a length-1 side broadcasts against the other.
pub open spec fn lens_compatible(la: nat, lb: nat) -> bool {
    la == lb || la == 1 || lb == 1
}

/// The length of a reconciled result.
pub open spec fn joined_len(la: nat, lb: nat) -> nat {
    if la == 1 {
        lb
    } else {
        la
    }
}

/// Which element of a side feeds position `i` of the result: a length-1 side
/// contributes its only element everywhere.
pub open spec fn side_index(len: nat, i: int) -> int {
    if len == 1 {
        0
    } else {
        i
    }
}

/// A boolean read as a number, as arithmetic does.
pub open spec fn bool_int(b: bool) -> i64 {
    if b {
        1
    } else {
        0
    }
}

/// The elements of a value read as 64-bit integers, for the integer-domain
/// operations: booleans count as 0 and 1.
pub open spec fn as_int_elems(m: Model) -> Option<Seq<i64>> {
    match m {
        Model::Int(s) => Some(s),
        Model::Bool(s) => Some(s.map_values(|b: bool| bool_int(b))),
        _ => None,
    }
}

/// The elements of a value read as double bit patterns, for the float-domain
/// operations: integers and booleans are converted.
pub open spec fn as_fp_elems(m: Model) -> Option<Seq<u64>> {
    match m {
        Model::Int(s) => Some(s.map_values(|x: i64| fp_of_int(x))),
        Model::Float(s) => Some(s),
        Model::Bool(s) => Some(s.map_values(|b: bool| fp_of_int(bool_int(b)))),
        Model::Str(_) => None,
    }
}

/// The model of an operation's outcome.
pub open spec fn out_view(r: Result<RVecData, OpError>) -> Result<Model, OpError> {
    match r {
        Ok(v) => Ok(v@),
        Err(e) => Err(e),
    }
}

impl RVecData {
    /// Total element count.
    pub fn len(&self) -> (n: usize)
        ensures
            n == mlen(self@),
    {
        match self {
            RVecData::Int(v) => v.len(),
            RVecData::Float(v) => v.len(),
            RVecData::Str(v) => v.len(),
            RVecData::Bool(v) => v.len(),
        }
    }

    /// Whether this value is in scalar form (length 1).
    pub fn is_scalar(&self) -> (b: bool)
        ensures
            b == (mlen(self@) == 1),
    {
        self.len() == 1
    }

    /// The element kind.
    pub fn element_type(&self) -> (k: ElementKind)
        ensures
            k == kind_of(self@),
    {
        match self {
            RVecData::Int(_) => ElementKind::Integer,
            RVecData::Float(_) => ElementKind::Float,
            RVecData::Str(_) => ElementKind::Str,
            RVecData::Bool(_) => ElementKind::Boolean,
        }
    }

    /// The elements as 64-bit integers; defined for the integer and boolean
    /// kinds.
    pub(crate) fn int_elems(&self) -> (r: Vec<i64>)
        requires
            as_int_elems(self@) is Some,
        ensures
            r@ == as_int_elems(self@).unwrap(),
    {
        match self {
            RVecData::Int(v) => {
                let c = v.clone();
                proof {
                    assert(c@ =~= v@);
                }
                c
            },
            RVecData::Bool(v) => {
                let mut out: Vec<i64> = Vec::new();
                let n = v.len();
                let mut i: usize = 0;
                while i < n
                    invariant
                        i <= n,
                        n == v@.len(),
                        out@.len() == i,
                        forall|j: int| 0 <= j < i ==> out@[j] == bool_int(v@[j]),
                    decreases n - i,
                {
                    out.push(if v[i] {
                        1i64
                    } else {
                        0i64
                    });
                    i = i + 1;
                }
                proof {
                    assert(out@ =~= v@.map_values(|b: bool| bool_int(b)));
                }
                out
            },
            _ => {
                proof {
                    assert(false);
                }
                Vec::new()
            },
        }
    }

    /// The elements as double bit patterns; defined for the numeric kinds.
    pub(crate) fn fp_elems(&self) -> (r: Vec<u64>)
        requires
            as_fp_elems(self@) is Some,
        ensures
            r@ == as_fp_elems(self@).unwrap(),
    {
        match self {
            RVecData::Float(v) => {
                let c = v.clone();
                proof {
                    assert(c@ =~= v@);
                }
                c
            },
            RVecData::Int(v) => {
                let mut out: Vec<u64> = Vec::new();
                let n = v.len();
                let mut i: usize = 0;
                while i < n
                    invariant
                        i <= n,
                        n == v@.len(),
                        out@.len() == i,
                        forall|j: int| 0 <= j < i ==> out@[j] == fp_of_int(v@[j]),
                    decreases n - i,
                {
                    out.push(crate::fpbits::fp_from_i64(v[i]));
                    i = i + 1;
                }
                proof {
                    assert(out@ =~= v@.map_values(|x: i64| fp_of_int(x)));
                }
                out
            },
            RVecData::Bool(v) => {
                let mut out: Vec<u64> = Vec::new();
                let n = v.len();
                let mut i: usize = 0;
                while i < n
                    invariant
                        i <= n,
                        n == v@.len(),
                        out@.len() == i,
                        forall|j: int| 0 <= j < i ==> out@[j] == fp_of_int(bool_int(v@[j])),
                    decreases n - i,
                {
                    out.push(crate::fpbits::fp_from_i64(if v[i] {
                        1i64
                    } else {
                        0i64
                    }));
                    i = i + 1;
                }
                proof {
                    assert(out@ =~= v@.map_values(|b: bool| fp_of_int(bool_int(b))));
                }
                out
            },
            _ => {
                proof {
                    assert(false);
                }
                Vec::new()
            },
        }
    }
}

/// Concatenates two string vectors, keeping order.
pub fn concat_str_str(a: &Vec<String>, b: &Vec<String>) -> (r: Vec<String>)
    ensures
        r.deep_view() == a.deep_view() + b.deep_view(),
{
    let mut out: Vec<String> = Vec::new();
    let mut i: usize = 0;
    let la = a.len();
    while i < la
        invariant
            i <= la,
            la == a@.len(),
            out@.len() == i,
            forall|j: int| 0 <= j < i ==> out.deep_view()[j] == a.deep_view()[j],
        decreases la - i,
    {
        out.push(a[i].clone());
        i = i + 1;
    }
    let lb = b.len();
    let mut k: usize = 0;
    while k < lb
        invariant
            k <= lb,
            la == a@.len(),
            lb == b@.len(),
            out@.len() == la + k,
            forall|j: int| 0 <= j < la ==> out.deep_view()[j] == a.deep_view()[j],
            forall|j: int| 0 <= j < k ==> out.deep_view()[la + j] == b.deep_view()[j],
        decreases lb - k,
    {
        out.push(b[k].clone());
        k = k + 1;
    }
    proof {
        assert(out.deep_view() =~= a.deep_view() + b.deep_view());
    }
    out
}

/// Concatenates two boolean vectors, keeping order.
pub fn concat_bool_bool(a: &Vec<bool>, b: &Vec<bool>) -> (r: Vec<bool>)
    ensures
        r@ == a@ + b@,
{
    let mut out: Vec<bool> = Vec::new();
    let mut i: usize = 0;
    let la = a.len();
    while i < la
        invariant
            i <= la,
            la == a@.len(),
            out@ == a@.take(i as int),
        decreases la - i,
    {
        out.push(a[i]);
        i = i + 1;
    }
    let lb = b.len();
    let mut k: usize = 0;
    while k < lb
        invariant
            k <= lb,
            la == a@.len(),
            lb == b@.len(),
            out@ == a@ + b@.take(k as int),
        decreases lb - k,
    {
        out.push(b[k]);
        k = k + 1;
    }
    proof {
        assert(b@.take(lb as int) =~= b@);
    }
    out
}

} // verus!
