//! Conversions between element kinds: elementwise stringification (total),
//! the cast to a float vector (integers and floats only; booleans take part
//! in arithmetic through the promotion table, not through casts), and the
//! companion numeric parser that reads stringified vectors back.
use vstd::prelude::*;

use crate::fpbits::{fp_of_int, fp_trunc, fp_dec_str, fp_parse};
use crate::fpbits::{fp_from_i64, fp_to_i64, fp_to_text, fp_from_text};
use crate::numtext::{int_text, int_parse, bool_text, bool_parse};
use crate::numtext::{int_to_text, text_to_int, bool_to_text, text_to_bool};
use crate::value::{RVecData, Model, ElementKind, Operator, OpError};
use crate::value::{kind_of, out_view, bool_int};
use crate::arith::type_err;

verus! {

/// Elementwise stringification: integers and booleans render canonically,
/// floats render in the decimal form of the float layer, strings stay.
pub open spec fn to_string_model(m: Model) -> Model {
    match m {
        Model::Int(s) => Model::Str(s.map_values(|x: i64| int_text(x as int))),
        Model::Float(s) => Model::Str(s.map_values(|x: u64| fp_dec_str(x))),
        Model::Str(s) => Model::Str(s),
        Model::Bool(s) => Model::Str(s.map_values(|b: bool| bool_text(b))),
    }
}

/// The cast to a float vector: succeeds exactly for the integer and float
/// kinds; strings and booleans are a type error.
pub open spec fn to_float_model(m: Model) -> Result<Model, OpError> {
    match m {
        Model::Int(s) => Ok(Model::Float(s.map_values(|x: i64| fp_of_int(x)))),
        Model::Float(s) => Ok(Model::Float(s)),
        _ => Err(type_err(Operator::Cast, kind_of(m), kind_of(m))),
    }
}

/// The cast to an integer vector: integers stay, floats truncate toward
/// zero, booleans count as 0 and 1; strings are a type error.
pub open spec fn to_integer_model(m: Model) -> Result<Model, OpError> {
    match m {
        Model::Int(s) => Ok(Model::Int(s)),
        Model::Float(s) => Ok(Model::Int(s.map_values(|x: u64| fp_trunc(x)))),
        Model::Bool(s) => Ok(Model::Int(s.map_values(|b: bool| bool_int(b)))),
        Model::Str(_) => Err(type_err(Operator::Cast, kind_of(m), kind_of(m))),
    }
}

/// The companion parser: a string vector read back elementwise as the target
/// kind; `None` if the value is not a string vector or any element fails to
/// parse.
pub open spec fn parse_back_model(m: Model, target: ElementKind) -> Option<Model> {
    match m {
        Model::Str(s) => match target {
            ElementKind::Integer => if forall|k: int| 0 <= k < s.len() ==> int_parse(s[k]) is Some {
                Some(Model::Int(s.map_values(|t: Seq<char>| int_parse(t).unwrap())))
            } else {
                None
            },
            ElementKind::Float => if forall|k: int| 0 <= k < s.len() ==> fp_parse(s[k]) is Some {
                Some(Model::Float(s.map_values(|t: Seq<char>| fp_parse(t).unwrap())))
            } else {
                None
            },
            ElementKind::Boolean => if forall|k: int|
                0 <= k < s.len() ==> bool_parse(s[k]) is Some {
                Some(Model::Bool(s.map_values(|t: Seq<char>| bool_parse(t).unwrap())))
            } else {
                None
            },
            ElementKind::Str => Some(Model::Str(s)),
        },
        _ => None,
    }
}

pub open spec fn opt_view(r: Option<RVecData>) -> Option<Model> {
    match r {
        Some(v) => Some(v@),
        None => None,
    }
}

impl RVecData {
    /// Elementwise stringification to a string vector; total, never fails.
    pub fn to_string_vector(&self) -> (r: RVecData)
        ensures
            r@ == to_string_model(self@),
    {
        match self {
            RVecData::Int(v) => {
                let n = v.len();
                let mut out: Vec<String> = Vec::new();
                let mut i: usize = 0;
                while i < n
                    invariant
                        i <= n,
                        n == v@.len(),
                        out@.len() == i,
                        forall|j: int| 0 <= j < i ==> out@[j]@ == int_text(v@[j] as int),
                    decreases n - i,
                {
                    out.push(int_to_text(v[i]));
                    i = i + 1;
                }
                proof {
                    assert(out.deep_view() =~= v@.map_values(|x: i64| int_text(x as int)));
                }
                RVecData::Str(out)
            },
            RVecData::Float(v) => {
                let n = v.len();
                let mut out: Vec<String> = Vec::new();
                let mut i: usize = 0;
                while i < n
                    invariant
                        i <= n,
                        n == v@.len(),
                        out@.len() == i,
                        forall|j: int| 0 <= j < i ==> out@[j]@ == fp_dec_str(v@[j]),
                    decreases n - i,
                {
                    out.push(fp_to_text(v[i]));
                    i = i + 1;
                }
                proof {
                    assert(out.deep_view() =~= v@.map_values(|x: u64| fp_dec_str(x)));
                }
                RVecData::Str(out)
            },
            RVecData::Str(v) => {
                let n = v.len();
                let mut out: Vec<String> = Vec::new();
                let mut i: usize = 0;
                while i < n
                    invariant
                        i <= n,
                        n == v@.len(),
                        out@.len() == i,
                        forall|j: int| 0 <= j < i ==> out@[j]@ == v@[j]@,
                    decreases n - i,
                {
                    out.push(v[i].clone());
                    i = i + 1;
                }
                proof {
                    assert(out.deep_view() =~= v.deep_view());
                }
                RVecData::Str(out)
            },
            RVecData::Bool(v) => {
                let n = v.len();
                let mut out: Vec<String> = Vec::new();
                let mut i: usize = 0;
                while i < n
                    invariant
                        i <= n,
                        n == v@.len(),
                        out@.len() == i,
                        forall|j: int| 0 <= j < i ==> out@[j]@ == bool_text(v@[j]),
                    decreases n - i,
                {
                    out.push(bool_to_text(v[i]));
                    i = i + 1;
                }
                proof {
                    assert(out.deep_view() =~= v@.map_values(|b: bool| bool_text(b)));
                }
                RVecData::Str(out)
            },
        }
    }

    /// Converts to a float vector: succeeds for the integer and float kinds,
    /// fails with a type error for strings and booleans.
    pub fn to_float_vector(&self) -> (r: Result<RVecData, OpError>)
        ensures
            out_view(r) == to_float_model(self@),
    {
        match self {
            RVecData::Int(v) => {
                let n = v.len();
                let mut out: Vec<u64> = Vec::new();
                let mut i: usize = 0;
                while i < n
                    invariant
                        i <= n,
                        n == v@.len(),
                        out@.len() == i,
                        forall|j: int| 0 <= j < i ==> out@[j] == fp_of_int(v@[j]),
                    decreases n - i,
                {
                    out.push(fp_from_i64(v[i]));
                    i = i + 1;
                }
                proof {
                    assert(out@ =~= v@.map_values(|x: i64| fp_of_int(x)));
                }
                Ok(RVecData::Float(out))
            },
            RVecData::Float(v) => {
                let c = v.clone();
                proof {
                    assert(c@ =~= v@);
                }
                Ok(RVecData::Float(c))
            },
            _ => Err(
                OpError::TypeError {
                    operator: Operator::Cast,
                    left_kind: self.element_type(),
                    right_kind: self.element_type(),
                },
            ),
        }
    }

    /// Converts to an integer vector: floats truncate toward zero (saturating
    /// at the 64-bit bounds, NaN to 0), booleans count as 0 and 1; strings
    /// are a type error.
    pub fn to_integer_vector(&self) -> (r: Result<RVecData, OpError>)
        ensures
            out_view(r) == to_integer_model(self@),
    {
        match self {
            RVecData::Int(v) => {
                let c = v.clone();
                proof {
                    assert(c@ =~= v@);
                }
                Ok(RVecData::Int(c))
            },
            RVecData::Float(v) => {
                let n = v.len();
                let mut out: Vec<i64> = Vec::new();
                let mut i: usize = 0;
                while i < n
                    invariant
                        i <= n,
                        n == v@.len(),
                        out@.len() == i,
                        forall|j: int| 0 <= j < i ==> out@[j] == fp_trunc(v@[j]),
                    decreases n - i,
                {
                    out.push(fp_to_i64(v[i]));
                    i = i + 1;
                }
                proof {
                    assert(out@ =~= v@.map_values(|x: u64| fp_trunc(x)));
                }
                Ok(RVecData::Int(out))
            },
            RVecData::Bool(v) => {
                let out = self.int_elems();
                proof {
                    assert(out@ =~= v@.map_values(|b: bool| bool_int(b)));
                }
                Ok(RVecData::Int(out))
            },
            RVecData::Str(_) => Err(
                OpError::TypeError {
                    operator: Operator::Cast,
                    left_kind: ElementKind::Str,
                    right_kind: ElementKind::Str,
                },
            ),
        }
    }

    /// Reads a string vector back elementwise as the target kind; `None` if
    /// this value is not a string vector or an element does not parse.
    pub fn parse_numbers(&self, target: ElementKind) -> (r: Option<RVecData>)
        ensures
            opt_view(r) == parse_back_model(self@, target),
    {
        match self {
            RVecData::Str(v) => {
                let n = v.len();
                match target {
                    ElementKind::Integer => {
                        let mut out: Vec<i64> = Vec::new();
                        let mut i: usize = 0;
                        while i < n
                            invariant
                                i <= n,
                                n == v@.len(),
                                self@ == Model::Str(v.deep_view()),
                                target == ElementKind::Integer,
                                out@.len() == i,
                                forall|j: int|
                                    0 <= j < i ==> #[trigger] int_parse(v.deep_view()[j]) is Some,
                                forall|j: int|
                                    0 <= j < i ==> #[trigger] out@[j] == int_parse(
                                        v.deep_view()[j],
                                    ).unwrap(),
                            decreases n - i,
                        {
                            proof {
                                assert(v.deep_view()[i as int] == v@[i as int]@);
                            }
                            let elem = v[i].as_str();
                            proof {
                                assert(elem@ == v.deep_view()[i as int]);
                            }
                            match text_to_int(elem) {
                                Some(x) => {
                                    out.push(x);
                                    proof {
                                        assert(int_parse(v.deep_view()[i as int]) is Some);
                                        assert(out@[i as int] == int_parse(
                                            v.deep_view()[i as int],
                                        ).unwrap());
                                    }
                                },
                                None => {
                                    proof {
                                        assert(int_parse(v.deep_view()[i as int]) is None);
                                    }
                                    return None;
                                },
                            }
                            i = i + 1;
                        }
                        proof {
                            assert(out@ =~= v.deep_view().map_values(
                                |t: Seq<char>| int_parse(t).unwrap(),
                            ));
                        }
                        Some(RVecData::Int(out))
                    },
                    ElementKind::Float => {
                        let mut out: Vec<u64> = Vec::new();
                        let mut i: usize = 0;
                        while i < n
                            invariant
                                i <= n,
                                n == v@.len(),
                                self@ == Model::Str(v.deep_view()),
                                target == ElementKind::Float,
                                out@.len() == i,
                                forall|j: int|
                                    0 <= j < i ==> #[trigger] fp_parse(v.deep_view()[j]) is Some,
                                forall|j: int|
                                    0 <= j < i ==> #[trigger] out@[j] == fp_parse(
                                        v.deep_view()[j],
                                    ).unwrap(),
                            decreases n - i,
                        {
                            proof {
                                assert(v.deep_view()[i as int] == v@[i as int]@);
                            }
                            match fp_from_text(v[i].as_str()) {
                                Some(x) => {
                                    out.push(x);
                                },
                                None => {
                                    proof {
                                        assert(fp_parse(v.deep_view()[i as int]) is None);
                                    }
                                    return None;
                                },
                            }
                            i = i + 1;
                        }
                        proof {
                            assert(out@ =~= v.deep_view().map_values(
                                |t: Seq<char>| fp_parse(t).unwrap(),
                            ));
                        }
                        Some(RVecData::Float(out))
                    },
                    ElementKind::Boolean => {
                        let mut out: Vec<bool> = Vec::new();
                        let mut i: usize = 0;
                        while i < n
                            invariant
                                i <= n,
                                n == v@.len(),
                                self@ == Model::Str(v.deep_view()),
                                target == ElementKind::Boolean,
                                out@.len() == i,
                                forall|j: int|
                                    0 <= j < i ==> #[trigger] bool_parse(v.deep_view()[j]) is Some,
                                forall|j: int|
                                    0 <= j < i ==> #[trigger] out@[j] == bool_parse(
                                        v.deep_view()[j],
                                    ).unwrap(),
                            decreases n - i,
                        {
                            proof {
                                assert(v.deep_view()[i as int] == v@[i as int]@);
                            }
                            match text_to_bool(v[i].as_str()) {
                                Some(x) => {
                                    out.push(x);
                                },
                                None => {
                                    proof {
                                        assert(bool_parse(v.deep_view()[i as int]) is None);
                                    }
                                    return None;
                                },
                            }
                            i = i + 1;
                        }
                        proof {
                            assert(out@ =~= v.deep_view().map_values(
                                |t: Seq<char>| bool_parse(t).unwrap(),
                            ));
                        }
                        Some(RVecData::Bool(out))
                    },
                    ElementKind::Str => {
                        let mut out: Vec<String> = Vec::new();
                        let mut i: usize = 0;
                        while i < n
                            invariant
                                i <= n,
                                n == v@.len(),
                                out@.len() == i,
                                forall|j: int| 0 <= j < i ==> out@[j]@ == v@[j]@,
                            decreases n - i,
                        {
                            out.push(v[i].clone());
                            i = i + 1;
                        }
                        proof {
                            assert(out.deep_view() =~= v.deep_view());
                        }
                        Some(RVecData::Str(out))
                    },
                }
            },
            _ => None,
        }
    }
}

} // verus!
