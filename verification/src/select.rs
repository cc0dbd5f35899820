//! Selection: a single (possibly negative) index, a list of positions
//! (fancy indexing: duplicates and arbitrary order allowed), a boolean mask
//! of the operand's length, or a slice descriptor walked with a step.
//!
//! Negative indices resolve by adding the operand length, as the source
//! language does. A slice bound may also resolve to the length itself (an
//! exclusive end); a step of zero is an index error, reported with index 0.
//! For a negative step, an omitted start means the last element, an omitted
//! stop means one before the first, and an explicit start that resolves to
//! the length is clamped to the last element.
use vstd::prelude::*;

use crate::value::{RVecData, Model, Operator, OpError};
use crate::value::{kind_of, mlen, out_view};
use crate::arith::type_err;

verus! {

/// How one vector selects from another: the index forms of the engine.
#[derive(Debug)]
pub enum SelectionIndex {
    Single(i64),
    Positions(Vec<i64>),
    Mask(Vec<bool>),
    Slice { start: Option<i64>, stop: Option<i64>, step: Option<i64> },
}

/// Ghost model of a selection index.
pub enum SelModel {
    Single(i64),
    Positions(Seq<i64>),
    Mask(Seq<bool>),
    Slice { start: Option<i64>, stop: Option<i64>, step: Option<i64> },
}

impl View for SelectionIndex {
    type V = SelModel;

    open spec fn view(&self) -> SelModel {
        match self {
            SelectionIndex::Single(i) => SelModel::Single(*i),
            SelectionIndex::Positions(ps) => SelModel::Positions(ps@),
            SelectionIndex::Mask(m) => SelModel::Mask(m@),
            SelectionIndex::Slice { start, stop, step } => SelModel::Slice {
                start: *start,
                stop: *stop,
                step: *step,
            },
        }
    }
}

/// A possibly negative index resolved against a length.
pub open spec fn resolve_index(i: i64, len: nat) -> int {
    if i < 0 {
        i + len
    } else {
        i as int
    }
}

pub open spec fn index_ok(i: i64, len: nat) -> bool {
    0 <= resolve_index(i, len) < len
}

/// A slice bound may also resolve to the length itself.
pub open spec fn bound_ok(i: i64, len: nat) -> bool {
    0 <= resolve_index(i, len) <= len
}

/// The elements of `m` at the given (resolved, in-range) positions, in the
/// order the positions come.
pub open spec fn gather(m: Model, ps: Seq<int>) -> Model {
    match m {
        Model::Int(s) => Model::Int(ps.map_values(|p: int| s[p])),
        Model::Float(s) => Model::Float(ps.map_values(|p: int| s[p])),
        Model::Str(s) => Model::Str(ps.map_values(|p: int| s[p])),
        Model::Bool(s) => Model::Bool(ps.map_values(|p: int| s[p])),
    }
}

/// The elements of `s` kept where the mask is true, order preserved.
pub open spec fn masked_seq<T>(s: Seq<T>, m: Seq<bool>) -> Seq<T>
    decreases s.len(),
{
    if s.len() == 0 {
        Seq::empty()
    } else {
        masked_seq(s.drop_last(), m.drop_last()) + if m[s.len() - 1] {
            seq![s.last()]
        } else {
            Seq::empty()
        }
    }
}

pub open spec fn masked(v: Model, m: Seq<bool>) -> Model {
    match v {
        Model::Int(s) => Model::Int(masked_seq(s, m)),
        Model::Float(s) => Model::Float(masked_seq(s, m)),
        Model::Str(s) => Model::Str(masked_seq(s, m)),
        Model::Bool(s) => Model::Bool(masked_seq(s, m)),
    }
}

/// The position, in a list of indices, of the first one that does not
/// resolve into the operand.
pub open spec fn first_bad(ps: Seq<i64>, len: nat) -> int
    decreases ps.len(),
{
    if ps.len() == 0 {
        0
    } else if !index_ok(ps[0], len) {
        0
    } else {
        1 + first_bad(ps.skip(1), len)
    }
}

/// Positions resolved against a length: every index resolves with the
/// wraparound rule, or the first offending index is reported.
pub open spec fn positions_model(ps: Seq<i64>, len: nat) -> Result<Seq<int>, OpError> {
    if forall|k: int| 0 <= k < ps.len() ==> index_ok(ps[k], len) {
        Ok(ps.map_values(|p: i64| resolve_index(p, len)))
    } else {
        Err(OpError::IndexError { index: ps[first_bad(ps, len)], length: len as usize })
    }
}

/// The positions a slice walks: from `cur`, stepping by `step`, up to (for a
/// positive step) or down to (negative) the exclusive bound `stop`.
pub open spec fn stride(cur: int, stop: int, step: int) -> Seq<int>
    decreases
            (if step > 0 && stop - cur >= 0 {
                stop - cur
            } else if step < 0 && cur - stop >= 0 {
                cur - stop
            } else {
                0int
            }),
{
    if step > 0 {
        if cur >= stop {
            Seq::empty()
        } else {
            seq![cur] + stride(cur + step, stop, step)
        }
    } else if step < 0 {
        if cur <= stop {
            Seq::empty()
        } else {
            seq![cur] + stride(cur + step, stop, step)
        }
    } else {
        Seq::empty()
    }
}

/// The first walked position of a slice.
pub open spec fn slice_first(start: Option<i64>, st: i64, len: nat) -> int {
    match start {
        Some(b) => if st < 0 && resolve_index(b, len) == len {
            len - 1
        } else {
            resolve_index(b, len)
        },
        None => if st > 0 {
            0
        } else {
            len - 1
        },
    }
}

/// The exclusive bound of a slice walk.
pub open spec fn slice_bound(stop: Option<i64>, st: i64, len: nat) -> int {
    match stop {
        Some(b) => resolve_index(b, len),
        None => if st > 0 {
            len as int
        } else {
            -1
        },
    }
}

/// A slice descriptor resolved to walked positions, or its error: a zero
/// step, or a bound that resolves outside the operand.
pub open spec fn slice_positions(
    start: Option<i64>,
    stop: Option<i64>,
    step: Option<i64>,
    len: nat,
) -> Result<Seq<int>, OpError> {
    let st: i64 = match step {
        Some(v) => v,
        None => 1i64,
    };
    if st == 0 {
        Err(OpError::IndexError { index: 0, length: len as usize })
    } else if start matches Some(b) && !bound_ok(start.unwrap(), len) {
        Err(OpError::IndexError { index: start.unwrap(), length: len as usize })
    } else if stop matches Some(b) && !bound_ok(stop.unwrap(), len) {
        Err(OpError::IndexError { index: stop.unwrap(), length: len as usize })
    } else {
        Ok(stride(slice_first(start, st, len), slice_bound(stop, st, len), st as int))
    }
}

/// What selection returns for each index form.
pub open spec fn select_model(v: Model, ix: SelModel) -> Result<Model, OpError> {
    let len = mlen(v);
    match ix {
        SelModel::Single(i) => if index_ok(i, len) {
            Ok(gather(v, seq![resolve_index(i, len)]))
        } else {
            Err(OpError::IndexError { index: i, length: len as usize })
        },
        SelModel::Positions(ps) => match positions_model(ps, len) {
            Ok(rs) => Ok(gather(v, rs)),
            Err(e) => Err(e),
        },
        SelModel::Mask(m) => if m.len() != len {
            Err(OpError::LengthMismatch { left_len: len as usize, right_len: m.len() as usize })
        } else {
            Ok(masked(v, m))
        },
        SelModel::Slice { start, stop, step } => match slice_positions(start, stop, step, len) {
            Ok(rs) => Ok(gather(v, rs)),
            Err(e) => Err(e),
        },
    }
}

/// What indexing by another vector returns: an integer vector selects by
/// positions, a boolean vector by mask, anything else is a type error.
pub open spec fn getindex_model(v: Model, ix: Model) -> Result<Model, OpError> {
    match ix {
        Model::Int(ps) => select_model(v, SelModel::Positions(ps)),
        Model::Bool(m) => select_model(v, SelModel::Mask(m)),
        _ => Err(type_err(Operator::Index, kind_of(v), kind_of(ix))),
    }
}

proof fn lemma_first_bad_at(ps: Seq<i64>, len: nat, i: int)
    requires
        0 <= i < ps.len(),
        forall|k: int| 0 <= k < i ==> index_ok(ps[k], len),
        !index_ok(ps[i], len),
    ensures
        first_bad(ps, len) == i,
    decreases i,
{
    if i > 0 {
        lemma_first_bad_at(ps.skip(1), len, i - 1);
    }
}

fn resolve_one(p: i64, len: usize) -> (r: Option<usize>)
    ensures
        r matches Some(u) ==> index_ok(p, len as nat) && u as int == resolve_index(
            p,
            len as nat,
        ),
        r is None ==> !index_ok(p, len as nat),
{
    let resolved: i128 = if p < 0 {
        p as i128 + len as i128
    } else {
        p as i128
    };
    if 0 <= resolved && resolved < len as i128 {
        Some(resolved as usize)
    } else {
        None
    }
}

fn resolve_positions_exec(ps: &Vec<i64>, len: usize) -> (r: Result<Vec<usize>, OpError>)
    ensures
        match (r, positions_model(ps@, len as nat)) {
            (Ok(v), Ok(s)) => v@.map_values(|u: usize| u as int) == s && forall|k: int|
                0 <= k < v@.len() ==> (v@[k] as int) < len,
            (Err(e1), Err(e2)) => e1 == e2,
            _ => false,
        },
{
    let n = ps.len();
    let mut out: Vec<usize> = Vec::new();
    let mut i: usize = 0;
    while i < n
        invariant
            i <= n,
            n == ps@.len(),
            out@.len() == i,
            forall|k: int| 0 <= k < i ==> index_ok(ps@[k], len as nat),
            forall|k: int|
                0 <= k < i ==> (out@[k] as int) == resolve_index(ps@[k], len as nat) && (out@[k]
                    as int) < len,
        decreases n - i,
    {
        match resolve_one(ps[i], len) {
            Some(u) => {
                out.push(u);
            },
            None => {
                proof {
                    lemma_first_bad_at(ps@, len as nat, i as int);
                }
                return Err(OpError::IndexError { index: ps[i], length: len });
            },
        }
        i = i + 1;
    }
    proof {
        assert(out@.map_values(|u: usize| u as int) =~= ps@.map_values(
            |p: i64| resolve_index(p, len as nat),
        ));
    }
    Ok(out)
}

fn gather_exec(v: &RVecData, ps: &Vec<usize>) -> (r: RVecData)
    requires
        forall|k: int| 0 <= k < ps@.len() ==> (ps@[k] as int) < mlen(v@),
    ensures
        r@ == gather(v@, ps@.map_values(|u: usize| u as int)),
{
    let n = ps.len();
    match v {
        RVecData::Int(x) => {
            let mut out: Vec<i64> = Vec::new();
            let mut i: usize = 0;
            while i < n
                invariant
                    i <= n,
                    n == ps@.len(),
                    forall|k: int| 0 <= k < n ==> (ps@[k] as int) < x@.len(),
                    out@.len() == i,
                    forall|k: int| 0 <= k < i ==> out@[k] == x@[ps@[k] as int],
                decreases n - i,
            {
                out.push(x[ps[i]]);
                i = i + 1;
            }
            proof {
                assert(out@ =~= ps@.map_values(|u: usize| u as int).map_values(
                    |p: int| x@[p],
                ));
            }
            RVecData::Int(out)
        },
        RVecData::Float(x) => {
            let mut out: Vec<u64> = Vec::new();
            let mut i: usize = 0;
            while i < n
                invariant
                    i <= n,
                    n == ps@.len(),
                    forall|k: int| 0 <= k < n ==> (ps@[k] as int) < x@.len(),
                    out@.len() == i,
                    forall|k: int| 0 <= k < i ==> out@[k] == x@[ps@[k] as int],
                decreases n - i,
            {
                out.push(x[ps[i]]);
                i = i + 1;
            }
            proof {
                assert(out@ =~= ps@.map_values(|u: usize| u as int).map_values(
                    |p: int| x@[p],
                ));
            }
            RVecData::Float(out)
        },
        RVecData::Str(x) => {
            let mut out: Vec<String> = Vec::new();
            let mut i: usize = 0;
            while i < n
                invariant
                    i <= n,
                    n == ps@.len(),
                    forall|k: int| 0 <= k < n ==> (ps@[k] as int) < x@.len(),
                    out@.len() == i,
                    forall|k: int| 0 <= k < i ==> out@[k]@ == x@[ps@[k] as int]@,
                decreases n - i,
            {
                out.push(x[ps[i]].clone());
                i = i + 1;
            }
            proof {
                assert(out.deep_view() =~= ps@.map_values(|u: usize| u as int).map_values(
                    |p: int| x.deep_view()[p],
                ));
            }
            RVecData::Str(out)
        },
        RVecData::Bool(x) => {
            let mut out: Vec<bool> = Vec::new();
            let mut i: usize = 0;
            while i < n
                invariant
                    i <= n,
                    n == ps@.len(),
                    forall|k: int| 0 <= k < n ==> (ps@[k] as int) < x@.len(),
                    out@.len() == i,
                    forall|k: int| 0 <= k < i ==> out@[k] == x@[ps@[k] as int],
                decreases n - i,
            {
                out.push(x[ps[i]]);
                i = i + 1;
            }
            proof {
                assert(out@ =~= ps@.map_values(|u: usize| u as int).map_values(
                    |p: int| x@[p],
                ));
            }
            RVecData::Bool(out)
        },
    }
}

fn masked_copy<T: Copy>(xs: &Vec<T>, m: &Vec<bool>) -> (out: Vec<T>)
    requires
        xs@.len() == m@.len(),
    ensures
        out@ == masked_seq(xs@, m@),
{
    let n = xs.len();
    let mut out: Vec<T> = Vec::new();
    let mut i: usize = 0;
    proof {
        assert(masked_seq(xs@.take(0), m@.take(0)) =~= Seq::<T>::empty());
    }
    while i < n
        invariant
            i <= n,
            n == xs@.len(),
            n == m@.len(),
            out@ == masked_seq(xs@.take(i as int), m@.take(i as int)),
        decreases n - i,
    {
        proof {
            assert(xs@.take(i + 1).drop_last() =~= xs@.take(i as int));
            assert(m@.take(i + 1).drop_last() =~= m@.take(i as int));
            assert(xs@.take(i + 1).last() == xs@[i as int]);
            assert(m@.take(i + 1)[xs@.take(i + 1).len() - 1] == m@[i as int]);
        }
        if m[i] {
            out.push(xs[i]);
        }
        i = i + 1;
    }
    proof {
        assert(xs@.take(n as int) =~= xs@);
        assert(m@.take(n as int) =~= m@);
    }
    out
}

fn masked_strings(xs: &Vec<String>, m: &Vec<bool>) -> (out: Vec<String>)
    requires
        xs@.len() == m@.len(),
    ensures
        out.deep_view() == masked_seq(xs.deep_view(), m@),
{
    let n = xs.len();
    let mut out: Vec<String> = Vec::new();
    let mut i: usize = 0;
    proof {
        assert(masked_seq(xs.deep_view().take(0), m@.take(0)) =~= Seq::<Seq<char>>::empty());
        assert(out.deep_view() =~= Seq::<Seq<char>>::empty());
    }
    while i < n
        invariant
            i <= n,
            n == xs@.len(),
            n == m@.len(),
            out.deep_view() == masked_seq(xs.deep_view().take(i as int), m@.take(i as int)),
        decreases n - i,
    {
        proof {
            assert(xs.deep_view().take(i + 1).drop_last() =~= xs.deep_view().take(i as int));
            assert(m@.take(i + 1).drop_last() =~= m@.take(i as int));
            assert(xs.deep_view().take(i + 1).last() == xs.deep_view()[i as int]);
            assert(m@.take(i + 1)[xs.deep_view().take(i + 1).len() - 1] == m@[i as int]);
        }
        let ghost prev = out.deep_view();
        if m[i] {
            out.push(xs[i].clone());
            proof {
                assert(out.deep_view() =~= prev + seq![xs.deep_view()[i as int]]);
            }
        } else {
            proof {
                assert(out.deep_view() =~= prev + Seq::<Seq<char>>::empty());
            }
        }
        i = i + 1;
    }
    proof {
        assert(xs.deep_view().take(n as int) =~= xs.deep_view());
        assert(m@.take(n as int) =~= m@);
    }
    out
}

fn slice_positions_exec(
    start: Option<i64>,
    stop: Option<i64>,
    step: Option<i64>,
    len: usize,
) -> (r: Result<Vec<usize>, OpError>)
    ensures
        match (r, slice_positions(start, stop, step, len as nat)) {
            (Ok(v), Ok(s)) => v@.map_values(|u: usize| u as int) == s && forall|k: int|
                0 <= k < v@.len() ==> (v@[k] as int) < len,
            (Err(e1), Err(e2)) => e1 == e2,
            _ => false,
        },
{
    let st: i64 = match step {
        Some(v) => v,
        None => 1i64,
    };
    if st == 0 {
        return Err(OpError::IndexError { index: 0, length: len });
    }
    let rstart: i128 = match start {
        Some(b) => {
            let rb: i128 = if b < 0 {
                b as i128 + len as i128
            } else {
                b as i128
            };
            if !(0 <= rb && rb <= len as i128) {
                return Err(OpError::IndexError { index: b, length: len });
            }
            if st < 0 && rb == len as i128 {
                rb - 1
            } else {
                rb
            }
        },
        None => {
            if st > 0 {
                0
            } else {
                len as i128 - 1
            }
        },
    };
    let rstop: i128 = match stop {
        Some(b) => {
            let rb: i128 = if b < 0 {
                b as i128 + len as i128
            } else {
                b as i128
            };
            if !(0 <= rb && rb <= len as i128) {
                return Err(OpError::IndexError { index: b, length: len });
            }
            rb
        },
        None => {
            if st > 0 {
                len as i128
            } else {
                -1
            }
        },
    };
    proof {
        assert(rstart as int == slice_first(start, st, len as nat));
        assert(rstop as int == slice_bound(stop, st, len as nat));
    }
    let mut out: Vec<usize> = Vec::new();
    let mut cur: i128 = rstart;
    if st > 0 {
        proof {
            assert(out@.map_values(|u: usize| u as int) =~= Seq::<int>::empty());
        }
        while cur < rstop
            invariant
                st > 0,
                rstart <= cur,
                rstart >= 0,
                rstop <= len as i128,
                stride(rstart as int, rstop as int, st as int) == out@.map_values(
                    |u: usize| u as int,
                ) + stride(cur as int, rstop as int, st as int),
                forall|k: int| 0 <= k < out@.len() ==> (out@[k] as int) < len,
            decreases (if rstop - cur >= 0 { rstop - cur } else { 0int }),
        {
            let ghost prev = out@.map_values(|u: usize| u as int);
            out.push(cur as usize);
            proof {
                assert(out@.map_values(|u: usize| u as int) =~= prev + seq![cur as int]);
                assert(stride(cur as int, rstop as int, st as int) == seq![cur as int] + stride(
                    cur as int + st as int,
                    rstop as int,
                    st as int,
                ));
                assert(prev + (seq![cur as int] + stride(
                    cur as int + st as int,
                    rstop as int,
                    st as int,
                )) =~= (prev + seq![cur as int]) + stride(
                    cur as int + st as int,
                    rstop as int,
                    st as int,
                ));
            }
            cur = cur + st as i128;
        }
    } else {
        proof {
            assert(out@.map_values(|u: usize| u as int) =~= Seq::<int>::empty());
        }
        while cur > rstop
            invariant
                st < 0,
                cur <= rstart,
                rstart < len as i128,
                rstop >= -1,
                stride(rstart as int, rstop as int, st as int) == out@.map_values(
                    |u: usize| u as int,
                ) + stride(cur as int, rstop as int, st as int),
                forall|k: int| 0 <= k < out@.len() ==> (out@[k] as int) < len,
            decreases (if cur - rstop >= 0 { cur - rstop } else { 0int }),
        {
            let ghost prev = out@.map_values(|u: usize| u as int);
            out.push(cur as usize);
            proof {
                assert(out@.map_values(|u: usize| u as int) =~= prev + seq![cur as int]);
                assert(stride(cur as int, rstop as int, st as int) == seq![cur as int] + stride(
                    cur as int + st as int,
                    rstop as int,
                    st as int,
                ));
                assert(prev + (seq![cur as int] + stride(
                    cur as int + st as int,
                    rstop as int,
                    st as int,
                )) =~= (prev + seq![cur as int]) + stride(
                    cur as int + st as int,
                    rstop as int,
                    st as int,
                ));
            }
            cur = cur + st as i128;
        }
    }
    proof {
        assert(stride(cur as int, rstop as int, st as int) =~= Seq::<int>::empty());
        assert(out@.map_values(|u: usize| u as int) + Seq::<int>::empty() =~= out@.map_values(
            |u: usize| u as int,
        ));
    }
    Ok(out)
}

impl RVecData {
    fn sel_positions(&self, ps: &Vec<i64>) -> (r: Result<RVecData, OpError>)
        ensures
            out_view(r) == select_model(self@, SelModel::Positions(ps@)),
    {
        let len = self.len();
        match resolve_positions_exec(ps, len) {
            Ok(rs) => Ok(gather_exec(self, &rs)),
            Err(e) => Err(e),
        }
    }

    fn sel_mask(&self, m: &Vec<bool>) -> (r: Result<RVecData, OpError>)
        ensures
            out_view(r) == select_model(self@, SelModel::Mask(m@)),
    {
        let len = self.len();
        if m.len() != len {
            return Err(OpError::LengthMismatch { left_len: len, right_len: m.len() });
        }
        match self {
            RVecData::Int(x) => Ok(RVecData::Int(masked_copy(x, m))),
            RVecData::Float(x) => Ok(RVecData::Float(masked_copy(x, m))),
            RVecData::Str(x) => Ok(RVecData::Str(masked_strings(x, m))),
            RVecData::Bool(x) => Ok(RVecData::Bool(masked_copy(x, m))),
        }
    }

    /// Selects by any index form: single index with negative wraparound
    /// (a length-1 result), position list, boolean mask, or slice walk.
    pub fn select(&self, index: &SelectionIndex) -> (r: Result<RVecData, OpError>)
        ensures
            out_view(r) == select_model(self@, index@),
    {
        match index {
            SelectionIndex::Single(i) => {
                let len = self.len();
                match resolve_one(*i, len) {
                    Some(u) => {
                        let mut ps: Vec<usize> = Vec::new();
                        ps.push(u);
                        let out = gather_exec(self, &ps);
                        proof {
                            assert(ps@.map_values(|u: usize| u as int) =~= seq![
                                resolve_index(*i, mlen(self@)),
                            ]);
                        }
                        Ok(out)
                    },
                    None => Err(OpError::IndexError { index: *i, length: len }),
                }
            },
            SelectionIndex::Positions(ps) => self.sel_positions(ps),
            SelectionIndex::Mask(m) => self.sel_mask(m),
            SelectionIndex::Slice { start, stop, step } => {
                let len = self.len();
                match slice_positions_exec(*start, *stop, *step, len) {
                    Ok(rs) => Ok(gather_exec(self, &rs)),
                    Err(e) => Err(e),
                }
            },
        }
    }

    /// Indexing by another vector value: an integer vector gathers by
    /// positions, a boolean vector filters by mask; other kinds are a type
    /// error.
    pub fn getindex(&self, index: &RVecData) -> (r: Result<RVecData, OpError>)
        ensures
            out_view(r) == getindex_model(self@, index@),
    {
        match index {
            RVecData::Int(ps) => self.sel_positions(ps),
            RVecData::Bool(m) => self.sel_mask(m),
            _ => Err(
                OpError::TypeError {
                    operator: Operator::Index,
                    left_kind: self.element_type(),
                    right_kind: index.element_type(),
                },
            ),
        }
    }
}

} // verus!
