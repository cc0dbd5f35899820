//! The general laws of the engine, stated and proved against the models that
//! the public operations are specified by.
use vstd::prelude::*;

use crate::value::{Model, ElementKind, Operator, OpError};
use crate::value::{kind_of, mlen, lens_compatible, joined_len, side_index};
use crate::value::{as_int_elems, as_fp_elems};
use crate::arith::{arith_model, arith_result_kind, int_combine, fp_combine, str_arith_elem};
use crate::arith::{str_repeat, type_err, len_err};
use crate::compare::cmp_model;
use crate::logic::logic_model;
use crate::select::{select_model, SelModel, gather, resolve_index, index_ok};
use crate::convert::{to_string_model, parse_back_model};
use crate::numtext::{int_text, int_parse, bool_text, bool_parse};
use crate::numtext::{lemma_int_text_round_trip, lemma_bool_text_round_trip};

verus! {

/// Promotion commutativity: addition and multiplication give the same result
/// in either order, wherever both orders are legal, for every operand pair
/// without a float side (the string-repetition pairs included, where the
/// count may stand on either side). Float elements are left out here: their
/// combination is delegated bit-for-bit to the outside IEEE-754
/// implementation, whose NaN results the contracts do not pin down to be
/// order-independent.
pub proof fn lemma_arith_commutes(op: Operator, a: Model, b: Model)
    requires
        op == Operator::Add || op == Operator::Multiply,
        kind_of(a) != ElementKind::Float,
        kind_of(b) != ElementKind::Float,
        !(kind_of(a) == ElementKind::Str && kind_of(b) == ElementKind::Str),
    ensures
        arith_model(op, a, b) matches Ok(_) ==> arith_model(op, a, b) == arith_model(op, b, a),
{
    let la = mlen(a);
    let lb = mlen(b);
    if lens_compatible(la, lb) && arith_result_kind(op, kind_of(a), kind_of(b)) is Some {
        let k = arith_result_kind(op, kind_of(a), kind_of(b)).unwrap();
        assert(arith_result_kind(op, kind_of(b), kind_of(a)) == Some(k));
        assert(joined_len(la, lb) == joined_len(lb, la));
        let n = joined_len(la, lb);
        if k == ElementKind::Integer {
            let xs = as_int_elems(a).unwrap();
            let ys = as_int_elems(b).unwrap();
            assert(Seq::new(
                n,
                |i: int| int_combine(op, xs[side_index(la, i)], ys[side_index(lb, i)]),
            ) =~= Seq::new(
                n,
                |i: int| int_combine(op, ys[side_index(lb, i)], xs[side_index(la, i)]),
            ));
        } else {
            assert(Seq::new(n, |i: int| str_arith_elem(a, b, la, lb, i)) =~= Seq::new(
                n,
                |i: int| str_arith_elem(b, a, lb, la, i),
            ));
        }
    }
}

/// Broadcast identity: combining a value with a scalar form (length 1)
/// equals combining each of its length-1 slices with that scalar, element by
/// element, for every arithmetic operator.
pub proof fn lemma_broadcast_scalar(op: Operator, a: Model, s: Model)
    requires
        op == Operator::Add || op == Operator::Subtract || op == Operator::Multiply || op
            == Operator::Divide,
        mlen(s) == 1,
    ensures
        arith_model(op, a, s) matches Ok(res) ==> mlen(res) == mlen(a) && forall|i: int|
            0 <= i < mlen(a) ==> arith_model(op, gather(a, seq![i]), s) == Ok::<
                Model,
                OpError,
            >(gather(res, seq![i])),
{
    let la = mlen(a);
    if lens_compatible(la, 1) && arith_result_kind(op, kind_of(a), kind_of(s)) is Some {
        let res = arith_model(op, a, s).unwrap();
        assert(mlen(res) == la);
        assert forall|i: int| 0 <= i < la implies arith_model(op, gather(a, seq![i]), s) == Ok::<
            Model,
            OpError,
        >(gather(res, seq![i])) by {
            let ai = gather(a, seq![i]);
            assert(mlen(ai) == 1);
            assert(kind_of(ai) == kind_of(a));
            let k = arith_result_kind(op, kind_of(a), kind_of(s)).unwrap();
            if k == ElementKind::Integer {
                let xs = as_int_elems(a).unwrap();
                let ys = as_int_elems(s).unwrap();
                let xi = as_int_elems(ai).unwrap();
                assert(xi =~= seq![xs[side_index(la, i)]]);
                assert(Seq::new(
                    1,
                    |j: int| int_combine(op, xi[side_index(1, j)], ys[side_index(1, j)]),
                ) =~= seq![int_combine(op, xs[side_index(la, i)], ys[0])]);
                assert(gather(res, seq![i]) == Model::Int(
                    seq![i].map_values(
                        |p: int| Seq::new(
                            la,
                            |j: int| int_combine(op, xs[side_index(la, j)], ys[side_index(1, j)]),
                        )[p],
                    ),
                ));
                assert(seq![i].map_values(
                    |p: int| Seq::new(
                        la,
                        |j: int| int_combine(op, xs[side_index(la, j)], ys[side_index(1, j)]),
                    )[p],
                ) =~= seq![int_combine(op, xs[side_index(la, i)], ys[0])]);
            } else if k == ElementKind::Float {
                let xs = as_fp_elems(a).unwrap();
                let ys = as_fp_elems(s).unwrap();
                let xi = as_fp_elems(ai).unwrap();
                assert(xi =~= seq![xs[side_index(la, i)]]);
                assert(Seq::new(
                    1,
                    |j: int| fp_combine(op, xi[side_index(1, j)], ys[side_index(1, j)]),
                ) =~= seq![fp_combine(op, xs[side_index(la, i)], ys[0])]);
                assert(seq![i].map_values(
                    |p: int| Seq::new(
                        la,
                        |j: int| fp_combine(op, xs[side_index(la, j)], ys[side_index(1, j)]),
                    )[p],
                ) =~= seq![fp_combine(op, xs[side_index(la, i)], ys[0])]);
            } else {
                assert(Seq::new(1, |j: int| str_arith_elem(ai, s, 1, 1, j)) =~= seq![
                    str_arith_elem(a, s, la, 1, i),
                ]);
                assert(seq![i].map_values(
                    |p: int| Seq::new(la, |j: int| str_arith_elem(a, s, la, 1, j))[p],
                ) =~= seq![str_arith_elem(a, s, la, 1, i)]);
            }
        }
    }
}

/// Division always floats: dividing one integer vector by another succeeds
/// on reconcilable lengths and the result is a float-kind vector of the
/// reconciled length, never an integer vector.
pub proof fn lemma_divide_always_floats(a: Model, b: Model)
    requires
        kind_of(a) == ElementKind::Integer,
        kind_of(b) == ElementKind::Integer,
        lens_compatible(mlen(a), mlen(b)),
    ensures
        arith_model(Operator::Divide, a, b) matches Ok(r) && kind_of(r) == ElementKind::Float
            && mlen(r) == joined_len(mlen(a), mlen(b)),
{
}

/// Boolean arithmetic versus comparison asymmetry: arithmetic accepts a
/// boolean beside an integer (the boolean counts as 0 or 1 and the result is
/// an integer vector), while the same pair under equality is a type error.
pub proof fn lemma_bool_asymmetry(a: Model, b: Model)
    requires
        kind_of(a) == ElementKind::Boolean,
        kind_of(b) == ElementKind::Integer,
        lens_compatible(mlen(a), mlen(b)),
    ensures
        arith_model(Operator::Add, a, b) matches Ok(r) && kind_of(r) == ElementKind::Integer
            && mlen(r) == joined_len(mlen(a), mlen(b)),
        cmp_model(Operator::Equals, a, b) == Err::<Model, OpError>(
            type_err(Operator::Equals, ElementKind::Boolean, ElementKind::Integer),
        ),
{
}

/// String repetition clamps: a non-positive repeat count yields the empty
/// string, never an error.
pub proof fn lemma_repeat_clamps(s: Seq<char>, n: int)
    requires
        n <= 0,
    ensures
        str_repeat(s, n) == Seq::<char>::empty(),
{
}

/// Length mismatch: whenever neither equal lengths nor a length-1 side
/// reconcile the operands, every binary operator family reports the two
/// lengths, whatever the element kinds.
pub proof fn lemma_length_mismatch(op: Operator, a: Model, b: Model)
    requires
        !lens_compatible(mlen(a), mlen(b)),
    ensures
        arith_model(op, a, b) == Err::<Model, OpError>(len_err(mlen(a), mlen(b))),
        cmp_model(op, a, b) == Err::<Model, OpError>(len_err(mlen(a), mlen(b))),
        logic_model(op, a, b) == Err::<Model, OpError>(len_err(mlen(a), mlen(b))),
{
}

/// Negative index wraparound: a negative single index selects the same
/// element as the index plus the length.
pub proof fn lemma_negative_index_wraparound(v: Model, i: i64)
    requires
        mlen(v) <= 0x7fff_ffff_ffff_ffff,
        -(mlen(v) as int) <= i < 0,
    ensures
        select_model(v, SelModel::Single(i)) == select_model(
            v,
            SelModel::Single((i + mlen(v)) as i64),
        ),
{
    let len = mlen(v);
    let j = (i + len) as i64;
    assert(resolve_index(i, len) == i + len);
    assert(resolve_index(j, len) == i + len);
    assert(index_ok(i, len) == index_ok(j, len));
}

/// Round-trip stringification for integer vectors: parsing the rendered
/// strings back as integers reproduces the vector.
pub proof fn lemma_int_round_trip(s: Seq<i64>)
    ensures
        parse_back_model(to_string_model(Model::Int(s)), ElementKind::Integer) == Some(
            Model::Int(s),
        ),
{
    let texts = s.map_values(|x: i64| int_text(x as int));
    let vals = texts.map_values(|t: Seq<char>| int_parse(t).unwrap());
    assert forall|k: int| 0 <= k < texts.len() implies int_parse(texts[k]) is Some by {
        lemma_int_text_round_trip(s[k]);
    }
    assert(vals =~= s) by {
        assert forall|k: int| 0 <= k < vals.len() implies vals[k] == s[k] by {
            lemma_int_text_round_trip(s[k]);
        }
    }
}

/// Round-trip stringification for boolean vectors.
pub proof fn lemma_bool_round_trip(s: Seq<bool>)
    ensures
        parse_back_model(to_string_model(Model::Bool(s)), ElementKind::Boolean) == Some(
            Model::Bool(s),
        ),
{
    let texts = s.map_values(|b: bool| bool_text(b));
    let vals = texts.map_values(|t: Seq<char>| bool_parse(t).unwrap());
    assert forall|k: int| 0 <= k < texts.len() implies bool_parse(texts[k]) is Some by {
        lemma_bool_text_round_trip(s[k]);
    }
    assert(vals =~= s) by {
        assert forall|k: int| 0 <= k < vals.len() implies vals[k] == s[k] by {
            lemma_bool_text_round_trip(s[k]);
        }
    }
}

} // verus!
