//! Vectorized string transforms. Each is a pure per-element map over a
//! string-kind vector (no broadcasting; unary with arguments), and fails
//! with a type error on any other kind. The per-element bodies are verified
//! here, on top of three small trusted facts about characters: case mapping
//! of one character (upper and lower) and the whitespace test.
use vstd::prelude::*;

use crate::value::{RVecData, Model, ElementKind, Operator, OpError};
use crate::value::{kind_of, out_view};
use crate::arith::type_err;
use crate::numtext::push_char;

verus! {

/// The uppercase mapping of one character (one or more characters).
pub uninterp spec fn upper_of_char(c: char) -> Seq<char>;

/// The lowercase mapping of one character (one or more characters).
pub uninterp spec fn lower_of_char(c: char) -> Seq<char>;

/// Whether a character is whitespace.
pub uninterp spec fn is_space_char(c: char) -> bool;

/// Relies on char::to_uppercase: the uppercase mapping of a character,
/// a function of the character alone.
#[verifier::external_body]
pub(crate) fn char_to_upper(c: char) -> (r: String)
    ensures
        r@ == upper_of_char(c),
{
    c.to_uppercase().collect()
}

/// Relies on char::to_lowercase: the lowercase mapping of a character.
#[verifier::external_body]
pub(crate) fn char_to_lower(c: char) -> (r: String)
    ensures
        r@ == lower_of_char(c),
{
    c.to_lowercase().collect()
}

/// Relies on char::is_whitespace, the Unicode whitespace test.
#[verifier::external_body]
pub(crate) fn space_char(c: char) -> (r: bool)
    ensures
        r == is_space_char(c),
{
    c.is_whitespace()
}

/// A string lowercased character by character.
pub open spec fn lower_seq(s: Seq<char>) -> Seq<char>
    decreases s.len(),
{
    if s.len() == 0 {
        Seq::empty()
    } else {
        lower_seq(s.drop_last()) + lower_of_char(s.last())
    }
}

/// A string uppercased character by character.
pub open spec fn upper_seq(s: Seq<char>) -> Seq<char>
    decreases s.len(),
{
    if s.len() == 0 {
        Seq::empty()
    } else {
        upper_seq(s.drop_last()) + upper_of_char(s.last())
    }
}

/// The first character uppercased, the rest lowercased.
pub open spec fn cap_seq(s: Seq<char>) -> Seq<char> {
    if s.len() == 0 {
        Seq::empty()
    } else {
        upper_of_char(s[0]) + lower_seq(s.skip(1))
    }
}

/// One character repeated.
pub open spec fn char_repeat(c: char, n: int) -> Seq<char>
    decreases n,
{
    if n <= 0 {
        Seq::empty()
    } else {
        char_repeat(c, n - 1).push(c)
    }
}

/// A string centered in a field of `width` characters, padded with the fill
/// character; the right side gets the extra character of an odd pad.
pub open spec fn center_seq(s: Seq<char>, width: int, fill: char) -> Seq<char> {
    if width <= s.len() {
        s
    } else {
        let pad_left = (width - s.len()) / 2;
        let pad_right = width - s.len() - pad_left;
        char_repeat(fill, pad_left) + s + char_repeat(fill, pad_right)
    }
}

/// Whether `sub` occurs in `s` starting at character position `i`.
pub open spec fn occurs_at(s: Seq<char>, sub: Seq<char>, i: int) -> bool {
    0 <= i && i + sub.len() <= s.len() && s.subrange(i, i + sub.len()) == sub
}

/// Non-overlapping occurrences of `sub` in `s`, scanning from the left; an
/// empty `sub` matches at every boundary, giving length + 1.
pub open spec fn count_occ(s: Seq<char>, sub: Seq<char>) -> int
    decreases s.len(),
{
    if sub.len() == 0 {
        s.len() as int + 1
    } else if s.len() < sub.len() {
        0
    } else if s.subrange(0, sub.len() as int) == sub {
        1 + count_occ(s.skip(sub.len() as int), sub)
    } else {
        count_occ(s.skip(1), sub)
    }
}

/// The character position of the first occurrence of `sub` in `s`, or -1.
pub open spec fn find_idx(s: Seq<char>, sub: Seq<char>) -> int
    decreases s.len(),
{
    if s.len() < sub.len() {
        -1
    } else if s.subrange(0, sub.len() as int) == sub {
        0
    } else if s.len() == 0 {
        -1
    } else {
        let r = find_idx(s.skip(1), sub);
        if r < 0 {
            -1
        } else {
            1 + r
        }
    }
}

/// `s` with every non-overlapping occurrence of `old_s` replaced by `new_s`,
/// scanning from the left; an empty `old_s` inserts `new_s` at every
/// boundary.
pub open spec fn repl(s: Seq<char>, old_s: Seq<char>, new_s: Seq<char>) -> Seq<char>
    decreases s.len(),
{
    if old_s.len() == 0 {
        if s.len() == 0 {
            new_s
        } else {
            new_s + seq![s[0]] + repl(s.skip(1), old_s, new_s)
        }
    } else if s.len() < old_s.len() {
        s
    } else if s.subrange(0, old_s.len() as int) == old_s {
        new_s + repl(s.skip(old_s.len() as int), old_s, new_s)
    } else {
        seq![s[0]] + repl(s.skip(1), old_s, new_s)
    }
}

/// `s` without its leading whitespace.
pub open spec fn lstrip_seq(s: Seq<char>) -> Seq<char>
    decreases s.len(),
{
    if s.len() > 0 && is_space_char(s[0]) {
        lstrip_seq(s.skip(1))
    } else {
        s
    }
}

/// `s` without its trailing whitespace.
pub open spec fn rstrip_seq(s: Seq<char>) -> Seq<char>
    decreases s.len(),
{
    if s.len() > 0 && is_space_char(s.last()) {
        rstrip_seq(s.drop_last())
    } else {
        s
    }
}

/// `s` without leading and trailing whitespace.
pub open spec fn strip_seq(s: Seq<char>) -> Seq<char> {
    lstrip_seq(rstrip_seq(s))
}

proof fn lemma_lstrip_skip(s: Seq<char>, i: int)
    requires
        0 <= i <= s.len(),
        forall|k: int| 0 <= k < i ==> is_space_char(s[k]),
    ensures
        lstrip_seq(s) == lstrip_seq(s.skip(i)),
    decreases i,
{
    if i > 0 {
        lemma_lstrip_skip(s.skip(1), i - 1);
        assert(s.skip(1).skip(i - 1) =~= s.skip(i));
    } else {
        assert(s.skip(0) =~= s);
    }
}

proof fn lemma_rstrip_take(s: Seq<char>, i: int)
    requires
        0 <= i <= s.len(),
        forall|k: int| s.len() - i <= k < s.len() ==> is_space_char(s[k]),
    ensures
        rstrip_seq(s) == rstrip_seq(s.take(s.len() - i)),
    decreases i,
{
    if i > 0 {
        assert(s.drop_last() =~= s.take(s.len() - 1));
        lemma_rstrip_take(s.drop_last(), i - 1);
        assert(s.drop_last().take(s.len() - i) =~= s.take(s.len() - i));
    } else {
        assert(s.take(s.len() - 0) =~= s);
    }
}

/// Lowercases one string, character by character.
pub fn lower_str(s: &str) -> (r: String)
    ensures
        r@ == lower_seq(s@),
{
    let n = s.unicode_len();
    let mut out = String::new();
    let mut i: usize = 0;
    proof {
        assert(lower_seq(s@.take(0)) =~= Seq::<char>::empty());
    }
    while i < n
        invariant
            i <= n,
            n == s@.len(),
            out@ == lower_seq(s@.take(i as int)),
        decreases n - i,
    {
        proof {
            assert(s@.take(i + 1).drop_last() =~= s@.take(i as int));
            assert(s@.take(i + 1).last() == s@[i as int]);
        }
        let piece = char_to_lower(s.get_char(i));
        out.append(piece.as_str());
        i = i + 1;
    }
    proof {
        assert(s@.take(n as int) =~= s@);
    }
    out
}

/// Uppercases one string, character by character.
pub fn upper_str(s: &str) -> (r: String)
    ensures
        r@ == upper_seq(s@),
{
    let n = s.unicode_len();
    let mut out = String::new();
    let mut i: usize = 0;
    proof {
        assert(upper_seq(s@.take(0)) =~= Seq::<char>::empty());
    }
    while i < n
        invariant
            i <= n,
            n == s@.len(),
            out@ == upper_seq(s@.take(i as int)),
        decreases n - i,
    {
        proof {
            assert(s@.take(i + 1).drop_last() =~= s@.take(i as int));
            assert(s@.take(i + 1).last() == s@[i as int]);
        }
        let piece = char_to_upper(s.get_char(i));
        out.append(piece.as_str());
        i = i + 1;
    }
    proof {
        assert(s@.take(n as int) =~= s@);
    }
    out
}

/// Uppercases the first character and lowercases the rest.
pub fn capitalize_str(s: &str) -> (r: String)
    ensures
        r@ == cap_seq(s@),
{
    let n = s.unicode_len();
    if n == 0 {
        let out = String::new();
        return out;
    }
    let mut out = char_to_upper(s.get_char(0));
    let rest = s.substring_char(1, n);
    let lowered = lower_str(rest);
    out.append(lowered.as_str());
    proof {
        assert(rest@ =~= s@.skip(1));
    }
    out
}

/// Centers one string in `width` characters with the fill character.
pub fn center_str(s: &str, width: usize, fill: char) -> (r: String)
    ensures
        r@ == center_seq(s@, width as int, fill),
{
    let n = s.unicode_len();
    if width <= n {
        return s.to_owned();
    }
    let pad_left = (width - n) / 2;
    let pad_right = width - n - pad_left;
    let mut out = String::new();
    let mut i: usize = 0;
    proof {
        assert(char_repeat(fill, 0) =~= Seq::<char>::empty());
    }
    while i < pad_left
        invariant
            i <= pad_left,
            out@ == char_repeat(fill, i as int),
        decreases pad_left - i,
    {
        push_char(&mut out, fill);
        i = i + 1;
    }
    out.append(s);
    let mut k: usize = 0;
    let ghost mid = out@;
    while k < pad_right
        invariant
            k <= pad_right,
            out@ == mid + char_repeat(fill, k as int),
        decreases pad_right - k,
    {
        push_char(&mut out, fill);
        proof {
            assert(mid + char_repeat(fill, k + 1) =~= (mid + char_repeat(fill, k as int)).push(
                fill,
            ));
        }
        k = k + 1;
    }
    proof {
        assert(out@ =~= char_repeat(fill, pad_left as int) + s@ + char_repeat(
            fill,
            pad_right as int,
        ));
    }
    out
}

/// Whether `sub` occurs in `s` at character position `i`.
fn match_at(s: &str, sub: &str, i: usize) -> (r: bool)
    requires
        i + sub@.len() <= s@.len(),
        s@.len() <= usize::MAX,
    ensures
        r == occurs_at(s@, sub@, i as int),
{
    let m = sub.unicode_len();
    let mut k: usize = 0;
    while k < m
        invariant
            k <= m,
            m == sub@.len(),
            i + m <= s@.len(),
            s@.len() <= usize::MAX,
            forall|t: int| 0 <= t < k ==> s@[i + t] == sub@[t],
        decreases m - k,
    {
        let cs = s.get_char(i + k);
        let cb = sub.get_char(k);
        if cs as u32 != cb as u32 {
            proof {
                assert(s@[i + k] != sub@[k as int]);
                assert(s@.subrange(i as int, i + m) != sub@) by {
                    assert(s@.subrange(i as int, i + m)[k as int] == s@[i + k]);
                }
            }
            return false;
        }
        k = k + 1;
    }
    proof {
        assert(s@.subrange(i as int, i + m) =~= sub@);
    }
    true
}

/// Non-overlapping occurrences of `sub` in `s`, scanning from the left.
pub fn count_str(s: &str, sub: &str) -> (r: usize)
    requires
        s@.len() < usize::MAX,
    ensures
        r == count_occ(s@, sub@),
{
    let n = s.unicode_len();
    let m = sub.unicode_len();
    if m == 0 {
        return n + 1;
    }
    if m > n {
        return 0;
    }
    let mut c: usize = 0;
    let mut i: usize = 0;
    proof {
        assert(s@.skip(0) =~= s@);
    }
    while i <= n - m
        invariant
            m == sub@.len(),
            n == s@.len(),
            1 <= m <= n,
            i <= n,
            c <= i,
            count_occ(s@, sub@) == c + count_occ(s@.skip(i as int), sub@),
        decreases n - i,
    {
        if match_at(s, sub, i) {
            proof {
                assert(s@.skip(i as int).subrange(0, m as int) =~= s@.subrange(
                    i as int,
                    i + m,
                ));
                assert(s@.skip(i as int).skip(m as int) =~= s@.skip(i + m));
            }
            c = c + 1;
            i = i + m;
        } else {
            proof {
                assert(s@.skip(i as int).subrange(0, m as int) =~= s@.subrange(
                    i as int,
                    i + m,
                ));
                assert(s@.skip(i as int).skip(1) =~= s@.skip(i + 1));
            }
            i = i + 1;
        }
    }
    proof {
        assert(s@.skip(i as int).len() < m);
        assert(count_occ(s@.skip(i as int), sub@) == 0);
    }
    c
}

/// Whether `s` starts with `sub`.
pub fn startswith_str(s: &str, sub: &str) -> (r: bool)
    ensures
        r == (sub@.len() <= s@.len() && s@.subrange(0, sub@.len() as int) == sub@),
{
    let n = s.unicode_len();
    let m = sub.unicode_len();
    if m > n {
        return false;
    }
    match_at(s, sub, 0)
}

/// Whether `s` ends with `sub`.
pub fn endswith_str(s: &str, sub: &str) -> (r: bool)
    ensures
        r == (sub@.len() <= s@.len() && s@.subrange(
            s@.len() - sub@.len(),
            s@.len() as int,
        ) == sub@),
{
    let n = s.unicode_len();
    let m = sub.unicode_len();
    if m > n {
        return false;
    }
    match_at(s, sub, n - m)
}

/// The character position of the first occurrence of `sub` in `s`, or -1.
pub fn find_str(s: &str, sub: &str) -> (r: i64)
    requires
        s@.len() < 0x7fff_ffff_ffff_ffff,
    ensures
        r == find_idx(s@, sub@),
{
    let n = s.unicode_len();
    let m = sub.unicode_len();
    if m > n {
        return -1;
    }
    if m == 0 {
        proof {
            assert(s@.subrange(0, 0) =~= sub@);
        }
        return 0;
    }
    let mut i: usize = 0;
    proof {
        assert(s@.skip(0) =~= s@);
    }
    while i <= n - m
        invariant
            m == sub@.len(),
            n == s@.len(),
            n < 0x7fff_ffff_ffff_ffff,
            1 <= m <= n,
            i <= n,
            find_idx(s@.skip(i as int), sub@) < 0 ==> find_idx(s@, sub@) < 0,
            find_idx(s@.skip(i as int), sub@) >= 0 ==> find_idx(s@, sub@) == i + find_idx(
                s@.skip(i as int),
                sub@,
            ),
        decreases n - i,
    {
        proof {
            assert(s@.skip(i as int).subrange(0, m as int) =~= s@.subrange(i as int, i + m));
        }
        if match_at(s, sub, i) {
            proof {
                assert(find_idx(s@.skip(i as int), sub@) == 0);
            }
            return i as i64;
        }
        proof {
            assert(s@.skip(i as int).skip(1) =~= s@.skip(i + 1));
            assert(s@.skip(i as int).len() >= m);
            assert(s@.skip(i as int).len() > 0);
        }
        i = i + 1;
    }
    proof {
        assert(s@.skip(i as int).len() < m);
        assert(find_idx(s@.skip(i as int), sub@) == -1);
    }
    -1
}

/// `s` with every non-overlapping occurrence of `old_s` replaced by `new_s`.
pub fn replace_str(s: &str, old_s: &str, new_s: &str) -> (r: String)
    ensures
        r@ == repl(s@, old_s@, new_s@),
{
    let n = s.unicode_len();
    let m = old_s.unicode_len();
    let mut out = String::new();
    let mut i: usize = 0;
    proof {
        assert(s@.skip(0) =~= s@);
        assert(out@ + repl(s@, old_s@, new_s@) =~= repl(s@, old_s@, new_s@));
    }
    if m == 0 {
        while i < n
            invariant
                m == 0,
                m == old_s@.len(),
                n == s@.len(),
                i <= n,
                repl(s@, old_s@, new_s@) == out@ + repl(s@.skip(i as int), old_s@, new_s@),
            decreases n - i,
        {
            out.append(new_s);
            push_char(&mut out, s.get_char(i));
            proof {
                assert(s@.skip(i as int)[0] == s@[i as int]);
                assert(s@.skip(i as int).skip(1) =~= s@.skip(i + 1));
                assert(repl(s@.skip(i as int), old_s@, new_s@) == new_s@ + seq![s@[i as int]]
                    + repl(s@.skip(i + 1), old_s@, new_s@));
            }
            i = i + 1;
        }
        out.append(new_s);
        proof {
            assert(s@.skip(n as int).len() == 0);
            assert(repl(s@.skip(n as int), old_s@, new_s@) == new_s@);
        }
        return out;
    }
    while i < n
        invariant
            m >= 1,
            m == old_s@.len(),
            n == s@.len(),
            i <= n,
            repl(s@, old_s@, new_s@) == out@ + repl(s@.skip(i as int), old_s@, new_s@),
        decreases n - i,
    {
        if m <= n - i {
            proof {
                assert(s@.skip(i as int).subrange(0, m as int) =~= s@.subrange(
                    i as int,
                    i + m,
                ));
            }
            if match_at(s, old_s, i) {
                out.append(new_s);
                proof {
                    assert(s@.skip(i as int).skip(m as int) =~= s@.skip(i + m));
                }
                i = i + m;
                continue ;
            }
        }
        push_char(&mut out, s.get_char(i));
        proof {
            assert(s@.skip(i as int)[0] == s@[i as int]);
            assert(s@.skip(i as int).skip(1) =~= s@.skip(i + 1));
            if s@.skip(i as int).len() < m {
                assert(s@.skip(i as int) =~= seq![s@[i as int]] + s@.skip(i + 1));
                assert(repl(s@.skip(i + 1), old_s@, new_s@) == s@.skip(i + 1));
            }
        }
        i = i + 1;
    }
    proof {
        assert(s@.skip(n as int).len() == 0);
        assert(repl(s@.skip(n as int), old_s@, new_s@) =~= Seq::<char>::empty());
        assert(out@ + Seq::<char>::empty() =~= out@);
    }
    out
}

/// `s` without its leading whitespace.
pub fn lstrip_str(s: &str) -> (r: String)
    ensures
        r@ == lstrip_seq(s@),
{
    let n = s.unicode_len();
    let mut a: usize = 0;
    while a < n && space_char(s.get_char(a))
        invariant
            a <= n,
            n == s@.len(),
            forall|k: int| 0 <= k < a ==> is_space_char(s@[k]),
        decreases n - a,
    {
        a = a + 1;
    }
    proof {
        lemma_lstrip_skip(s@, a as int);
        if a < n {
            assert(lstrip_seq(s@.skip(a as int)) == s@.skip(a as int));
        } else {
            assert(s@.skip(a as int).len() == 0);
        }
        assert(s@.subrange(a as int, n as int) =~= s@.skip(a as int));
    }
    let r = s.substring_char(a, n);
    r.to_owned()
}

/// `s` without its trailing whitespace.
pub fn rstrip_str(s: &str) -> (r: String)
    ensures
        r@ == rstrip_seq(s@),
{
    let n = s.unicode_len();
    let mut b: usize = n;
    while b > 0 && space_char(s.get_char(b - 1))
        invariant
            b <= n,
            n == s@.len(),
            forall|k: int| b <= k < n ==> is_space_char(s@[k]),
        decreases b,
    {
        b = b - 1;
    }
    proof {
        lemma_rstrip_take(s@, n - b);
        if b > 0 {
            assert(s@.take(b as int).last() == s@[b - 1]);
            assert(rstrip_seq(s@.take(b as int)) == s@.take(b as int));
        } else {
            assert(s@.take(0).len() == 0);
        }
        assert(s@.subrange(0, b as int) =~= s@.take(b as int));
    }
    let r = s.substring_char(0, b);
    r.to_owned()
}

/// `s` without leading and trailing whitespace.
pub fn strip_str(s: &str) -> (r: String)
    ensures
        r@ == strip_seq(s@),
{
    let t = rstrip_str(s);
    lstrip_str(t.as_str())
}


/// What the vectorized `capitalize` transform returns.
pub open spec fn capitalize_model(m: Model) -> Result<Model, OpError> {
    match m {
        Model::Str(s) => Ok(Model::Str(s.map_values(|t: Seq<char>| cap_seq(t)))),
        _ => Err(type_err(Operator::Transform, kind_of(m), kind_of(m))),
    }
}

/// What the vectorized `lower` transform returns.
pub open spec fn lower_model(m: Model) -> Result<Model, OpError> {
    match m {
        Model::Str(s) => Ok(Model::Str(s.map_values(|t: Seq<char>| lower_seq(t)))),
        _ => Err(type_err(Operator::Transform, kind_of(m), kind_of(m))),
    }
}

/// What the vectorized `upper` transform returns.
pub open spec fn upper_model(m: Model) -> Result<Model, OpError> {
    match m {
        Model::Str(s) => Ok(Model::Str(s.map_values(|t: Seq<char>| upper_seq(t)))),
        _ => Err(type_err(Operator::Transform, kind_of(m), kind_of(m))),
    }
}

/// What the vectorized `strip` transform returns.
pub open spec fn strip_model(m: Model) -> Result<Model, OpError> {
    match m {
        Model::Str(s) => Ok(Model::Str(s.map_values(|t: Seq<char>| strip_seq(t)))),
        _ => Err(type_err(Operator::Transform, kind_of(m), kind_of(m))),
    }
}

/// What the vectorized `lstrip` transform returns.
pub open spec fn lstrip_model(m: Model) -> Result<Model, OpError> {
    match m {
        Model::Str(s) => Ok(Model::Str(s.map_values(|t: Seq<char>| lstrip_seq(t)))),
        _ => Err(type_err(Operator::Transform, kind_of(m), kind_of(m))),
    }
}

/// What the vectorized `rstrip` transform returns.
pub open spec fn rstrip_model(m: Model) -> Result<Model, OpError> {
    match m {
        Model::Str(s) => Ok(Model::Str(s.map_values(|t: Seq<char>| rstrip_seq(t)))),
        _ => Err(type_err(Operator::Transform, kind_of(m), kind_of(m))),
    }
}

/// What the vectorized `center` transform returns.
pub open spec fn center_model(m: Model, width: int, fill: char) -> Result<Model, OpError> {
    match m {
        Model::Str(s) => Ok(Model::Str(s.map_values(|t: Seq<char>| center_seq(t, width, fill)))),
        _ => Err(type_err(Operator::Transform, kind_of(m), kind_of(m))),
    }
}

/// What the vectorized `replace` transform returns.
pub open spec fn replace_model(m: Model, old_s: Seq<char>, new_s: Seq<char>) -> Result<Model, OpError> {
    match m {
        Model::Str(s) => Ok(Model::Str(s.map_values(|t: Seq<char>| repl(t, old_s, new_s)))),
        _ => Err(type_err(Operator::Transform, kind_of(m), kind_of(m))),
    }
}

/// What the vectorized `split` transform returns.
pub open spec fn split_model(m: Model, sep: Seq<char>) -> Result<Model, OpError> {
    match m {
        Model::Str(s) => Ok(Model::Str(s.map_values(|t: Seq<char>| repl(t, sep, Seq::empty())))),
        _ => Err(type_err(Operator::Transform, kind_of(m), kind_of(m))),
    }
}

/// Machine limit for the counting and searching transforms: every element
/// short enough that a count or index fits a 64-bit signed integer (and the
/// scan arithmetic fits a usize).
pub open spec fn lens_small(s: Seq<Seq<char>>) -> bool {
    forall|k: int|
        0 <= k < s.len() ==> (#[trigger] s[k]).len() < 0x7fff_ffff_ffff_fffe && s[k].len()
            < usize::MAX
}

pub open spec fn str_lens_small(m: Model) -> bool {
    match m {
        Model::Str(s) => lens_small(s),
        _ => true,
    }
}

/// What the vectorized `count` transform returns: an integer vector of
/// occurrence counts.
pub open spec fn count_model(m: Model, sub: Seq<char>) -> Result<Model, OpError> {
    match m {
        Model::Str(s) => Ok(Model::Int(s.map_values(|t: Seq<char>| count_occ(t, sub) as i64))),
        _ => Err(type_err(Operator::Transform, kind_of(m), kind_of(m))),
    }
}

/// What the vectorized `find` transform returns: an integer vector of first
/// match positions, with -1 where the needle does not occur.
pub open spec fn find_model(m: Model, sub: Seq<char>) -> Result<Model, OpError> {
    match m {
        Model::Str(s) => Ok(Model::Int(s.map_values(|t: Seq<char>| find_idx(t, sub) as i64))),
        _ => Err(type_err(Operator::Transform, kind_of(m), kind_of(m))),
    }
}

/// What the vectorized `startswith` transform returns: a boolean vector.
pub open spec fn startswith_model(m: Model, pre: Seq<char>) -> Result<Model, OpError> {
    match m {
        Model::Str(s) => Ok(
            Model::Bool(
                s.map_values(
                    |t: Seq<char>| pre.len() <= t.len() && t.subrange(0, pre.len() as int) == pre,
                ),
            ),
        ),
        _ => Err(type_err(Operator::Transform, kind_of(m), kind_of(m))),
    }
}

/// What the vectorized `endswith` transform returns: a boolean vector.
pub open spec fn endswith_model(m: Model, sfx: Seq<char>) -> Result<Model, OpError> {
    match m {
        Model::Str(s) => Ok(
            Model::Bool(
                s.map_values(
                    |t: Seq<char>|
                        sfx.len() <= t.len() && t.subrange(
                            t.len() - sfx.len(),
                            t.len() as int,
                        ) == sfx,
                ),
            ),
        ),
        _ => Err(type_err(Operator::Transform, kind_of(m), kind_of(m))),
    }
}

/// A count of non-overlapping occurrences never exceeds the length plus one.
pub proof fn lemma_count_le(s: Seq<char>, sub: Seq<char>)
    ensures
        0 <= count_occ(s, sub) <= s.len() + 1,
    decreases s.len(),
{
    if sub.len() == 0 {
    } else if s.len() < sub.len() {
    } else if s.subrange(0, sub.len() as int) == sub {
        lemma_count_le(s.skip(sub.len() as int), sub);
    } else {
        lemma_count_le(s.skip(1), sub);
    }
}

/// A first match position is -1 or a position within the string.
pub proof fn lemma_find_bounds(s: Seq<char>, sub: Seq<char>)
    ensures
        -1 <= find_idx(s, sub) <= s.len(),
    decreases s.len(),
{
    if s.len() < sub.len() {
    } else if s.subrange(0, sub.len() as int) == sub {
    } else if s.len() == 0 {
    } else {
        lemma_find_bounds(s.skip(1), sub);
    }
}

impl RVecData {
    /// Counts non-overlapping occurrences of `sub` in each element; an empty
    /// `sub` counts every boundary, length plus one.
    pub fn count(&self, sub: &str) -> (r: Result<RVecData, OpError>)
        requires
            str_lens_small(self@),
        ensures
            out_view(r) == count_model(self@, sub@),
    {
        match self {
            RVecData::Str(v) => {
                let n = v.len();
                let mut out: Vec<i64> = Vec::new();
                let mut i: usize = 0;
                while i < n
                    invariant
                        i <= n,
                        n == v@.len(),
                        self@ == Model::Str(v.deep_view()),
                        str_lens_small(self@),
                        out@.len() == i,
                        forall|j: int| 0 <= j < i ==> out@[j] == count_occ(v@[j]@, sub@) as i64,
                    decreases n - i,
                {
                    proof {
                        assert(v.deep_view()[i as int] == v@[i as int]@);
                        assert(lens_small(v.deep_view()));
                        assert(v.deep_view()[i as int].len() < usize::MAX);
                        lemma_count_le(v@[i as int]@, sub@);
                    }
                    let c = count_str(v[i].as_str(), sub);
                    out.push(c as i64);
                    i = i + 1;
                }
                proof {
                    assert(out@ =~= v.deep_view().map_values(
                        |t: Seq<char>| count_occ(t, sub@) as i64,
                    ));
                }
                Ok(RVecData::Int(out))
            },
            _ => Err(
                OpError::TypeError {
                    operator: Operator::Transform,
                    left_kind: self.element_type(),
                    right_kind: self.element_type(),
                },
            ),
        }
    }

    /// The first match position of `sub` in each element, or -1 where it
    /// does not occur. The -1 sentinel is deliberate: it cannot be confused
    /// with a valid position.
    pub fn find(&self, sub: &str) -> (r: Result<RVecData, OpError>)
        requires
            str_lens_small(self@),
        ensures
            out_view(r) == find_model(self@, sub@),
    {
        match self {
            RVecData::Str(v) => {
                let n = v.len();
                let mut out: Vec<i64> = Vec::new();
                let mut i: usize = 0;
                while i < n
                    invariant
                        i <= n,
                        n == v@.len(),
                        self@ == Model::Str(v.deep_view()),
                        str_lens_small(self@),
                        out@.len() == i,
                        forall|j: int| 0 <= j < i ==> out@[j] == find_idx(v@[j]@, sub@) as i64,
                    decreases n - i,
                {
                    proof {
                        assert(v.deep_view()[i as int] == v@[i as int]@);
                        assert(lens_small(v.deep_view()));
                        assert(v.deep_view()[i as int].len() < 0x7fff_ffff_ffff_fffe);
                        lemma_find_bounds(v@[i as int]@, sub@);
                    }
                    let c = find_str(v[i].as_str(), sub);
                    out.push(c);
                    i = i + 1;
                }
                proof {
                    assert(out@ =~= v.deep_view().map_values(
                        |t: Seq<char>| find_idx(t, sub@) as i64,
                    ));
                }
                Ok(RVecData::Int(out))
            },
            _ => Err(
                OpError::TypeError {
                    operator: Operator::Transform,
                    left_kind: self.element_type(),
                    right_kind: self.element_type(),
                },
            ),
        }
    }

    /// Whether each element starts with the prefix.
    pub fn startswith(&self, pre: &str) -> (r: Result<RVecData, OpError>)
        ensures
            out_view(r) == startswith_model(self@, pre@),
    {
        match self {
            RVecData::Str(v) => {
                let n = v.len();
                let mut out: Vec<bool> = Vec::new();
                let mut i: usize = 0;
                while i < n
                    invariant
                        i <= n,
                        n == v@.len(),
                        out@.len() == i,
                        forall|j: int|
                            0 <= j < i ==> out@[j] == (pre@.len() <= v@[j]@.len() && v@[j]@
                                .subrange(0, pre@.len() as int) == pre@),
                    decreases n - i,
                {
                    out.push(startswith_str(v[i].as_str(), pre));
                    i = i + 1;
                }
                proof {
                    assert(out@ =~= v.deep_view().map_values(
                        |t: Seq<char>|
                            pre@.len() <= t.len() && t.subrange(0, pre@.len() as int) == pre@,
                    ));
                }
                Ok(RVecData::Bool(out))
            },
            _ => Err(
                OpError::TypeError {
                    operator: Operator::Transform,
                    left_kind: self.element_type(),
                    right_kind: self.element_type(),
                },
            ),
        }
    }

    /// Whether each element ends with the suffix.
    pub fn endswith(&self, sfx: &str) -> (r: Result<RVecData, OpError>)
        ensures
            out_view(r) == endswith_model(self@, sfx@),
    {
        match self {
            RVecData::Str(v) => {
                let n = v.len();
                let mut out: Vec<bool> = Vec::new();
                let mut i: usize = 0;
                while i < n
                    invariant
                        i <= n,
                        n == v@.len(),
                        out@.len() == i,
                        forall|j: int|
                            0 <= j < i ==> out@[j] == (sfx@.len() <= v@[j]@.len() && v@[j]@
                                .subrange(
                                v@[j]@.len() - sfx@.len(),
                                v@[j]@.len() as int,
                            ) == sfx@),
                    decreases n - i,
                {
                    out.push(endswith_str(v[i].as_str(), sfx));
                    i = i + 1;
                }
                proof {
                    assert(out@ =~= v.deep_view().map_values(
                        |t: Seq<char>|
                            sfx@.len() <= t.len() && t.subrange(
                                t.len() - sfx@.len(),
                                t.len() as int,
                            ) == sfx@,
                    ));
                }
                Ok(RVecData::Bool(out))
            },
            _ => Err(
                OpError::TypeError {
                    operator: Operator::Transform,
                    left_kind: self.element_type(),
                    right_kind: self.element_type(),
                },
            ),
        }
    }

    /// Uppercases the first character of each element and lowercases the rest.
    /// Fails with a type error on a non-string vector.
    pub fn capitalize(&self) -> (r: Result<RVecData, OpError>)
        ensures
            out_view(r) == capitalize_model(self@),
    {
        match self {
            RVecData::Str(v) => {
                let n = v.len();
                let mut out: Vec<String> = Vec::new();
                let mut i: usize = 0;
                while i < n
                    invariant
                        i <= n,
                        n == v@.len(),
                        out@.len() == i,
                        forall|j: int| 0 <= j < i ==> out@[j]@ == cap_seq(v@[j]@),
                    decreases n - i,
                {
                    out.push(capitalize_str(v[i].as_str()));
                    i = i + 1;
                }
                proof {
                    assert(out.deep_view() =~= v.deep_view().map_values(
                        |t: Seq<char>| cap_seq(t),
                    ));
                }
                Ok(RVecData::Str(out))
            },
            _ => Err(
                OpError::TypeError {
                    operator: Operator::Transform,
                    left_kind: self.element_type(),
                    right_kind: self.element_type(),
                },
            ),
        }
    }

    /// Lowercases each element.
    /// Fails with a type error on a non-string vector.
    pub fn lower(&self) -> (r: Result<RVecData, OpError>)
        ensures
            out_view(r) == lower_model(self@),
    {
        match self {
            RVecData::Str(v) => {
                let n = v.len();
                let mut out: Vec<String> = Vec::new();
                let mut i: usize = 0;
                while i < n
                    invariant
                        i <= n,
                        n == v@.len(),
                        out@.len() == i,
                        forall|j: int| 0 <= j < i ==> out@[j]@ == lower_seq(v@[j]@),
                    decreases n - i,
                {
                    out.push(lower_str(v[i].as_str()));
                    i = i + 1;
                }
                proof {
                    assert(out.deep_view() =~= v.deep_view().map_values(
                        |t: Seq<char>| lower_seq(t),
                    ));
                }
                Ok(RVecData::Str(out))
            },
            _ => Err(
                OpError::TypeError {
                    operator: Operator::Transform,
                    left_kind: self.element_type(),
                    right_kind: self.element_type(),
                },
            ),
        }
    }

    /// Uppercases each element.
    /// Fails with a type error on a non-string vector.
    pub fn upper(&self) -> (r: Result<RVecData, OpError>)
        ensures
            out_view(r) == upper_model(self@),
    {
        match self {
            RVecData::Str(v) => {
                let n = v.len();
                let mut out: Vec<String> = Vec::new();
                let mut i: usize = 0;
                while i < n
                    invariant
                        i <= n,
                        n == v@.len(),
                        out@.len() == i,
                        forall|j: int| 0 <= j < i ==> out@[j]@ == upper_seq(v@[j]@),
                    decreases n - i,
                {
                    out.push(upper_str(v[i].as_str()));
                    i = i + 1;
                }
                proof {
                    assert(out.deep_view() =~= v.deep_view().map_values(
                        |t: Seq<char>| upper_seq(t),
                    ));
                }
                Ok(RVecData::Str(out))
            },
            _ => Err(
                OpError::TypeError {
                    operator: Operator::Transform,
                    left_kind: self.element_type(),
                    right_kind: self.element_type(),
                },
            ),
        }
    }

    /// Trims leading and trailing whitespace from each element.
    /// Fails with a type error on a non-string vector.
    pub fn strip(&self) -> (r: Result<RVecData, OpError>)
        ensures
            out_view(r) == strip_model(self@),
    {
        match self {
            RVecData::Str(v) => {
                let n = v.len();
                let mut out: Vec<String> = Vec::new();
                let mut i: usize = 0;
                while i < n
                    invariant
                        i <= n,
                        n == v@.len(),
                        out@.len() == i,
                        forall|j: int| 0 <= j < i ==> out@[j]@ == strip_seq(v@[j]@),
                    decreases n - i,
                {
                    out.push(strip_str(v[i].as_str()));
                    i = i + 1;
                }
                proof {
                    assert(out.deep_view() =~= v.deep_view().map_values(
                        |t: Seq<char>| strip_seq(t),
                    ));
                }
                Ok(RVecData::Str(out))
            },
            _ => Err(
                OpError::TypeError {
                    operator: Operator::Transform,
                    left_kind: self.element_type(),
                    right_kind: self.element_type(),
                },
            ),
        }
    }

    /// Trims leading whitespace from each element.
    /// Fails with a type error on a non-string vector.
    pub fn lstrip(&self) -> (r: Result<RVecData, OpError>)
        ensures
            out_view(r) == lstrip_model(self@),
    {
        match self {
            RVecData::Str(v) => {
                let n = v.len();
                let mut out: Vec<String> = Vec::new();
                let mut i: usize = 0;
                while i < n
                    invariant
                        i <= n,
                        n == v@.len(),
                        out@.len() == i,
                        forall|j: int| 0 <= j < i ==> out@[j]@ == lstrip_seq(v@[j]@),
                    decreases n - i,
                {
                    out.push(lstrip_str(v[i].as_str()));
                    i = i + 1;
                }
                proof {
                    assert(out.deep_view() =~= v.deep_view().map_values(
                        |t: Seq<char>| lstrip_seq(t),
                    ));
                }
                Ok(RVecData::Str(out))
            },
            _ => Err(
                OpError::TypeError {
                    operator: Operator::Transform,
                    left_kind: self.element_type(),
                    right_kind: self.element_type(),
                },
            ),
        }
    }

    /// Trims trailing whitespace from each element.
    /// Fails with a type error on a non-string vector.
    pub fn rstrip(&self) -> (r: Result<RVecData, OpError>)
        ensures
            out_view(r) == rstrip_model(self@),
    {
        match self {
            RVecData::Str(v) => {
                let n = v.len();
                let mut out: Vec<String> = Vec::new();
                let mut i: usize = 0;
                while i < n
                    invariant
                        i <= n,
                        n == v@.len(),
                        out@.len() == i,
                        forall|j: int| 0 <= j < i ==> out@[j]@ == rstrip_seq(v@[j]@),
                    decreases n - i,
                {
                    out.push(rstrip_str(v[i].as_str()));
                    i = i + 1;
                }
                proof {
                    assert(out.deep_view() =~= v.deep_view().map_values(
                        |t: Seq<char>| rstrip_seq(t),
                    ));
                }
                Ok(RVecData::Str(out))
            },
            _ => Err(
                OpError::TypeError {
                    operator: Operator::Transform,
                    left_kind: self.element_type(),
                    right_kind: self.element_type(),
                },
            ),
        }
    }

    /// Centers each element in a field of `width` characters, padded with the fill character.
    /// Fails with a type error on a non-string vector.
    pub fn center(&self, width: usize, fill: char) -> (r: Result<RVecData, OpError>)
        ensures
            out_view(r) == center_model(self@, width as int, fill),
    {
        match self {
            RVecData::Str(v) => {
                let n = v.len();
                let mut out: Vec<String> = Vec::new();
                let mut i: usize = 0;
                while i < n
                    invariant
                        i <= n,
                        n == v@.len(),
                        out@.len() == i,
                        forall|j: int| 0 <= j < i ==> out@[j]@ == center_seq(v@[j]@, width as int, fill),
                    decreases n - i,
                {
                    out.push(center_str(v[i].as_str(), width, fill));
                    i = i + 1;
                }
                proof {
                    assert(out.deep_view() =~= v.deep_view().map_values(
                        |t: Seq<char>| center_seq(t, width as int, fill),
                    ));
                }
                Ok(RVecData::Str(out))
            },
            _ => Err(
                OpError::TypeError {
                    operator: Operator::Transform,
                    left_kind: self.element_type(),
                    right_kind: self.element_type(),
                },
            ),
        }
    }

    /// Replaces every non-overlapping occurrence of `old_s` by `new_s` in each element.
    /// Fails with a type error on a non-string vector.
    pub fn replace(&self, old_s: &str, new_s: &str) -> (r: Result<RVecData, OpError>)
        ensures
            out_view(r) == replace_model(self@, old_s@, new_s@),
    {
        match self {
            RVecData::Str(v) => {
                let n = v.len();
                let mut out: Vec<String> = Vec::new();
                let mut i: usize = 0;
                while i < n
                    invariant
                        i <= n,
                        n == v@.len(),
                        out@.len() == i,
                        forall|j: int| 0 <= j < i ==> out@[j]@ == repl(v@[j]@, old_s@, new_s@),
                    decreases n - i,
                {
                    out.push(replace_str(v[i].as_str(), old_s, new_s));
                    i = i + 1;
                }
                proof {
                    assert(out.deep_view() =~= v.deep_view().map_values(
                        |t: Seq<char>| repl(t, old_s@, new_s@),
                    ));
                }
                Ok(RVecData::Str(out))
            },
            _ => Err(
                OpError::TypeError {
                    operator: Operator::Transform,
                    left_kind: self.element_type(),
                    right_kind: self.element_type(),
                },
            ),
        }
    }

    /// Splits each element at the separator and rejoins the pieces: each element keeps a single string, with every occurrence of the separator removed.
    /// Fails with a type error on a non-string vector.
    pub fn split(&self, sep: &str) -> (r: Result<RVecData, OpError>)
        ensures
            out_view(r) == split_model(self@, sep@),
    {
        match self {
            RVecData::Str(v) => {
                let n = v.len();
                let mut out: Vec<String> = Vec::new();
                let mut i: usize = 0;
                while i < n
                    invariant
                        i <= n,
                        n == v@.len(),
                        out@.len() == i,
                        forall|j: int| 0 <= j < i ==> out@[j]@ == repl(v@[j]@, sep@, Seq::empty()),
                    decreases n - i,
                {
                    proof {
                        reveal_strlit("");
                        assert(""@ =~= Seq::<char>::empty());
                    }
                    out.push(replace_str(v[i].as_str(), sep, ""));
                    i = i + 1;
                }
                proof {
                    assert(out.deep_view() =~= v.deep_view().map_values(
                        |t: Seq<char>| repl(t, sep@, Seq::empty()),
                    ));
                }
                Ok(RVecData::Str(out))
            },
            _ => Err(
                OpError::TypeError {
                    operator: Operator::Transform,
                    left_kind: self.element_type(),
                    right_kind: self.element_type(),
                },
            ),
        }
    }
}

} // verus!
