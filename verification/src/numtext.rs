//! Decimal text for the numeric kinds: a verified renderer and parser for
//! 64-bit integers and booleans. The parser accepts exactly the canonical
//! forms the renderer produces (an optional minus, no leading zeros, values
//! within the 64-bit signed range), so rendering and parsing round-trip.
use vstd::prelude::*;

verus! {

pub open spec fn digit_char_of(d: int) -> char {
    if d == 0 {
        '0'
    } else if d == 1 {
        '1'
    } else if d == 2 {
        '2'
    } else if d == 3 {
        '3'
    } else if d == 4 {
        '4'
    } else if d == 5 {
        '5'
    } else if d == 6 {
        '6'
    } else if d == 7 {
        '7'
    } else if d == 8 {
        '8'
    } else {
        '9'
    }
}

pub open spec fn is_digit_char(c: char) -> bool {
    c == '0' || c == '1' || c == '2' || c == '3' || c == '4' || c == '5' || c == '6' || c == '7'
        || c == '8' || c == '9'
}

pub open spec fn digit_val_of(c: char) -> int {
    if c == '0' {
        0
    } else if c == '1' {
        1
    } else if c == '2' {
        2
    } else if c == '3' {
        3
    } else if c == '4' {
        4
    } else if c == '5' {
        5
    } else if c == '6' {
        6
    } else if c == '7' {
        7
    } else if c == '8' {
        8
    } else {
        9
    }
}

/// The decimal digits of a natural number, most significant first.
pub open spec fn dec_digits(n: nat) -> Seq<char>
    decreases n,
{
    if n < 10 {
        seq![digit_char_of(n as int)]
    } else {
        dec_digits(n / 10) + seq![digit_char_of((n % 10) as int)]
    }
}

/// The decimal text of an integer: a minus sign for negatives, then digits.
pub open spec fn int_text(x: int) -> Seq<char> {
    if x < 0 {
        seq!['-'] + dec_digits((-x) as nat)
    } else {
        dec_digits(x as nat)
    }
}

/// The value of a digit string, most significant first.
pub open spec fn digits_val(s: Seq<char>) -> int
    decreases s.len(),
{
    if s.len() == 0 {
        0
    } else {
        digits_val(s.drop_last()) * 10 + digit_val_of(s.last())
    }
}

pub open spec fn all_digits(s: Seq<char>) -> bool {
    forall|k: int| 0 <= k < s.len() ==> is_digit_char(s[k])
}

/// A canonical digit string: non-empty, digits only, no leading zero except
/// for "0" itself.
pub open spec fn canonical_digits(s: Seq<char>) -> bool {
    s.len() > 0 && all_digits(s) && (s.len() > 1 ==> s[0] != '0')
}

/// The canonical decimal parser: the value of a canonical rendering of a
/// 64-bit integer, `None` for any other text.
pub open spec fn int_parse(s: Seq<char>) -> Option<i64> {
    if s.len() > 0 && s[0] == '-' {
        let t = s.skip(1);
        if canonical_digits(t) && 1 <= digits_val(t) <= 0x8000_0000_0000_0000 {
            Some((-digits_val(t)) as i64)
        } else {
            None
        }
    } else if canonical_digits(s) && digits_val(s) <= 0x7fff_ffff_ffff_ffff {
        Some(digits_val(s) as i64)
    } else {
        None
    }
}

pub open spec fn bool_text(b: bool) -> Seq<char> {
    if b {
        "true"@
    } else {
        "false"@
    }
}

pub open spec fn bool_parse(s: Seq<char>) -> Option<bool> {
    if s == "true"@ {
        Some(true)
    } else if s == "false"@ {
        Some(false)
    } else {
        None
    }
}

pub open spec fn pow10(n: nat) -> int
    decreases n,
{
    if n == 0 {
        1
    } else {
        10 * pow10((n - 1) as nat)
    }
}

pub proof fn lemma_digits_lower(s: Seq<char>)
    requires
        all_digits(s),
        s.len() >= 1,
        s[0] != '0',
    ensures
        digits_val(s) >= pow10((s.len() - 1) as nat),
    decreases s.len(),
{
    if s.len() == 1 {
        assert(digit_val_of(s[0]) >= 1);
    } else {
        assert(all_digits(s.drop_last())) by {
            assert(forall|k: int| 0 <= k < s.len() - 1 ==> s.drop_last()[k] == s[k]);
        }
        assert(s.drop_last()[0] == s[0]);
        lemma_digits_lower(s.drop_last());
        assert(pow10((s.len() - 1) as nat) == 10 * pow10((s.len() - 2) as nat));
        assert(0 <= digit_val_of(s.last()));
        let a = digits_val(s.drop_last());
        let b = pow10((s.len() - 2) as nat);
        assert(a * 10 >= b * 10) by (nonlinear_arith)
            requires
                a >= b,
        ;
        assert(digits_val(s) == a * 10 + digit_val_of(s.last()));
    }
}

/// The renderer always emits a canonical digit string, and one whose value
/// is the number it was given.
pub proof fn lemma_dec_digits_canonical(m: nat)
    ensures
        canonical_digits(dec_digits(m)),
        digits_val(dec_digits(m)) == m,
        dec_digits(m).len() >= 2 ==> m >= 10,
        m >= 1 ==> dec_digits(m)[0] != '0',
    decreases m,
{
    if m < 10 {
        let s = dec_digits(m);
        assert(s =~= seq![digit_char_of(m as int)]);
        assert(digits_val(s) == digits_val(s.drop_last()) * 10 + digit_val_of(s.last()));
        assert(s.drop_last() =~= Seq::<char>::empty());
    } else {
        lemma_dec_digits_canonical(m / 10);
        let hi = dec_digits(m / 10);
        let s = dec_digits(m);
        assert(s == hi + seq![digit_char_of((m % 10) as int)]);
        assert(s.drop_last() =~= hi);
        assert(s.last() == digit_char_of((m % 10) as int));
        assert(digits_val(s) == digits_val(hi) * 10 + (m % 10));
        assert(m / 10 >= 1);
        assert(s[0] == hi[0]);
        assert(forall|k: int|
            0 <= k < s.len() ==> s[k] == (if k < hi.len() {
                hi[k]
            } else {
                digit_char_of((m % 10) as int)
            }));
    }
}

/// Parsing a rendered integer gives the integer back.
pub proof fn lemma_int_text_round_trip(x: i64)
    ensures
        int_parse(int_text(x as int)) == Some(x),
{
    if x < 0 {
        let m = (-(x as int)) as nat;
        lemma_dec_digits_canonical(m);
        let s = int_text(x as int);
        assert(s == seq!['-'] + dec_digits(m));
        assert(s[0] == '-');
        assert(s.skip(1) =~= dec_digits(m));
        assert(1 <= digits_val(dec_digits(m)) <= 0x8000_0000_0000_0000);
    } else {
        let m = (x as int) as nat;
        lemma_dec_digits_canonical(m);
        let s = int_text(x as int);
        assert(s == dec_digits(m));
        assert(is_digit_char(s[0]));
        assert(s[0] != '-');
        assert(digits_val(s) <= 0x7fff_ffff_ffff_ffff);
    }
}

/// Relies on String::push: appends one character to the string.
#[verifier::external_body]
pub(crate) fn push_char(s: &mut String, c: char)
    ensures
        final(s)@ == old(s)@.push(c),
{
    s.push(c);
}

fn digit_char(d: u64) -> (c: char)
    requires
        d < 10,
    ensures
        c == digit_char_of(d as int),
{
    match d {
        0 => '0',
        1 => '1',
        2 => '2',
        3 => '3',
        4 => '4',
        5 => '5',
        6 => '6',
        7 => '7',
        8 => '8',
        _ => '9',
    }
}

fn push_digits(m: u64, out: &mut String)
    ensures
        final(out)@ == old(out)@ + dec_digits(m as nat),
    decreases m,
{
    if m < 10 {
        push_char(out, digit_char(m));
        proof {
            assert(out@ =~= old(out)@ + dec_digits(m as nat));
        }
    } else {
        push_digits(m / 10, out);
        push_char(out, digit_char(m % 10));
        proof {
            assert(dec_digits(m as nat) == dec_digits((m as nat) / 10) + seq![
                digit_char_of(((m as nat) % 10) as int),
            ]);
            assert((m / 10) as nat == (m as nat) / 10);
            assert(out@ =~= old(out)@ + dec_digits(m as nat));
        }
    }
}

/// The canonical decimal rendering of a 64-bit integer.
pub fn int_to_text(x: i64) -> (r: String)
    ensures
        r@ == int_text(x as int),
{
    let mut s = String::new();
    if x < 0 {
        push_char(&mut s, '-');
        let m: u64 = (-(x as i128)) as u64;
        proof {
            assert(m as int == -(x as int));
        }
        push_digits(m, &mut s);
        proof {
            assert(s@ =~= seq!['-'] + dec_digits(m as nat));
        }
    } else {
        push_digits(x as u64, &mut s);
        proof {
            assert(s@ =~= dec_digits((x as int) as nat));
        }
    }
    s
}

/// The canonical rendering of a boolean.
pub fn bool_to_text(b: bool) -> (r: String)
    ensures
        r@ == bool_text(b),
{
    if b {
        String::from_str("true")
    } else {
        String::from_str("false")
    }
}

fn char_digit_val(c: char) -> (r: Option<u64>)
    ensures
        r matches Some(d) ==> is_digit_char(c) && d == digit_val_of(c),
        r is None ==> !is_digit_char(c),
{
    match c {
        '0' => Some(0),
        '1' => Some(1),
        '2' => Some(2),
        '3' => Some(3),
        '4' => Some(4),
        '5' => Some(5),
        '6' => Some(6),
        '7' => Some(7),
        '8' => Some(8),
        '9' => Some(9),
        _ => None,
    }
}

/// Parses the canonical decimal rendering of a 64-bit integer; any other
/// text gives `None`.
pub fn text_to_int(s: &str) -> (r: Option<i64>)
    ensures
        r == int_parse(s@),
{
    let n = s.unicode_len();
    if n == 0 {
        return None;
    }
    let neg = s.get_char(0) == '-';
    let start: usize = if neg {
        1
    } else {
        0
    };
    let ghost d: Seq<char> = s@.skip(start as int);
    if n == start {
        proof {
            assert(d.len() == 0);
        }
        return None;
    }
    if n - start > 19 {
        proof {
            if !neg {
                assert(d =~= s@);
            }
            if canonical_digits(d) {
                assert(d[0] != '0');
                lemma_digits_lower(d);
                assert(pow10(19) == 10_000_000_000_000_000_000) by {
                    reveal_with_fuel(pow10, 21);
                }
                assert(pow10((d.len() - 1) as nat) >= pow10(19)) by {
                    lemma_pow10_mono(19, (d.len() - 1) as nat);
                }
            }
        }
        return None;
    }
    if n - start > 1 && s.get_char(start) == '0' {
        proof {
            assert(d[0] == s@[start as int]);
            assert(d.len() == n - start);
            assert(!canonical_digits(d));
            if !neg {
                assert(d =~= s@);
            }
        }
        return None;
    }
    let mut acc: u64 = 0;
    let mut i: usize = start;
    proof {
        assert(s@.subrange(start as int, start as int) =~= Seq::<char>::empty());
        assert(pow10(0) == 1);
    }
    while i < n
        invariant
            start <= i <= n,
            n == s@.len(),
            n - start <= 19,
            d == s@.skip(start as int),
            neg ==> start == 1 && s@[0] == '-',
            !neg ==> start == 0 && s@[0] != '-',
            acc == digits_val(s@.subrange(start as int, i as int)),
            acc < pow10((i - start) as nat),
            forall|k: int| start <= k < i ==> is_digit_char(s@[k]),
        decreases n - i,
    {
        let c = s.get_char(i);
        match char_digit_val(c) {
            Some(dv) => {
                proof {
                    assert(pow10((i - start) as nat) <= pow10(18)) by {
                        lemma_pow10_mono((i - start) as nat, 18);
                    }
                    assert(pow10(18) == 1_000_000_000_000_000_000) by {
                        reveal_with_fuel(pow10, 20);
                    }
                    assert(s@.subrange(start as int, i as int + 1).drop_last() =~= s@.subrange(
                        start as int,
                        i as int,
                    ));
                    assert(s@.subrange(start as int, i as int + 1).last() == s@[i as int]);
                }
                acc = acc * 10 + dv;
                proof {
                    assert(pow10(((i + 1) - start) as nat) == 10 * pow10((i - start) as nat));
                }
            },
            None => {
                proof {
                    assert(0 <= i - start < d.len());
                    assert(d[i as int - start as int] == s@[i as int]);
                    assert(!all_digits(d));
                    if !neg {
                        assert(d =~= s@);
                    }
                }
                return None;
            },
        }
        i = i + 1;
    }
    proof {
        assert(s@.subrange(start as int, n as int) =~= d);
        assert(canonical_digits(d)) by {
            assert(forall|k: int| 0 <= k < d.len() ==> d[k] == s@[k + start]);
        }
    }
    if neg {
        if acc == 0 {
            proof {
                assert(int_parse(s@) is None);
            }
            None
        } else if acc <= 0x8000_0000_0000_0000u64 {
            let v: i64 = (-(acc as i128)) as i64;
            Some(v)
        } else {
            None
        }
    } else {
        proof {
            assert(s@[0] != '-');
            assert(d =~= s@);
        }
        if acc <= 0x7fff_ffff_ffff_ffffu64 {
            Some(acc as i64)
        } else {
            None
        }
    }
}

pub proof fn lemma_pow10_pos(n: nat)
    ensures
        pow10(n) >= 1,
    decreases n,
{
    if n > 0 {
        lemma_pow10_pos((n - 1) as nat);
    }
}

pub proof fn lemma_pow10_mono(a: nat, b: nat)
    requires
        a <= b,
    ensures
        1 <= pow10(a) <= pow10(b),
    decreases b,
{
    if a < b {
        lemma_pow10_mono(a, (b - 1) as nat);
    } else {
        lemma_pow10_pos(a);
    }
}

/// Parses "true" or "false"; any other text gives `None`.
pub fn text_to_bool(s: &str) -> (r: Option<bool>)
    ensures
        r == bool_parse(s@),
{
    let owned = s.to_owned();
    let t = String::from_str("true");
    let f = String::from_str("false");
    if owned == t {
        Some(true)
    } else if owned == f {
        Some(false)
    } else {
        None
    }
}

/// Parsing a rendered boolean gives the boolean back.
pub proof fn lemma_bool_text_round_trip(b: bool)
    ensures
        bool_parse(bool_text(b)) == Some(b),
{
    reveal_strlit("true");
    reveal_strlit("false");
    assert("true"@.len() == 4);
    assert("false"@.len() == 5);
}

} // verus!
