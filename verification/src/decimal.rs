//! Decimal text for 64-bit signed identifiers: formatting, parsing, and
//! the proof that the two round-trip exactly.  The stored subscriber list
//! and the polling watermark both live in this format.

use vstd::prelude::*;

use crate::chars::string_from_chars;

verus! {

/// The character for one decimal digit.
pub open spec fn digit_char(d: int) -> char {
    if d == 0 {
        '0'
    } else if d == 1 {
        '1'
    } else if d == 2 {
        '2'
    } else if d == 3 {
        '3'
    } else if d == 4 {
        '4'
    } else if d == 5 {
        '5'
    } else if d == 6 {
        '6'
    } else if d == 7 {
        '7'
    } else if d == 8 {
        '8'
    } else {
        '9'
    }
}

/// The value of a decimal digit character, -1 for any other character.
pub open spec fn digit_val(c: char) -> int {
    if c == '0' {
        0
    } else if c == '1' {
        1
    } else if c == '2' {
        2
    } else if c == '3' {
        3
    } else if c == '4' {
        4
    } else if c == '5' {
        5
    } else if c == '6' {
        6
    } else if c == '7' {
        7
    } else if c == '8' {
        8
    } else if c == '9' {
        9
    } else {
        -1
    }
}

pub open spec fn is_digit(c: char) -> bool {
    digit_val(c) >= 0
}

pub open spec fn all_digits(s: Seq<char>) -> bool {
    forall|i: int| 0 <= i < s.len() ==> is_digit(#[trigger] s[i])
}

/// The decimal digits of a non-negative number, most significant first,
/// without leading zeros (a single zero for 0).
pub open spec fn dec_rep(n: nat) -> Seq<char>
    decreases n,
{
    if n < 10 {
        seq![digit_char(n as int)]
    } else {
        dec_rep(n / 10).push(digit_char((n % 10) as int))
    }
}

/// The decimal text of a signed number: a leading '-' for negatives.
pub open spec fn dec_rep_i64(v: int) -> Seq<char> {
    if v < 0 {
        seq!['-'] + dec_rep((-v) as nat)
    } else {
        dec_rep(v as nat)
    }
}

/// The number denoted by a sequence of digit characters, most significant
/// first.
pub open spec fn digits_val(s: Seq<char>) -> int
    decreases s.len(),
{
    if s.len() == 0 {
        0
    } else {
        digits_val(s.drop_last()) * 10 + digit_val(s.last())
    }
}

/// The number denoted by decimal text: an optional leading '-', then one
/// or more digits, and a value that fits in an `i64`; anything else is
/// rejected.
pub open spec fn parse_i64_spec(s: Seq<char>) -> Option<i64> {
    if s.len() >= 2 && s[0] == '-' && all_digits(s.drop_first()) && -digits_val(s.drop_first())
        >= i64::MIN {
        Some((-digits_val(s.drop_first())) as i64)
    } else if s.len() >= 1 && all_digits(s) && digits_val(s) <= i64::MAX {
        Some(digits_val(s) as i64)
    } else {
        None
    }
}

/// The digit character for a digit below ten.
fn digit_char_exec(d: u64) -> (c: char)
    requires
        d < 10,
    ensures
        c == digit_char(d as int),
{
    match d {
        0 => '0',
        1 => '1',
        2 => '2',
        3 => '3',
        4 => '4',
        5 => '5',
        6 => '6',
        7 => '7',
        8 => '8',
        _ => '9',
    }
}

/// The value of a digit character, or `None` for any other character.
fn digit_val_exec(c: char) -> (r: Option<u64>)
    ensures
        r is Some <==> is_digit(c),
        r is Some ==> r->0 == digit_val(c),
{
    match c {
        '0' => Some(0),
        '1' => Some(1),
        '2' => Some(2),
        '3' => Some(3),
        '4' => Some(4),
        '5' => Some(5),
        '6' => Some(6),
        '7' => Some(7),
        '8' => Some(8),
        '9' => Some(9),
        _ => None,
    }
}

/// Appends the decimal digits of `n` to `out`.
fn push_digits(n: u64, out: &mut Vec<char>)
    ensures
        final(out)@ == old(out)@ + dec_rep(n as nat),
    decreases n,
{
    if n < 10 {
        out.push(digit_char_exec(n));
        proof {
            assert(old(out)@.push(digit_char(n as int)) =~= old(out)@ + dec_rep(n as nat));
        }
    } else {
        push_digits(n / 10, out);
        out.push(digit_char_exec(n % 10));
        proof {
            assert((old(out)@ + dec_rep((n / 10) as nat)).push(digit_char((n % 10) as int))
                =~= old(out)@ + dec_rep(n as nat));
        }
    }
}

/// The decimal text of a signed 64-bit number.
pub fn i64_to_string(v: i64) -> (r: String)
    ensures
        r@ == dec_rep_i64(v as int),
{
    let mut out: Vec<char> = Vec::new();
    if v >= 0 {
        push_digits(v as u64, &mut out);
    } else {
        out.push('-');
        let mag: u64 = if v == i64::MIN {
            9223372036854775808u64
        } else {
            (-v) as u64
        };
        proof {
            assert(mag as nat == (-(v as int)) as nat);
        }
        push_digits(mag, &mut out);
        proof {
            assert(seq!['-'] + dec_rep(mag as nat) =~= out@);
        }
    }
    string_from_chars(&out)
}

/// Every character of a decimal representation is a digit.
pub proof fn lemma_dec_rep_digits(n: nat)
    ensures
        dec_rep(n).len() >= 1,
        all_digits(dec_rep(n)),
    decreases n,
{
    if n < 10 {
    } else {
        lemma_dec_rep_digits(n / 10);
        let s = dec_rep(n / 10);
        let w = s.push(digit_char((n % 10) as int));
        assert forall|i: int| 0 <= i < w.len() implies is_digit(w[i]) by {
            if i < s.len() {
                assert(w[i] == s[i]);
            }
        }
    }
}

/// Reading back the digits of a number gives the number.
pub proof fn lemma_dec_rep_val(n: nat)
    ensures
        digits_val(dec_rep(n)) == n,
    decreases n,
{
    if n < 10 {
        let s = dec_rep(n);
        assert(s.drop_last() =~= Seq::<char>::empty());
        assert(digits_val(s.drop_last()) == 0);
        assert(s.last() == digit_char(n as int));
        assert(digit_val(digit_char(n as int)) == n);
    } else {
        lemma_dec_rep_val(n / 10);
        let s = dec_rep(n / 10);
        let w = s.push(digit_char((n % 10) as int));
        assert(w.drop_last() =~= s);
        assert(digits_val(w) == digits_val(s) * 10 + (n % 10));
        assert((n / 10) * 10 + n % 10 == n) by (nonlinear_arith);
    }
}

/// A value written out in digits is non-negative.
pub proof fn lemma_digits_val_nonneg(s: Seq<char>)
    requires
        all_digits(s),
    ensures
        digits_val(s) >= 0,
    decreases s.len(),
{
    if s.len() > 0 {
        assert(forall|i: int|
            0 <= i < s.drop_last().len() ==> is_digit(#[trigger] s.drop_last()[i]));
        lemma_digits_val_nonneg(s.drop_last());
    }
}

/// A longer run of digits denotes at least as large a value.
proof fn lemma_digits_val_prefix(s: Seq<char>, k: int)
    requires
        all_digits(s),
        0 <= k <= s.len(),
    ensures
        digits_val(s) >= digits_val(s.subrange(0, k)),
    decreases s.len() - k,
{
    if k < s.len() {
        let t = s.subrange(0, k + 1);
        let p = s.subrange(0, k);
        assert(t.drop_last() =~= p);
        assert(is_digit(s[k]));
        assert(forall|i: int| 0 <= i < p.len() ==> is_digit(#[trigger] p[i]));
        lemma_digits_val_nonneg(p);
        assert(digits_val(t) == digits_val(p) * 10 + digit_val(s[k]));
        assert(digits_val(p) * 10 >= digits_val(p)) by (nonlinear_arith)
            requires
                digits_val(p) >= 0,
        ;
        lemma_digits_val_prefix(s, k + 1);
    } else {
        assert(s.subrange(0, k) =~= s);
    }
}

/// Parses decimal text as a signed 64-bit number; `None` exactly when the
/// text is not an optional '-' followed by digits denoting a value in
/// range.
pub fn parse_i64(s: &Vec<char>) -> (r: Option<i64>)
    ensures
        r == parse_i64_spec(s@),
{
    let neg = s.len() >= 1 && s[0] == '-';
    let start: usize = if neg {
        1
    } else {
        0
    };
    if s.len() == start {
        return None;
    }
    let bound: u64 = if neg {
        9223372036854775808u64
    } else {
        9223372036854775807u64
    };
    let ghost digits = if neg {
        s@.drop_first()
    } else {
        s@
    };
    proof {
        assert(digits =~= s@.subrange(start as int, s@.len() as int));
    }
    let mut acc: u64 = 0;
    let mut i: usize = start;
    while i < s.len()
        invariant
            start <= i <= s@.len(),
            start == if neg {
                1int
            } else {
                0int
            },
            neg ==> s@.len() >= 2 && s@[0] == '-',
            !neg ==> (s@.len() < 1 || s@[0] != '-'),
            bound == if neg {
                9223372036854775808u64
            } else {
                9223372036854775807u64
            },
            digits == s@.subrange(start as int, s@.len() as int),
            all_digits(digits.subrange(0, i - start)),
            acc == digits_val(digits.subrange(0, i - start)),
            acc <= bound,
        decreases s@.len() - i,
    {
        let ghost pre = digits.subrange(0, i - start);
        let d = match digit_val_exec(s[i]) {
            Some(d) => d,
            None => {
                proof {
                    if neg {
                        assert(digits =~= s@.drop_first());
                        assert(!all_digits(s@));
                    } else {
                        assert(digits =~= s@);
                    }
                    assert(digits[i - start] == s@[i as int]);
                    assert(!is_digit(digits[i - start]));
                }
                return None;
            },
        };
        proof {
            assert(digits[i - start] == s@[i as int]);
        }
        if acc > (bound - d) / 10 {
            proof {
                let cur = digits.subrange(0, i + 1 - start);
                assert(cur.drop_last() =~= pre);
                assert(digits_val(cur) == acc * 10 + d);
                assert(acc * 10 + d > bound) by (nonlinear_arith)
                    requires
                        acc > (bound - d) / 10,
                        0 <= d < 10,
                        d <= bound,
                        acc >= 0,
                ;
                if all_digits(digits) {
                    assert(forall|j: int| 0 <= j < cur.len() ==> is_digit(#[trigger] cur[j]));
                    lemma_digits_val_prefix(digits, i + 1 - start);
                    assert(digits_val(digits) > bound);
                }
                if neg {
                    assert(digits =~= s@.drop_first());
                    assert(s@[0] == '-');
                    assert(!is_digit(s@[0]));
                    assert(!all_digits(s@));
                } else {
                    assert(digits =~= s@);
                }
            }
            return None;
        }
        proof {
            assert(acc * 10 + d <= bound) by (nonlinear_arith)
                requires
                    acc <= (bound - d) / 10,
                    0 <= d < 10,
                    d <= bound,
                    acc >= 0,
            ;
            let cur = digits.subrange(0, i + 1 - start);
            assert(cur.drop_last() =~= pre);
            assert(cur.last() == digits[i - start]);
            assert(forall|j: int| 0 <= j < cur.len() ==> is_digit(#[trigger] cur[j]));
        }
        acc = acc * 10 + d;
        i = i + 1;
    }
    proof {
        assert(digits.subrange(0, digits.len() as int) =~= digits);
    }
    if neg {
        if acc == 9223372036854775808u64 {
            Some(i64::MIN)
        } else {
            Some(-(acc as i64))
        }
    } else {
        Some(acc as i64)
    }
}

/// Formatting then parsing a signed 64-bit number gives it back exactly.
pub proof fn lemma_decimal_round_trip(v: i64)
    ensures
        parse_i64_spec(dec_rep_i64(v as int)) == Some(v),
{
    if v < 0 {
        let n = (-(v as int)) as nat;
        lemma_dec_rep_digits(n);
        lemma_dec_rep_val(n);
        let s = seq!['-'] + dec_rep(n);
        assert(s.drop_first() =~= dec_rep(n));
        assert(s[0] == '-');
        assert(s.len() >= 2);
    } else {
        let n = v as nat;
        lemma_dec_rep_digits(n);
        lemma_dec_rep_val(n);
        let s = dec_rep(n);
        assert(is_digit(s[0]));
        assert(s[0] != '-');
    }
}

} // verus!
