//! Decimal text for the integer call values: parsing a token under the
//! signed-integer grammar (an optional single sign, then one or more
//! digits, the whole token), and printing a value back in canonical
//! decimal. Both directions are pinned to the same spec-level grammar,
//! which makes the round trip provable.

use vstd::prelude::*;

verus! {

pub open spec fn is_dec_digit(c: char) -> bool {
    '0' <= c && c <= '9'
}

pub open spec fn digit_val(c: char) -> int {
    c as int - '0' as int
}

pub open spec fn all_dec_digits(s: Seq<char>) -> bool {
    forall|i: int| 0 <= i < s.len() ==> is_dec_digit(#[trigger] s[i])
}

/// The value of a digit string read in base ten; leading zeros carry no
/// weight, an empty string reads as zero.
pub open spec fn dec_value(s: Seq<char>) -> int
    decreases s.len(),
{
    if s.len() == 0 {
        0
    } else {
        dec_value(s.drop_last()) * 10 + digit_val(s.last())
    }
}

/// The integer denoted by a whole token: an optional single leading `+` or
/// `-`, then one or more digits, and nothing else. `None` for anything that
/// does not fit this shape.
pub open spec fn int_token_value(s: Seq<char>) -> Option<int> {
    if s.len() > 0 && (s[0] == '+' || s[0] == '-') {
        let body = s.subrange(1, s.len() as int);
        if body.len() > 0 && all_dec_digits(body) {
            Some(
                if s[0] == '-' {
                    -dec_value(body)
                } else {
                    dec_value(body)
                },
            )
        } else {
            None
        }
    } else if s.len() > 0 && all_dec_digits(s) {
        Some(dec_value(s))
    } else {
        None
    }
}

/// What a 32-bit integer parameter accepts: the token's value, when the
/// token is well formed and the value fits the type.
pub open spec fn i32_token(s: Seq<char>) -> Option<i32> {
    match int_token_value(s) {
        None => None,
        Some(v) => if i32::MIN <= v <= i32::MAX {
            Some(v as i32)
        } else {
            None
        },
    }
}

/// What a 64-bit integer parameter accepts.
pub open spec fn i64_token(s: Seq<char>) -> Option<i64> {
    match int_token_value(s) {
        None => None,
        Some(v) => if i64::MIN <= v <= i64::MAX {
            Some(v as i64)
        } else {
            None
        },
    }
}

/// The canonical digits of a nonnegative value: no sign, no leading zero
/// except for zero itself.
pub open spec fn dec_digits(n: nat) -> Seq<char>
    decreases n,
{
    if n < 10 {
        seq![digit_char(n)]
    } else {
        dec_digits(n / 10) + seq![digit_char(n % 10)]
    }
}

pub open spec fn digit_char(n: nat) -> char {
    if n == 0 {
        '0'
    } else if n == 1 {
        '1'
    } else if n == 2 {
        '2'
    } else if n == 3 {
        '3'
    } else if n == 4 {
        '4'
    } else if n == 5 {
        '5'
    } else if n == 6 {
        '6'
    } else if n == 7 {
        '7'
    } else if n == 8 {
        '8'
    } else {
        '9'
    }
}

/// The canonical decimal display of an integer: a `-` before the digits of
/// the magnitude when negative, the bare digits otherwise.
pub open spec fn int_display(v: int) -> Seq<char> {
    if v >= 0 {
        dec_digits(v as nat)
    } else {
        seq!['-'] + dec_digits((-v) as nat)
    }
}

proof fn lemma_dec_value_nonneg(s: Seq<char>)
    requires
        all_dec_digits(s),
    ensures
        dec_value(s) >= 0,
    decreases s.len(),
{
    if s.len() > 0 {
        assert(forall|i: int|
            0 <= i < s.drop_last().len() ==> is_dec_digit(#[trigger] s.drop_last()[i]));
        lemma_dec_value_nonneg(s.drop_last());
    }
}

/// Reading more digits never lowers the value: the value of any prefix of an
/// all-digit string is at most the value of the whole.
proof fn lemma_dec_value_prefix_le(s: Seq<char>, i: int)
    requires
        all_dec_digits(s),
        0 <= i <= s.len(),
    ensures
        dec_value(s.take(i)) <= dec_value(s),
    decreases s.len() - i,
{
    if i == s.len() {
        assert(s.take(i) =~= s);
    } else {
        assert(s.take(i + 1).drop_last() =~= s.take(i));
        assert(s.take(i + 1).last() == s[i]);
        assert(forall|j: int|
            0 <= j < s.take(i).len() ==> is_dec_digit(#[trigger] s.take(i)[j]));
        lemma_dec_value_nonneg(s.take(i));
        assert(dec_value(s.take(i + 1)) == dec_value(s.take(i)) * 10 + digit_val(s[i]));
        lemma_dec_value_prefix_le(s, i + 1);
    }
}

/// Parse the digits of `s` from position `start` to its end, accepting only
/// values up to `bound`. The result is pinned to the spec grammar: `Some(v)`
/// exactly when that whole tail is one or more digits denoting `v <= bound`.
fn parse_digits_bounded(s: &str, start: usize, bound: u64) -> (r: Option<u64>)
    requires
        start <= s@.len(),
    ensures
        ({
            let body = s@.subrange(start as int, s@.len() as int);
            match r {
                Some(v) => body.len() > 0 && all_dec_digits(body) && v as int == dec_value(body)
                    && v <= bound,
                None => body.len() == 0 || !all_dec_digits(body) || dec_value(body) > bound,
            }
        }),
{
    let ghost body = s@.subrange(start as int, s@.len() as int);
    let n = s.unicode_len();
    if start >= n {
        return None;
    }
    let mut acc: u64 = 0;
    let mut i: usize = start;
    while i < n
        invariant
            start <= i <= n,
            n == s@.len(),
            body == s@.subrange(start as int, s@.len() as int),
            forall|j: int| start <= j < i ==> is_dec_digit(#[trigger] s@[j]),
            acc as int == dec_value(s@.subrange(start as int, i as int)),
            acc <= bound,
        decreases n - i,
    {
        let c = s.get_char(i);
        if !('0' <= c && c <= '9') {
            assert(body[i - start] == s@[i as int]);
            assert(!all_dec_digits(body));
            return None;
        }
        let d: u64 = ((c as u32) - ('0' as u32)) as u64;
        proof {
            assert(s@.subrange(start as int, i + 1).drop_last() =~= s@.subrange(
                start as int,
                i as int,
            ));
            assert(s@.subrange(start as int, i + 1).last() == s@[i as int]);
            assert(dec_value(s@.subrange(start as int, i + 1)) == acc * 10 + d);
        }
        if d > bound || acc > (bound - d) / 10 {
            proof {
                let m = (bound - d) as int;
                assert(10 * (m / 10) + m % 10 == m);
                assert(acc * 10 + d > bound);
                assert(forall|j: int|
                    0 <= j < body.len() ==> body[j] == s@[start + j]);
                if all_dec_digits(body) {
                    assert(body.take(i + 1 - start) =~= s@.subrange(start as int, i + 1));
                    lemma_dec_value_prefix_le(body, i + 1 - start);
                }
            }
            return None;
        }
        proof {
            let m = (bound - d) as int;
            assert(10 * (m / 10) + m % 10 == m);
            assert(acc * 10 + d <= bound);
        }
        acc = acc * 10 + d;
        i += 1;
    }
    assert(body =~= s@.subrange(start as int, i as int));
    Some(acc)
}

/// Parse one whole token as a 64-bit integer, exactly as the type's decimal
/// grammar reads it: `None` on an empty or malformed token and on a value
/// outside the type's range.
pub fn parse_i64(s: &str) -> (r: Option<i64>)
    ensures
        r == i64_token(s@),
{
    let n = s.unicode_len();
    if n == 0 {
        return None;
    }
    let c0 = s.get_char(0);
    let negative = c0 == '-';
    let start: usize = if c0 == '-' || c0 == '+' {
        1
    } else {
        0
    };
    let bound: u64 = if negative {
        9223372036854775808u64
    } else {
        9223372036854775807u64
    };
    let ghost body = s@.subrange(start as int, s@.len() as int);
    proof {
        if start == 0 {
            assert(body =~= s@);
        }
    }
    match parse_digits_bounded(s, start, bound) {
        None => {
            proof {
                if body.len() > 0 && all_dec_digits(body) {
                    lemma_dec_value_nonneg(body);
                }
            }
            None
        },
        Some(v) => {
            if negative {
                if v == 0 {
                    Some(0)
                } else {
                    Some((-(v as i128)) as i64)
                }
            } else {
                Some(v as i64)
            }
        },
    }
}

/// Parse one whole token as a 32-bit integer.
pub fn parse_i32(s: &str) -> (r: Option<i32>)
    ensures
        r == i32_token(s@),
{
    let n = s.unicode_len();
    if n == 0 {
        return None;
    }
    let c0 = s.get_char(0);
    let negative = c0 == '-';
    let start: usize = if c0 == '-' || c0 == '+' {
        1
    } else {
        0
    };
    let bound: u64 = if negative {
        2147483648u64
    } else {
        2147483647u64
    };
    let ghost body = s@.subrange(start as int, s@.len() as int);
    proof {
        if start == 0 {
            assert(body =~= s@);
        }
    }
    match parse_digits_bounded(s, start, bound) {
        None => {
            proof {
                if body.len() > 0 && all_dec_digits(body) {
                    lemma_dec_value_nonneg(body);
                }
            }
            None
        },
        Some(v) => {
            if negative {
                Some((-(v as i64)) as i32)
            } else {
                Some(v as i32)
            }
        },
    }
}

/// One digit as text.
fn digit_str(d: u64) -> (s: &'static str)
    requires
        d < 10,
    ensures
        s@ =~= seq![digit_char(d as nat)],
{
    proof {
        reveal_strlit("0");
        reveal_strlit("1");
        reveal_strlit("2");
        reveal_strlit("3");
        reveal_strlit("4");
        reveal_strlit("5");
        reveal_strlit("6");
        reveal_strlit("7");
        reveal_strlit("8");
        reveal_strlit("9");
    }
    if d == 0 {
        "0"
    } else if d == 1 {
        "1"
    } else if d == 2 {
        "2"
    } else if d == 3 {
        "3"
    } else if d == 4 {
        "4"
    } else if d == 5 {
        "5"
    } else if d == 6 {
        "6"
    } else if d == 7 {
        "7"
    } else if d == 8 {
        "8"
    } else {
        "9"
    }
}

/// Print a 64-bit magnitude in decimal.
pub fn format_u64(n: u64) -> (s: String)
    ensures
        s@ == dec_digits(n as nat),
    decreases n,
{
    if n < 10 {
        String::from_str(digit_str(n))
    } else {
        let mut s = format_u64(n / 10);
        s.append(digit_str(n % 10));
        s
    }
}

/// Print a 128-bit magnitude in decimal; the vector result kind is shown
/// this way, as its raw integer representation.
pub fn format_u128(n: u128) -> (s: String)
    ensures
        s@ == dec_digits(n as nat),
    decreases n,
{
    if n < 10 {
        String::from_str(digit_str((n % 10) as u64))
    } else {
        let mut s = format_u128(n / 10);
        s.append(digit_str((n % 10) as u64));
        s
    }
}

/// Print a 64-bit integer in its canonical decimal display.
pub fn format_i64(n: i64) -> (s: String)
    ensures
        s@ == int_display(n as int),
{
    if n >= 0 {
        format_u64(n as u64)
    } else {
        let mag: u64 = (-(n as i128)) as u64;
        let mut s = String::from_str("-");
        proof {
            reveal_strlit("-");
        }
        let digits = format_u64(mag);
        s.append(digits.as_str());
        proof {
            assert(s@ =~= seq!['-'] + dec_digits(mag as nat));
        }
        s
    }
}

/// Print a 32-bit integer in its canonical decimal display.
pub fn format_i32(n: i32) -> (s: String)
    ensures
        s@ == int_display(n as int),
{
    format_i64(n as i64)
}

proof fn lemma_dec_digits_shape(n: nat)
    ensures
        dec_digits(n).len() > 0,
        all_dec_digits(dec_digits(n)),
        dec_value(dec_digits(n)) == n,
    decreases n,
{
    if n < 10 {
        assert(dec_digits(n) =~= seq![digit_char(n)]);
        assert(is_dec_digit(digit_char(n)));
        assert(seq![digit_char(n)].drop_last() =~= Seq::<char>::empty());
        assert(seq![digit_char(n)].last() == digit_char(n));
        assert(dec_value(Seq::<char>::empty()) == 0);
        assert(dec_value(seq![digit_char(n)]) == digit_val(digit_char(n)));
    } else {
        lemma_dec_digits_shape(n / 10);
        let s = dec_digits(n);
        assert(s =~= dec_digits(n / 10) + seq![digit_char(n % 10)]);
        assert(s.drop_last() =~= dec_digits(n / 10));
        assert(s.last() == digit_char(n % 10));
        assert(forall|i: int| 0 <= i < s.len() ==> is_dec_digit(#[trigger] s[i]));
        assert(dec_value(s) == dec_value(dec_digits(n / 10)) * 10 + digit_val(
            digit_char(n % 10),
        ));
        assert(10 * (n / 10) + n % 10 == n) by (nonlinear_arith);
    }
}

/// Law: printing an integer and parsing the printed token yields the value
/// back; the decimal display round-trips through the token grammar.
pub proof fn lemma_int_round_trip(v: int)
    ensures
        int_token_value(int_display(v)) == Some(v),
{
    if v >= 0 {
        lemma_dec_digits_shape(v as nat);
        let s = int_display(v);
        assert(is_dec_digit(s[0]));
        assert(s[0] != '+' && s[0] != '-');
    } else {
        lemma_dec_digits_shape((-v) as nat);
        let s = int_display(v);
        assert(s[0] == '-');
        assert(s.subrange(1, s.len() as int) =~= dec_digits((-v) as nat));
    }
}

/// Law: the round trip at the 64-bit kind: a value printed, then read back
/// as a 64-bit token, is the same value.
pub proof fn lemma_i64_round_trip(v: i64)
    ensures
        i64_token(int_display(v as int)) == Some(v),
{
    lemma_int_round_trip(v as int);
}

/// Law: the round trip at the 32-bit kind.
pub proof fn lemma_i32_round_trip(v: i32)
    ensures
        i32_token(int_display(v as int)) == Some(v),
{
    lemma_int_round_trip(v as int);
}

} // verus!
