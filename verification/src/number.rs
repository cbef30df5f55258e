//! Decimal numbers written as text: which texts are numbers, and the value
//! of the integers among them.

use vstd::prelude::*;
use crate::error::{failure, yields, ErrorKind, ErrorView, ValueError};
use crate::text::{chars_of, is_word, spells};

verus! {

/// `c` is one of the ten decimal digits.
pub open spec fn is_digit(c: char) -> bool {
    '0' <= c <= '9'
}

/// The value of a decimal digit.
pub open spec fn digit_value(c: char) -> int {
    c as int - '0' as int
}

/// `c` is a plus or a minus sign.
pub open spec fn is_sign(c: char) -> bool {
    c == '+' || c == '-'
}

/// Every character of `s` is a decimal digit.
pub open spec fn all_digits(s: Seq<char>) -> bool {
    forall|i: int| 0 <= i < s.len() ==> is_digit(#[trigger] s[i])
}

/// The number that the digits `s` write in base ten.
pub open spec fn digits_value(s: Seq<char>) -> int
    decreases s.len(),
{
    if s.len() == 0 {
        0
    } else {
        10 * digits_value(s.drop_last()) + digit_value(s.last())
    }
}

/// `s` without its leading sign, if it has one.
pub open spec fn unsigned_part(s: Seq<char>) -> Seq<char> {
    if s.len() > 0 && is_sign(s[0]) {
        s.drop_first()
    } else {
        s
    }
}

/// `s` is an optional sign followed by one or more decimal digits.
pub open spec fn is_integer_text(s: Seq<char>) -> bool {
    unsigned_part(s).len() > 0 && all_digits(unsigned_part(s))
}

/// The integer that the text `s` writes.
pub open spec fn integer_value(s: Seq<char>) -> int {
    if s.len() > 0 && s[0] == '-' {
        -digits_value(unsigned_part(s))
    } else {
        digits_value(unsigned_part(s))
    }
}

/// The 32-bit integer that `s` writes, if `s` writes an integer and that
/// integer fits.
pub open spec fn i32_of(s: Seq<char>) -> Option<i32> {
    if is_integer_text(s) && i32::MIN <= integer_value(s) <= i32::MAX {
        Some(integer_value(s) as i32)
    } else {
        None
    }
}

/// The digits of a prefix write a number that is no larger than the number of
/// all the digits, and no number written by digits is negative.
pub proof fn lemma_digits_prefix(s: Seq<char>, k: int)
    requires
        all_digits(s),
        0 <= k <= s.len(),
    ensures
        0 <= digits_value(s.take(k)) <= digits_value(s),
    decreases s.len(),
{
    if k == s.len() {
        assert(s.take(k) =~= s);
        if s.len() > 0 {
            lemma_digits_prefix(s.drop_last(), k - 1);
            assert(s.drop_last().take(k - 1) =~= s.drop_last());
            assert(is_digit(s[s.len() - 1]));
        }
    } else {
        lemma_digits_prefix(s.drop_last(), k);
        assert(s.drop_last().take(k) =~= s.take(k));
        assert(is_digit(s[s.len() - 1]));
    }
}

/// The value of the decimal digit `c`.
fn digit_of(c: char) -> (d: i64)
    requires
        is_digit(c),
    ensures
        d == digit_value(c),
        0 <= d <= 9,
{
    (c as u32 - '0' as u32) as i64
}

/// Reads `s` as a decimal integer of 32 bits: an optional sign followed by
/// one or more digits.
pub fn parse_i32(s: &str) -> (r: Option<i32>)
    ensures
        r == i32_of(s@),
{
    let v = chars_of(s);
    let n = v.len();
    if n == 0 {
        return None;
    }
    let negative = v[0] == '-';
    let start: usize = if v[0] == '+' || v[0] == '-' {
        1
    } else {
        0
    };
    let ghost digits = unsigned_part(s@);
    assert(digits =~= v@.subrange(start as int, n as int));
    if start == n {
        return None;
    }
    let limit: i64 = if negative {
        2147483648
    } else {
        2147483647
    };
    let mut acc: i64 = 0;
    let mut i: usize = start;
    assert(digits.take(0) =~= Seq::<char>::empty());
    while i < n
        invariant
            start <= i <= n == v.len(),
            v@ == s@,
            digits == v@.subrange(start as int, n as int),
            digits == unsigned_part(s@),
            negative == (s@.len() > 0 && s@[0] == '-'),
            limit == if negative { 2147483648i64 } else { 2147483647i64 },
            all_digits(digits.take(i - start)),
            acc == digits_value(digits.take(i - start)),
            0 <= acc <= limit <= 2147483648,
        decreases n - i,
    {
        let c = v[i];
        if !(c >= '0' && c <= '9') {
            assert(!is_digit(digits[i - start]));
            return None;
        }
        let ghost seen = digits.take(i - start + 1);
        assert(seen.drop_last() =~= digits.take(i - start));
        assert(seen.last() == c);
        assert(all_digits(seen)) by {
            assert forall|k: int| 0 <= k < seen.len() implies is_digit(#[trigger] seen[k]) by {
                if k < seen.len() - 1 {
                    assert(seen[k] == digits.take(i - start)[k]);
                }
            }
        }
        acc = acc * 10 + digit_of(c);
        if acc > limit {
            proof {
                if all_digits(digits) {
                    lemma_digits_prefix(digits, i - start + 1);
                }
            }
            return None;
        }
        i += 1;
    }
    assert(digits.take(n - start) =~= digits);
    if negative {
        Some((-acc) as i32)
    } else {
        Some(acc as i32)
    }
}

/// `m` is made of decimal digits and at most one point, and has at least one
/// digit.
pub open spec fn is_decimal(m: Seq<char>) -> bool {
    &&& forall|i: int| 0 <= i < m.len() ==> is_digit(#[trigger] m[i]) || m[i] == '.'
    &&& forall|i: int, j: int|
        0 <= i < j < m.len() ==> !(#[trigger] m[i] == '.' && #[trigger] m[j] == '.')
    &&& exists|i: int| 0 <= i < m.len() && is_digit(#[trigger] m[i])
}

/// `x` is the letter `e`, in either case, followed by an integer.
pub open spec fn is_exponent(x: Seq<char>) -> bool {
    x.len() > 0 && (x[0] == 'e' || x[0] == 'E') && is_integer_text(x.drop_first())
}

/// `b` is a decimal number, optionally followed by an exponent.
pub open spec fn is_number(b: Seq<char>) -> bool {
    exists|k: int|
        0 <= k <= b.len() && is_decimal(#[trigger] b.take(k)) && (k == b.len() || is_exponent(
            b.skip(k),
        ))
}

/// `s` is a decimal floating-point number: an optional sign, followed by a
/// decimal number with an optional exponent, or by one of the words `inf`,
/// `infinity` and `nan` in any mix of cases.
pub open spec fn is_float_text(s: Seq<char>) -> bool {
    let b = unsigned_part(s);
    is_word(b, "INF"@, "inf"@) || is_word(b, "INFINITY"@, "infinity"@) || is_word(
        b,
        "NAN"@,
        "nan"@,
    ) || is_number(b)
}

/// Whether the characters of `v` from `from` on write an integer.
fn is_integer_from(v: &Vec<char>, from: usize) -> (b: bool)
    requires
        from <= v.len(),
    ensures
        b == is_integer_text(v@.skip(from as int)),
{
    let n = v.len();
    let ghost t = v@.skip(from as int);
    if from == n {
        return false;
    }
    let start: usize = if v[from] == '+' || v[from] == '-' {
        from + 1
    } else {
        from
    };
    let ghost digits = unsigned_part(t);
    assert(digits =~= v@.skip(start as int));
    if start == n {
        return false;
    }
    let mut i: usize = start;
    while i < n
        invariant
            start <= i <= n == v.len(),
            digits == v@.skip(start as int),
            digits == unsigned_part(v@.skip(from as int)),
            forall|k: int| 0 <= k < i - start ==> is_digit(#[trigger] digits[k]),
        decreases n - i,
    {
        let c = v[i];
        if !(c >= '0' && c <= '9') {
            assert(!is_digit(digits[i - start]));
            return false;
        }
        i += 1;
    }
    true
}

/// Whether the characters of `v` from `start` on are a decimal number with an
/// optional exponent.
fn is_number_from(v: &Vec<char>, start: usize) -> (b: bool)
    requires
        start <= v.len(),
    ensures
        b == is_number(v@.skip(start as int)),
{
    let n = v.len();
    let ghost body = v@.skip(start as int);
    let mut seen_digit = false;
    let mut seen_point = false;
    let ghost mut point: int = -1;
    let ghost mut digit: int = -1;
    let mut i: usize = start;
    while i < n && (v[i] == '.' || (v[i] >= '0' && v[i] <= '9'))
        invariant
            start <= i <= n == v.len(),
            body == v@.skip(start as int),
            forall|k: int| 0 <= k < i - start ==> is_digit(#[trigger] body[k]) || body[k] == '.',
            seen_point ==> 0 <= point < i - start && body[point] == '.',
            forall|k: int| 0 <= k < i - start && #[trigger] body[k] == '.' ==> seen_point && k == point,
            seen_digit ==> 0 <= digit < i - start && is_digit(body[digit]),
            forall|k: int| 0 <= k < i - start && is_digit(#[trigger] body[k]) ==> seen_digit,
        decreases n - i,
    {
        if v[i] == '.' {
            if seen_point {
                proof {
                    let j = i - start;
                    assert forall|k: int| 0 <= k <= body.len() && is_decimal(#[trigger] body.take(k))
                        implies !(k == body.len() || is_exponent(body.skip(k))) by {
                        if k <= j {
                            assert(body.skip(k)[0] == body[k]);
                        } else {
                            assert(body.take(k)[point] == '.');
                            assert(body.take(k)[j] == '.');
                        }
                    }
                }
                return false;
            }
            seen_point = true;
            proof {
                point = i - start;
            }
        } else {
            seen_digit = true;
            proof {
                digit = i - start;
            }
        }
        i += 1;
    }
    let ghost j = i - start;
    proof {
        // Only the decimal part that ends where the scan stopped can be followed
        // by nothing or by an exponent.
        assert forall|k: int|
            0 <= k <= body.len() && is_decimal(#[trigger] body.take(k)) && (k == body.len()
                || is_exponent(body.skip(k))) implies k == j by {
            if k < j {
                assert(body.skip(k)[0] == body[k]);
            } else if k > j {
                assert(body.take(k)[j] == body[j]);
            }
        }
        if seen_digit {
            assert(body.take(j)[digit] == body[digit]);
            assert(is_decimal(body.take(j))) by {
                assert forall|a: int, b: int| 0 <= a < b < j implies !(#[trigger] body.take(j)[a]
                    == '.' && #[trigger] body.take(j)[b] == '.') by {
                    assert(body.take(j)[a] == body[a]);
                    assert(body.take(j)[b] == body[b]);
                }
                assert forall|a: int| 0 <= a < j implies is_digit(#[trigger] body.take(j)[a])
                    || body.take(j)[a] == '.' by {
                    assert(body.take(j)[a] == body[a]);
                }
            }
        } else {
            assert forall|a: int| 0 <= a < j implies !is_digit(#[trigger] body.take(j)[a]) by {
                assert(body.take(j)[a] == body[a]);
            }
        }
    }
    if !seen_digit {
        return false;
    }
    if i == n {
        return true;
    }
    if v[i] == 'e' || v[i] == 'E' {
        assert(body.skip(j).drop_first() =~= v@.skip(i + 1));
        assert(body.skip(j)[0] == body[j]);
        return is_integer_from(&v, i + 1);
    }
    assert(body.skip(j)[0] == body[j]);
    false
}

/// Whether `s` is a decimal floating-point number.
pub fn is_float(s: &str) -> (b: bool)
    ensures
        b == is_float_text(s@),
{
    let v = chars_of(s);
    let n = v.len();
    let start: usize = if n > 0 && (v[0] == '+' || v[0] == '-') {
        1
    } else {
        0
    };
    assert(unsigned_part(s@) =~= v@.skip(start as int));
    spells(&v, start, "INF", "inf") || spells(&v, start, "INFINITY", "infinity") || spells(
        &v,
        start,
        "NAN",
        "nan",
    ) || is_number_from(&v, start)
}

/// The 32-bit integer that `s` writes, or the error about `s`.
pub open spec fn decode_i32(s: Seq<char>) -> Result<i32, ErrorView> {
    match i32_of(s) {
        Some(n) => Ok(n),
        None => Err(failure(ErrorKind::IntegerParse, s)),
    }
}

/// Reads `s` as a decimal integer of 32 bits, and names `s` in the error
/// where it is none.
pub fn parse_integer(s: &str) -> (r: Result<i32, ValueError>)
    ensures
        yields(r, decode_i32(s@)),
{
    match parse_i32(s) {
        Some(n) => Ok(n),
        None => Err(ValueError::new(ErrorKind::IntegerParse, s)),
    }
}

} // verus!
