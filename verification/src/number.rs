//! Decimal literals: what they are and what they are worth.

use vstd::prelude::*;

verus! {

/// The largest magnitude a 64-bit signed integer can have: that of `i64::MIN`.
pub const MAX_MAGNITUDE: u64 = 0x8000_0000_0000_0000;

pub open spec fn is_digit(c: char) -> bool {
    '0' <= c && c <= '9'
}

pub open spec fn is_sign(c: char) -> bool {
    c == '+' || c == '-'
}

pub open spec fn digit_value(c: char) -> nat
    recommends
        is_digit(c),
{
    (c as nat - '0' as nat) as nat
}

pub open spec fn all_digits(s: Seq<char>) -> bool {
    forall|i: int| 0 <= i < s.len() ==> is_digit(#[trigger] s[i])
}

/// The number that the digits `s` write in base ten.
pub open spec fn digits_value(s: Seq<char>) -> nat
    decreases s.len(),
{
    if s.len() == 0 {
        0
    } else {
        10 * digits_value(s.drop_last()) + digit_value(s.last())
    }
}

/// The number that `s` writes, where `s` is one or more digits.
pub open spec fn unsigned_literal(s: Seq<char>) -> Option<nat> {
    if s.len() > 0 && all_digits(s) {
        Some(digits_value(s))
    } else {
        None
    }
}

/// `s` without its leading sign, if it has one.
pub open spec fn without_sign(s: Seq<char>) -> Seq<char> {
    if s.len() > 0 && is_sign(s[0]) {
        s.drop_first()
    } else {
        s
    }
}

pub open spec fn is_negative(s: Seq<char>) -> bool {
    s.len() > 0 && s[0] == '-'
}

/// The number that `s` writes, where `s` is an optional sign and then one or more
/// digits.
pub open spec fn signed_literal(s: Seq<char>) -> Option<int> {
    match unsigned_literal(without_sign(s)) {
        Some(magnitude) => Some(
            if is_negative(s) {
                -(magnitude as int)
            } else {
                magnitude as int
            },
        ),
        None => None,
    }
}

/// The 64-bit integer that `s` writes: an optional sign, one or more digits, and a
/// value in range.
pub open spec fn integer_literal(s: Seq<char>) -> Option<i64> {
    match signed_literal(s) {
        Some(v) => if i64::MIN <= v <= i64::MAX {
            Some(v as i64)
        } else {
            None
        },
        None => None,
    }
}

/// How many digits `s` starts with.
pub open spec fn leading_digits(s: Seq<char>) -> nat
    decreases s.len(),
{
    if s.len() > 0 && is_digit(s[0]) {
        1 + leading_digits(s.drop_first())
    } else {
        0
    }
}

/// Whether `s` is an exponent: `e` or `E`, an optional sign, one or more digits.
pub open spec fn is_exponent(s: Seq<char>) -> bool {
    &&& s.len() > 0
    &&& (s[0] == 'e' || s[0] == 'E')
    &&& unsigned_literal(without_sign(s.drop_first())) is Some
}

/// Whether `s` is a decimal literal with a point: an optional sign, digits around
/// one point (at least one digit in all), and an optional exponent.
pub open spec fn is_float_literal(s: Seq<char>) -> bool {
    let body = without_sign(s);
    let whole = leading_digits(body);
    let rest = body.skip(whole as int + 1);
    let fraction = leading_digits(rest);
    let tail = rest.skip(fraction as int);
    &&& whole < body.len()
    &&& body[whole as int] == '.'
    &&& whole + fraction > 0
    &&& (tail.len() == 0 || is_exponent(tail))
}

/// `s` with its sign turned: a leading `-` goes, a leading `+` becomes `-`, and a
/// literal without sign gets a `-`.
pub open spec fn negated_literal(s: Seq<char>) -> Seq<char> {
    if is_negative(s) {
        s.drop_first()
    } else {
        seq!['-'] + without_sign(s)
    }
}

/// The value of any run of digits is at least the value of each shorter run it
/// starts with.
pub proof fn lemma_digits_value_grows(s: Seq<char>, n: int)
    requires
        all_digits(s),
        0 <= n <= s.len(),
    ensures
        digits_value(s.take(n)) <= digits_value(s),
    decreases s.len() - n,
{
    if n == s.len() {
        assert(s.take(n) =~= s);
    } else {
        lemma_digits_value_grows(s, n + 1);
        assert(s.take(n + 1).drop_last() =~= s.take(n));
        assert(is_digit(s[n]));
    }
}

pub fn char_is_digit(c: char) -> (res: bool)
    ensures
        res == is_digit(c),
{
    '0' <= c && c <= '9'
}

/// The digits of `chars` from `start` up to `end`, as a number: `None` where there
/// is none, where one is no digit, or where the number is over `MAX_MAGNITUDE`.
pub fn parse_digits(chars: &Vec<char>, start: usize, end: usize) -> (res: Option<u64>)
    requires
        start <= end <= chars.len(),
    ensures
        res == match unsigned_literal(chars@.subrange(start as int, end as int)) {
            Some(v) => if v <= MAX_MAGNITUDE {
                Some(v as u64)
            } else {
                None
            },
            None => None,
        },
{
    let ghost s = chars@.subrange(start as int, end as int);
    if start == end {
        return None;
    }
    let mut acc: u64 = 0;
    let mut i: usize = start;
    while i < end
        invariant
            start <= i <= end <= chars.len(),
            s == chars@.subrange(start as int, end as int),
            all_digits(s.take(i - start)),
            acc == digits_value(s.take(i - start)),
            acc <= MAX_MAGNITUDE,
        decreases end - i,
    {
        let c = chars[i];
        assert(s[i - start] == c);
        if !char_is_digit(c) {
            return None;
        }
        let digit: u128 = (c as u32 - '0' as u32) as u128;
        let next: u128 = acc as u128 * 10 + digit;
        proof {
            assert(s.take(i - start + 1).drop_last() =~= s.take(i - start));
            assert(s.take(i - start + 1).last() == c);
            assert(next == digits_value(s.take(i - start + 1)));
            assert forall|k: int| 0 <= k < i - start + 1 implies is_digit(
                #[trigger] s.take(i - start + 1)[k],
            ) by {
                if k < i - start {
                    assert(s.take(i - start + 1)[k] == s.take(i - start)[k]);
                }
            }
        }
        if next > MAX_MAGNITUDE as u128 {
            proof {
                if all_digits(s) {
                    lemma_digits_value_grows(s, i - start + 1);
                }
            }
            return None;
        }
        acc = next as u64;
        i += 1;
    }
    assert(s.take(end - start) =~= s);
    Some(acc)
}

/// The 64-bit integer that `chars` write from `start` up to `end`.
pub fn parse_integer_in(chars: &Vec<char>, start: usize, end: usize) -> (res: Option<i64>)
    requires
        start <= end <= chars.len(),
    ensures
        res == integer_literal(chars@.subrange(start as int, end as int)),
{
    let ghost s = chars@.subrange(start as int, end as int);
    if start == end {
        return None;
    }
    let first = chars[start];
    assert(s[0] == first);
    let signed = first == '+' || first == '-';
    let digits_start: usize = if signed {
        start + 1
    } else {
        start
    };
    assert(chars@.subrange(digits_start as int, end as int) =~= without_sign(s));
    match parse_digits(chars, digits_start, end) {
        None => None,
        Some(magnitude) => {
            if first == '-' {
                if magnitude == MAX_MAGNITUDE {
                    Some(i64::MIN)
                } else {
                    Some(-(magnitude as i64))
                }
            } else if magnitude == MAX_MAGNITUDE {
                None
            } else {
                Some(magnitude as i64)
            }
        },
    }
}

/// The 64-bit integer that `chars` write.
pub fn parse_integer(chars: &Vec<char>) -> (res: Option<i64>)
    ensures
        res == integer_literal(chars@),
{
    assert(chars@.subrange(0, chars.len() as int) =~= chars@);
    parse_integer_in(chars, 0, chars.len())
}

/// How many digits `chars` hold from `start` on.
pub fn count_digits(chars: &Vec<char>, start: usize) -> (n: usize)
    requires
        start <= chars.len(),
    ensures
        n == leading_digits(chars@.skip(start as int)),
        start + n <= chars.len(),
{
    let mut i: usize = start;
    while i < chars.len() && char_is_digit(chars[i])
        invariant
            start <= i <= chars.len(),
            leading_digits(chars@.skip(start as int)) == (i - start) + leading_digits(
                chars@.skip(i as int),
            ),
        decreases chars.len() - i,
    {
        assert(chars@.skip(i as int).drop_first() =~= chars@.skip(i + 1));
        i += 1;
    }
    i - start
}

/// Whether `chars` hold an exponent from `start` on.
pub fn check_exponent(chars: &Vec<char>, start: usize) -> (res: bool)
    requires
        start <= chars.len(),
    ensures
        res == is_exponent(chars@.skip(start as int)),
{
    let len = chars.len();
    let ghost tail = chars@.skip(start as int);
    if start == len {
        return false;
    }
    let mark = chars[start];
    assert(tail[0] == mark);
    if mark != 'e' && mark != 'E' {
        return false;
    }
    let after = start + 1;
    assert(tail.drop_first() =~= chars@.skip(after as int));
    let digits_start: usize = if after < len && (chars[after] == '+' || chars[after] == '-') {
        after + 1
    } else {
        after
    };
    assert(without_sign(tail.drop_first()) =~= chars@.skip(digits_start as int)) by {
        if after < len {
            assert(chars@.skip(after as int)[0] == chars@[after as int]);
            assert(chars@.skip(after as int).drop_first() =~= chars@.skip(after + 1));
        }
    }
    let digits = count_digits(chars, digits_start);
    proof {
        lemma_leading_digits_all(chars@.skip(digits_start as int));
    }
    digits_start < len && digits_start + digits == len
}

/// Whether `chars` write a decimal literal with a point.
pub fn check_float_literal(chars: &Vec<char>) -> (res: bool)
    ensures
        res == is_float_literal(chars@),
{
    let len = chars.len();
    let start: usize = if len > 0 && (chars[0] == '+' || chars[0] == '-') {
        1
    } else {
        0
    };
    let ghost body = without_sign(chars@);
    assert(body =~= chars@.skip(start as int));
    let whole = count_digits(chars, start);
    let point = start + whole;
    if point >= len {
        return false;
    }
    assert(body[whole as int] == chars@[point as int]);
    if chars[point] != '.' {
        return false;
    }
    let ghost rest = body.skip(whole as int + 1);
    assert(rest =~= chars@.skip(point + 1));
    let fraction = count_digits(chars, point + 1);
    if whole + fraction == 0 {
        return false;
    }
    let tail_start = point + 1 + fraction;
    assert(rest.skip(fraction as int) =~= chars@.skip(tail_start as int));
    if tail_start == len {
        return true;
    }
    check_exponent(chars, tail_start)
}

/// A run of characters is all digits exactly when its leading digits are all of it.
pub proof fn lemma_leading_digits_all(s: Seq<char>)
    ensures
        leading_digits(s) <= s.len(),
        all_digits(s) <==> leading_digits(s) == s.len(),
    decreases s.len(),
{
    if s.len() > 0 {
        lemma_leading_digits_all(s.drop_first());
        if is_digit(s[0]) {
            if all_digits(s.drop_first()) {
                assert forall|i: int| 0 <= i < s.len() implies is_digit(#[trigger] s[i]) by {
                    if i > 0 {
                        assert(s[i] == s.drop_first()[i - 1]);
                    }
                }
            }
            if all_digits(s) {
                assert forall|i: int| 0 <= i < s.drop_first().len() implies is_digit(
                    #[trigger] s.drop_first()[i],
                ) by {
                    assert(s.drop_first()[i] == s[i + 1]);
                }
            }
        }
    }
}

/// What follows the sign of a decimal literal is a digit or the point, never a
/// second sign.
pub proof fn lemma_float_body_starts_unsigned(s: Seq<char>)
    requires
        is_float_literal(s),
    ensures
        without_sign(s).len() > 0,
        !is_sign(without_sign(s)[0]),
{
    let body = without_sign(s);
    if leading_digits(body) == 0 {
        assert(body[0] == '.');
    } else {
        assert(is_digit(body[0]));
    }
}

} // verus!
