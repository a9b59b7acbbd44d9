//! Reading integers from decimal text, as configuration fields and server
//! status values arrive.

use vstd::prelude::*;

verus! {

/// An ASCII decimal digit.
pub open spec fn is_digit(c: char) -> bool {
    48 <= (c as u32) <= 57
}

/// Every character of `s` is a decimal digit.
pub open spec fn all_digits(s: Seq<char>) -> bool {
    forall|i: int| 0 <= i < s.len() ==> is_digit(#[trigger] s[i])
}

/// The number that a run of digits denotes.
pub open spec fn digits_value(s: Seq<char>) -> nat
    decreases s.len(),
{
    if s.len() == 0 {
        0
    } else {
        digits_value(s.drop_last()) * 10 + ((s.last() as u32) - 48) as nat
    }
}

/// The integer that a decimal text denotes: an optional `+` (or `-`, where
/// `signed`) followed by at least one digit, and nothing else.
pub open spec fn decimal_value(s: Seq<char>, signed: bool) -> Option<int> {
    if s.len() >= 2 && s[0] == '+' && all_digits(s.drop_first()) {
        Some(digits_value(s.drop_first()) as int)
    } else if signed && s.len() >= 2 && s[0] == '-' && all_digits(s.drop_first()) {
        Some(-(digits_value(s.drop_first()) as int))
    } else if s.len() >= 1 && all_digits(s) {
        Some(digits_value(s) as int)
    } else {
        None
    }
}

/// The value of `s` when it is a decimal text whose value lies in
/// `[lo, hi]`.
pub open spec fn decimal_in(s: Seq<char>, signed: bool, lo: int, hi: int) -> Option<int> {
    match decimal_value(s, signed) {
        Some(v) => if lo <= v <= hi { Some(v) } else { None },
        None => None,
    }
}

proof fn lemma_prefix_value(s: Seq<char>, i: int)
    requires
        0 <= i <= s.len(),
    ensures
        digits_value(s.subrange(0, i)) <= digits_value(s),
    decreases s.len(),
{
    if i < s.len() {
        assert(s.drop_last().subrange(0, i) =~= s.subrange(0, i));
        lemma_prefix_value(s.drop_last(), i);
        let x = digits_value(s.drop_last());
        assert(x <= x * 10) by (nonlinear_arith);
    } else {
        assert(s.subrange(0, i) =~= s);
    }
}

/// Reads a decimal integer in `[lo, hi]`; `None` for any other text.
pub fn parse_decimal(s: &str, signed: bool, lo: i64, hi: i64) -> (r: Option<i64>)
    ensures
        r is Some <==> decimal_in(s@, signed, lo as int, hi as int) is Some,
        r is Some ==> r->0 as int == decimal_in(s@, signed, lo as int, hi as int)->0,
{
    let n = s.unicode_len();
    if n == 0 {
        return None;
    }
    let first = s.get_char(0);
    let negative = signed && first == '-' && n >= 2;
    let start: usize = if (first == '+' || negative) && n >= 2 { 1 } else { 0 };
    // no magnitude above 2^63 lies in any range of 64-bit integers
    let bound: u128 = 9223372036854775808;
    let ghost digits = s@.subrange(start as int, n as int);
    proof {
        if start == 1 {
            assert(digits =~= s@.drop_first());
        } else {
            assert(digits =~= s@);
        }
    }
    let mut acc: u128 = 0;
    let mut i: usize = start;
    while i < n
        invariant
            n == s@.len(),
            start <= i <= n,
            start == 0 || start == 1,
            digits == s@.subrange(start as int, n as int),
            all_digits(s@.subrange(start as int, i as int)),
            acc == digits_value(s@.subrange(start as int, i as int)),
            acc <= bound,
            bound == 9223372036854775808,
            start == 1 ==> digits == s@.drop_first(),
            start == 0 ==> digits == s@,
            n >= 1,
            first == s@[0],
            negative ==> start == 1 && signed && first == '-',
            start == 1 && !negative ==> first == '+',
            start == 0 ==> !(first == '+' && n >= 2) && !(signed && first == '-' && n >= 2),
        decreases n - i,
    {
        let c = s.get_char(i);
        let u = c as u32;
        if u < 48 || u > 57 {
            assert(!all_digits(digits)) by {
                assert(digits[i - start] == c);
            }
            assert(!is_digit(first) || start == 0);
            return None;
        }
        let ghost prev = s@.subrange(start as int, i as int);
        assert(s@.subrange(start as int, i as int + 1).drop_last() =~= prev);
        acc = acc * 10 + (u - 48) as u128;
        i = i + 1;
        if acc > bound {
            proof {
                assert(digits.subrange(0, i - start) =~= s@.subrange(start as int, i as int));
                lemma_prefix_value(digits, i - start);
                assert(digits_value(digits) > bound);
            }
            return None;
        }
    }
    assert(s@.subrange(start as int, n as int) =~= digits);
    let v: i128 = if negative { -(acc as i128) } else { acc as i128 };
    if lo as i128 <= v && v <= hi as i128 {
        Some(v as i64)
    } else {
        None
    }
}

/// Reads a port number.
pub fn parse_port(s: &str) -> (r: Option<u16>)
    ensures
        r is Some <==> decimal_in(s@, false, 0, 65535) is Some,
        r is Some ==> r->0 as int == decimal_in(s@, false, 0, 65535)->0,
{
    match parse_decimal(s, false, 0, 65535) {
        Some(v) => Some(v as u16),
        None => None,
    }
}

/// Reads an optional port: an empty text means no port; any other text
/// must be a port number.
pub fn parse_optional_port(s: &str) -> (r: Result<Option<u16>, ()>)
    ensures
        s@.len() == 0 ==> r == Ok::<Option<u16>, ()>(None),
        s@.len() > 0 ==> (r is Ok <==> decimal_in(s@, false, 0, 65535) is Some),
        s@.len() > 0 && r is Ok ==> r->Ok_0 is Some && r->Ok_0->0 as int == decimal_in(s@, false, 0, 65535)->0,
{
    if s.unicode_len() == 0 {
        return Ok(None);
    }
    match parse_port(s) {
        Some(p) => Ok(Some(p)),
        None => Err(()),
    }
}

/// Reads a signed 32-bit count, falling back to `default` for anything
/// that is not one.
pub fn count_or(s: &str, default: i32) -> (r: i32)
    ensures
        decimal_in(s@, true, i32::MIN as int, i32::MAX as int) is Some ==> r as int == decimal_in(
            s@,
            true,
            i32::MIN as int,
            i32::MAX as int,
        )->0,
        decimal_in(s@, true, i32::MIN as int, i32::MAX as int) is None ==> r == default,
{
    match parse_decimal(s, true, i32::MIN as i64, i32::MAX as i64) {
        Some(v) => v as i32,
        None => default,
    }
}

/// Reads a signed 64-bit number of seconds, falling back to zero.
pub fn seconds_or_zero(s: &str) -> (r: i64)
    ensures
        decimal_in(s@, true, i64::MIN as int, i64::MAX as int) is Some ==> r as int == decimal_in(
            s@,
            true,
            i64::MIN as int,
            i64::MAX as int,
        )->0,
        decimal_in(s@, true, i64::MIN as int, i64::MAX as int) is None ==> r == 0,
{
    match parse_decimal(s, true, i64::MIN, i64::MAX) {
        Some(v) => v,
        None => 0,
    }
}

} // verus!
