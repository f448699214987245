//! Decimal integer parsing, as `str::parse` does it for `i64` and `u64`:
//! an optional sign followed by one or more ASCII digits, whose value must fit.

use vstd::prelude::*;

verus! {

/// Whether `c` is an ASCII digit.
pub open spec fn is_digit(c: char) -> bool {
    '0' <= c && c <= '9'
}

/// The value of an ASCII digit.
pub open spec fn digit_value(c: char) -> nat {
    ((c as u32) - ('0' as u32)) as nat
}

/// Whether `s` is one or more ASCII digits.
pub open spec fn all_digits(s: Seq<char>) -> bool {
    s.len() > 0 && forall|i: int| 0 <= i < s.len() ==> is_digit(#[trigger] s[i])
}

/// The value of a run of ASCII digits.
pub open spec fn digits_value(s: Seq<char>) -> nat
    decreases s.len(),
{
    if s.len() == 0 {
        0
    } else {
        10 * digits_value(s.drop_last()) + digit_value(s.last())
    }
}

/// Whether `s` starts with one of the given sign characters.
pub open spec fn has_sign(s: Seq<char>, minus_allowed: bool) -> bool {
    s.len() > 0 && (s[0] == '+' || (minus_allowed && s[0] == '-'))
}

/// `i64::from_str`: `[+-]digits` whose value lies in the range of `i64`.
pub open spec fn parsed_i64(s: Seq<char>) -> Option<i64> {
    let body = if has_sign(s, true) { s.drop_first() } else { s };
    let v: int = if has_sign(s, true) && s[0] == '-' { -digits_value(body) } else { digits_value(body) as int };
    if all_digits(body) && i64::MIN <= v <= i64::MAX {
        Some(v as i64)
    } else {
        None
    }
}

/// `u64::from_str`: `[+]digits` whose value lies in the range of `u64`.
pub open spec fn parsed_u64(s: Seq<char>) -> Option<u64> {
    let body = if has_sign(s, false) { s.drop_first() } else { s };
    if all_digits(body) && digits_value(body) <= u64::MAX {
        Some(digits_value(body) as u64)
    } else {
        None
    }
}

proof fn lemma_digits_value_take(s: Seq<char>, k: int)
    requires
        0 <= k < s.len(),
    ensures
        digits_value(s.take(k + 1)) == 10 * digits_value(s.take(k)) + digit_value(s[k]),
{
    assert(s.take(k + 1).drop_last() =~= s.take(k));
}

proof fn lemma_digits_value_grows(s: Seq<char>, k: int)
    requires
        0 <= k <= s.len(),
    ensures
        digits_value(s.take(k)) <= digits_value(s),
    decreases s.len() - k,
{
    if k < s.len() {
        lemma_digits_value_take(s, k);
        lemma_digits_value_grows(s, k + 1);
    } else {
        assert(s.take(k) =~= s);
    }
}

/// The value of the digits of `s` from position `start`, when they are all
/// digits and the value does not exceed `u64::MAX`.
fn digits_u64(s: &str, start: usize) -> (r: Option<u64>)
    requires
        start <= s@.len(),
    ensures
        ({
            let body = s@.skip(start as int);
            match r {
                Some(v) => all_digits(body) && v == digits_value(body),
                None => !all_digits(body) || digits_value(body) > u64::MAX,
            }
        }),
{
    let n = s.unicode_len();
    let ghost body = s@.skip(start as int);
    if start >= n {
        return None;
    }
    let mut acc: u64 = 0;
    let mut i: usize = start;
    while i < n
        invariant
            n == s@.len(),
            start < n,
            start <= i <= n,
            body == s@.skip(start as int),
            forall|j: int| 0 <= j < i - start ==> is_digit(#[trigger] body[j]),
            acc == digits_value(body.take(i - start)),
        decreases n - i,
    {
        let c = s.get_char(i);
        if !('0' <= c && c <= '9') {
            assert(!is_digit(body[i - start]));
            return None;
        }
        let d: u64 = (c as u32 - '0' as u32) as u64;
        proof {
            lemma_digits_value_take(body, i - start);
        }
        if acc > (u64::MAX - d) / 10 {
            proof {
                assert(10 * acc + d > u64::MAX) by (nonlinear_arith)
                    requires
                        acc > (u64::MAX - d) / 10,
                        d <= 9,
                ;
                if all_digits(body) {
                    lemma_digits_value_grows(body, i - start + 1);
                }
            }
            return None;
        }
        assert(10 * acc + d <= u64::MAX) by (nonlinear_arith)
            requires
                acc <= (u64::MAX - d) / 10,
                d <= 9,
        ;
        acc = acc * 10 + d;
        i = i + 1;
    }
    assert(body.take(n - start) =~= body);
    Some(acc)
}

/// Parses a signed decimal integer.
pub fn parse_i64(s: &str) -> (r: Option<i64>)
    ensures
        r == parsed_i64(s@),
{
    let n = s.unicode_len();
    let signed = n > 0 && (s.get_char(0) == '+' || s.get_char(0) == '-');
    let negative = signed && s.get_char(0) == '-';
    let start: usize = if signed { 1 } else { 0 };
    assert(s@.skip(start as int) =~= (if has_sign(s@, true) { s@.drop_first() } else { s@ }));
    match digits_u64(s, start) {
        None => None,
        Some(v) => {
            if negative {
                if v <= 9223372036854775808u64 {
                    Some((0i128 - v as i128) as i64)
                } else {
                    None
                }
            } else if v <= 9223372036854775807u64 {
                Some(v as i64)
            } else {
                None
            }
        },
    }
}

/// Parses an unsigned decimal integer.
pub fn parse_u64(s: &str) -> (r: Option<u64>)
    ensures
        r == parsed_u64(s@),
{
    let n = s.unicode_len();
    let signed = n > 0 && s.get_char(0) == '+';
    let start: usize = if signed { 1 } else { 0 };
    assert(s@.skip(start as int) =~= (if has_sign(s@, false) { s@.drop_first() } else { s@ }));
    digits_u64(s, start)
}


proof fn lemma_digit_char(d: nat)
    requires
        d < 10,
    ensures
        is_digit(crate::text::digit_char(d)),
        digit_value(crate::text::digit_char(d)) == d,
{
}

/// The decimal notation of `n` is all digits and has the value `n`.
pub proof fn lemma_decimal_digits(n: nat)
    ensures
        all_digits(crate::text::decimal(n)),
        digits_value(crate::text::decimal(n)) == n,
    decreases n,
{
    let d = crate::text::decimal(n);
    if n < 10 {
        lemma_digit_char(n);
        assert(d.drop_last() =~= Seq::<char>::empty());
        assert(digits_value(Seq::<char>::empty()) == 0);
        assert(d.last() == crate::text::digit_char(n));
    } else {
        lemma_digit_char(n % 10);
        lemma_decimal_digits(n / 10);
        let prefix = crate::text::decimal(n / 10);
        assert(d.drop_last() =~= prefix);
        assert(d.last() == crate::text::digit_char(n % 10));
        assert(10 * (n / 10) + n % 10 == n);
        assert forall|i: int| 0 <= i < d.len() implies is_digit(#[trigger] d[i]) by {
            if i < prefix.len() {
                assert(d[i] == prefix[i]);
            }
        }
    }
}

/// The decimal form of every `u64` parses back to it.
pub proof fn lemma_u64_decimal_round_trip(u: u64)
    ensures
        parsed_u64(crate::text::decimal(u as nat)) == Some(u),
{
    lemma_decimal_digits(u as nat);
    let d = crate::text::decimal(u as nat);
    assert(!has_sign(d, false)) by {
        assert(is_digit(d[0]));
    }
}

/// The decimal form of every `i64` (with `-` when negative) parses back to it.
pub proof fn lemma_i64_decimal_round_trip(n: i64)
    ensures
        parsed_i64(crate::text::signed_decimal(n as int)) == Some(n),
{
    let s = crate::text::signed_decimal(n as int);
    if n < 0 {
        let m = (-n) as nat;
        lemma_decimal_digits(m);
        assert(s.drop_first() =~= crate::text::decimal(m));
    } else {
        lemma_decimal_digits(n as nat);
        assert(!has_sign(s, true)) by {
            assert(is_digit(s[0]));
        }
    }
}

} // verus!
