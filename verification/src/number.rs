//! Decimal numerals: what counts as one, what it denotes, and how to read it.

use vstd::prelude::*;
use vstd::string::*;
use vstd::utf8::is_ascii_chars;

verus! {

/// An ASCII decimal digit.
pub open spec fn is_digit(c: char) -> bool {
    '0' <= c && c <= '9'
}

/// The number a decimal digit stands for.
pub open spec fn digit_value(c: char) -> nat {
    (c as nat - '0' as nat) as nat
}

/// Every character of `s` is a decimal digit.
pub open spec fn all_digits(s: Seq<char>) -> bool {
    forall|i: int| 0 <= i < s.len() ==> is_digit(#[trigger] s[i])
}

/// The number that a string of digits denotes in base ten; the empty string
/// denotes zero.
pub open spec fn decimal_value(s: Seq<char>) -> nat
    decreases s.len(),
{
    if s.len() == 0 {
        0
    } else {
        10 * decimal_value(s.drop_last()) + digit_value(s.last())
    }
}

/// The digits of a numeral: the text without its one optional leading `+`.
pub open spec fn digits_of(s: Seq<char>) -> Seq<char> {
    if s.len() > 0 && s[0] == '+' {
        s.skip(1)
    } else {
        s
    }
}

/// A numeral is an optional `+` followed by one or more decimal digits and
/// nothing else.
pub open spec fn is_numeral(s: Seq<char>) -> bool {
    digits_of(s).len() > 0 && all_digits(digits_of(s))
}

/// The number a numeral denotes.
pub open spec fn numeral_value(s: Seq<char>) -> nat {
    decimal_value(digits_of(s))
}

/// What reading `s` as a number no larger than `max` gives.
pub open spec fn bounded_value(s: Seq<char>, max: u64) -> Option<u64> {
    if is_numeral(s) && numeral_value(s) <= max {
        Some(numeral_value(s) as u64)
    } else {
        None
    }
}

/// A string is a positive integer when it is a numeral whose value lies
/// between 1 and `max`.
pub open spec fn positive_value(s: Seq<char>, max: u64) -> Option<u64> {
    match bounded_value(s, max) {
        Some(n) if n > 0 => Some(n),
        _ => None,
    }
}

/// A prefix of a digit string never denotes more than the whole string.
pub proof fn lemma_prefix_value_bounded(s: Seq<char>, k: int)
    requires
        0 <= k <= s.len(),
    ensures
        decimal_value(s.take(k)) <= decimal_value(s),
    decreases s.len(),
{
    if k == s.len() {
        assert(s.take(k) =~= s);
    } else {
        assert(s.drop_last().take(k) =~= s.take(k));
        lemma_prefix_value_bounded(s.drop_last(), k);
    }
}

/// Reads `val` as a decimal number no larger than `max`.
pub fn parse_bounded(val: &str, max: u64) -> (r: Option<u64>)
    ensures
        r == bounded_value(val@, max),
{
    broadcast use is_ascii_spec_bytes;

    if !val.is_ascii() {
        proof {
            let i = choose|i: int| 0 <= i < val@.len() && !('\0' <= #[trigger] val@[i] <= '\u{7f}');
            let d = digits_of(val@);
            if val@[0] == '+' {
                assert(i > 0);
                assert(d[i - 1] == val@[i]);
                assert(!is_digit(d[i - 1]));
            } else {
                assert(!is_digit(d[i]));
            }
        }
        return None;
    }
    let bytes = val.as_bytes();
    let n: usize = bytes.len();
    assert(n == val@.len());
    assert forall|j: int| 0 <= j < n implies bytes@[j] as nat == #[trigger] val@[j] as nat by {
        assert('\0' <= val@[j] <= '\u{7f}');
        assert(bytes@[j] == val@[j] as u8);
    }
    let start: usize = if n > 0 && bytes[0] == 43u8 { 1 } else { 0 };
    let ghost d = digits_of(val@);
    assert(d == val@.skip(start as int));
    if start == n {
        return None;
    }
    let mut acc: u64 = 0;
    let mut i: usize = start;
    while i < n
        invariant
            start <= i <= n,
            n == val@.len(),
            bytes@.len() == n,
            is_ascii_chars(val@),
            forall|j: int| 0 <= j < n ==> bytes@[j] as nat == #[trigger] val@[j] as nat,
            d == digits_of(val@),
            d == val@.skip(start as int),
            all_digits(d.take(i - start)),
            acc == decimal_value(d.take(i - start)),
            acc <= max,
        decreases n - i,
    {
        let b: u8 = bytes[i];
        let ghost c = val@[i as int];
        assert(d[i - start] == c);
        assert(b as nat == c as nat);
        if b < 48u8 || b > 57u8 {
            assert(!is_digit(c));
            return None;
        }
        assert(is_digit(c));
        let digit: u64 = (b - 48u8) as u64;
        assert(digit == digit_value(c));
        proof {
            let next = d.take(i - start + 1);
            assert(next.drop_last() =~= d.take(i - start));
            assert(next.last() == c);
            assert(decimal_value(next) == 10 * acc + digit);
            assert(all_digits(next)) by {
                assert forall|j: int| 0 <= j < next.len() implies is_digit(#[trigger] next[j]) by {
                    if j < i - start {
                        assert(d.take(i - start)[j] == next[j]);
                    }
                }
            }
            lemma_prefix_value_bounded(d, i - start + 1);
        }
        if digit > max || acc > (max - digit) / 10 {
            assert(10 * acc + digit > max);
            assert(all_digits(d) ==> decimal_value(d) > max);
            return None;
        }
        acc = 10 * acc + digit;
        i += 1;
    }
    assert(d.take(i - start) =~= d);
    Some(acc)
}

/// Reads `val` as a positive integer. A string that is no numeral, denotes
/// zero, or denotes more than a `usize` holds is handed back as the error.
pub fn parse_positive_int(val: &str) -> (r: Result<usize, String>)
    ensures
        match r {
            Ok(n) => positive_value(val@, usize::MAX as u64) == Some(n as u64),
            Err(e) => e@ == val@ && positive_value(val@, usize::MAX as u64).is_none(),
        },
{
    match parse_bounded(val, usize::MAX as u64) {
        Some(n) if n > 0 => Ok(n as usize),
        _ => Err(val.to_owned()),
    }
}

} // verus!
