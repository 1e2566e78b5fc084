//! Decimal text to coordinates in micro-degrees, and whole numbers to text.
//!
//! A coordinate is written as an optional sign, one or more digits and, if
//! wanted, a point with further digits: `-12.5`, `+7`, `48.858370`. Digits
//! beyond the sixth after the point are dropped. Exponents and the special
//! values of floating point are not part of the format.

use vstd::prelude::*;
use crate::index::{MAX_LATITUDE, MAX_LONGITUDE};

verus! {

pub const PLUS: u8 = 43u8;

pub const MINUS: u8 = 45u8;

pub const DOT: u8 = 46u8;

pub const ZERO: u8 = 48u8;

/// Why a coordinate could not be read.
#[derive(Clone, Copy, Debug, PartialEq, Eq, Structural)]
pub enum NumberError {
    /// The text is no decimal number.
    Malformed,
    /// The number lies beyond the limit for that coordinate.
    OutOfRange,
}

pub open spec fn is_digit(b: u8) -> bool {
    48 <= b <= 57
}

/// The number that a string of digits denotes; zero for the empty string.
pub open spec fn digits_value(s: Seq<u8>) -> nat
    decreases s.len(),
{
    if s.len() == 0 {
        0
    } else {
        (digits_value(s.drop_last()) * 10 + (s.last() - 48)) as nat
    }
}

/// The index of the first byte at or after `k` that is no digit, or the
/// text's length.
pub open spec fn digits_end(s: Seq<u8>, k: int) -> int
    decreases s.len() - k,
{
    if k >= s.len() {
        s.len() as int
    } else if !is_digit(s[k]) {
        k
    } else {
        digits_end(s, k + 1)
    }
}

/// The length of the sign in front of the number: one or nothing.
pub open spec fn sign_len(s: Seq<u8>) -> int {
    if s.len() > 0 && (s[0] == PLUS || s[0] == MINUS) {
        1
    } else {
        0
    }
}

/// Where the whole part ends.
pub open spec fn whole_end(s: Seq<u8>) -> int {
    digits_end(s, sign_len(s))
}

/// The text is a sign or none, at least one digit, and then nothing more or
/// a point followed by digits alone.
pub open spec fn well_formed(s: Seq<u8>) -> bool {
    let b = whole_end(s);
    &&& b > sign_len(s)
    &&& (b == s.len() || (s[b] == DOT && digits_end(s, b + 1) == s.len()))
}

/// The digit at place `i` after the point, zero where the text has ended.
pub open spec fn fraction_digit(s: Seq<u8>, i: int) -> int {
    let at = whole_end(s) + 1 + i;
    if at < s.len() {
        s[at] - 48
    } else {
        0
    }
}

/// The first six digits after the point, as a number of millionths.
pub open spec fn fraction_micros(s: Seq<u8>) -> int {
    fraction_digit(s, 0) * 100_000 + fraction_digit(s, 1) * 10_000 + fraction_digit(s, 2) * 1_000
        + fraction_digit(s, 3) * 100 + fraction_digit(s, 4) * 10 + fraction_digit(s, 5)
}

/// The number that a well-formed text denotes, in millionths.
pub open spec fn micros_of(s: Seq<u8>) -> int {
    let magnitude = digits_value(s.subrange(sign_len(s), whole_end(s))) * 1_000_000
        + fraction_micros(s);
    if s.len() > 0 && s[0] == MINUS {
        -magnitude
    } else {
        magnitude
    }
}

/// What `parse_coordinate` owes for a text and a limit.
pub open spec fn coordinate_spec(s: Seq<u8>, limit: int) -> Result<i64, NumberError> {
    if !well_formed(s) {
        Err(NumberError::Malformed)
    } else if -limit <= micros_of(s) <= limit {
        Ok(micros_of(s) as i64)
    } else {
        Err(NumberError::OutOfRange)
    }
}

/// The digit at `at`, or zero past the end of the text.
fn digit_or_zero(text: &[u8], at: usize) -> (r: i64)
    requires
        forall|i: int| at <= i < text@.len() ==> is_digit(#[trigger] text@[i]),
    ensures
        r == (if at < text@.len() {
            text@[at as int] - 48
        } else {
            0
        }),
        0 <= r <= 9,
{
    if at < text.len() {
        (text[at] - ZERO) as i64
    } else {
        0
    }
}

/// Reads a coordinate in micro-degrees. The text must be well-formed and the
/// number must lie between `-limit` and `limit`. The limit itself is below a
/// thousand degrees, which keeps the arithmetic inside `i64`.
pub fn parse_coordinate(text: &[u8], limit: i64) -> (r: Result<i64, NumberError>)
    requires
        0 <= limit <= 999_000_000,
    ensures
        r == coordinate_spec(text@, limit as int),
{
    let n: usize = text.len();
    let negative: bool = n > 0 && text[0] == MINUS;
    let start: usize = if n > 0 && (text[0] == PLUS || text[0] == MINUS) {
        1
    } else {
        0
    };
    let mut k: usize = start;
    let mut whole: i64 = 0;
    while k < n && text[k] >= 48 && text[k] <= 57
        invariant
            start <= k <= n,
            n == text@.len(),
            digits_end(text@, start as int) == digits_end(text@, k as int),
            0 <= whole <= 1000,
            whole == (if digits_value(text@.subrange(start as int, k as int)) < 1000 {
                digits_value(text@.subrange(start as int, k as int)) as int
            } else {
                1000
            }),
        decreases n - k,
    {
        proof {
            assert(text@.subrange(start as int, k + 1).drop_last() == text@.subrange(
                start as int,
                k as int,
            ));
        }
        let digit: i64 = (text[k] - ZERO) as i64;
        whole = whole * 10 + digit;
        if whole > 1000 {
            whole = 1000;
        }
        k = k + 1;
    }
    let end: usize = k;
    if end == start {
        return Err(NumberError::Malformed);
    }
    if end < n {
        if text[end] != DOT {
            return Err(NumberError::Malformed);
        }
        let mut j: usize = end + 1;
        while j < n && text[j] >= 48 && text[j] <= 57
            invariant
                end < j <= n,
                n == text@.len(),
                digits_end(text@, end + 1) == digits_end(text@, j as int),
                forall|i: int| end < i < j ==> is_digit(#[trigger] text@[i]),
            decreases n - j,
        {
            j = j + 1;
        }
        if j < n {
            return Err(NumberError::Malformed);
        }
    }
    assert(well_formed(text@));
    if whole >= 1000 {
        return Err(NumberError::OutOfRange);
    }
    let first: usize = if end < n {
        end + 1
    } else {
        n
    };
    let d0 = digit_or_zero(text, first);
    let d1 = digit_or_zero(text, if first < n { first + 1 } else { n });
    let d2 = digit_or_zero(text, if n - first > 2 { first + 2 } else { n });
    let d3 = digit_or_zero(text, if n - first > 3 { first + 3 } else { n });
    let d4 = digit_or_zero(text, if n - first > 4 { first + 4 } else { n });
    let d5 = digit_or_zero(text, if n - first > 5 { first + 5 } else { n });
    let fraction: i64 = d0 * 100_000 + d1 * 10_000 + d2 * 1_000 + d3 * 100 + d4 * 10 + d5;
    assert(fraction == fraction_micros(text@));
    let magnitude: i64 = whole * 1_000_000 + fraction;
    if magnitude > limit {
        Err(NumberError::OutOfRange)
    } else if negative {
        Ok(-magnitude)
    } else {
        Ok(magnitude)
    }
}

/// Reads a latitude: a coordinate of at most 90 degrees either way.
pub fn parse_latitude(text: &[u8]) -> (r: Result<i64, NumberError>)
    ensures
        r == coordinate_spec(text@, MAX_LATITUDE as int),
{
    parse_coordinate(text, MAX_LATITUDE)
}

/// Reads a longitude: a coordinate of at most 180 degrees either way.
pub fn parse_longitude(text: &[u8]) -> (r: Result<i64, NumberError>)
    ensures
        r == coordinate_spec(text@, MAX_LONGITUDE as int),
{
    parse_coordinate(text, MAX_LONGITUDE)
}

/// The digits of a number, most significant first.
pub open spec fn digits_of(n: nat) -> Seq<u8>
    decreases n,
{
    if n < 10 {
        seq![(48 + n) as u8]
    } else {
        digits_of(n / 10).push((48 + n % 10) as u8)
    }
}

/// A whole number as text: a minus sign where it is negative, then its digits.
pub open spec fn signed_text(n: int) -> Seq<u8> {
    if n < 0 {
        seq![MINUS] + digits_of((-n) as nat)
    } else {
        digits_of(n as nat)
    }
}

/// Appends the digits of `n`.
pub fn push_digits(out: &mut Vec<u8>, n: u64)
    ensures
        final(out)@ == old(out)@ + digits_of(n as nat),
    decreases n,
{
    if n < 10 {
        out.push(ZERO + (n as u8));
        assert(final(out)@ =~= old(out)@ + digits_of(n as nat));
    } else {
        push_digits(out, n / 10);
        out.push(ZERO + ((n % 10) as u8));
        assert(final(out)@ =~= old(out)@ + digits_of(n as nat));
    }
}

/// Appends a whole number as text.
pub fn push_signed(out: &mut Vec<u8>, n: i64)
    ensures
        final(out)@ == old(out)@ + signed_text(n as int),
{
    if n < 0 {
        out.push(MINUS);
        let magnitude: u64 = (-(n as i128)) as u64;
        push_digits(out, magnitude);
        assert(final(out)@ =~= old(out)@ + signed_text(n as int));
    } else {
        push_digits(out, n as u64);
    }
}

} // verus!
