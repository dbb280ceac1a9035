//! UNIX timestamps: reading one from a command-line argument and rendering
//! it as an RFC 3339 date-time at a UTC offset.
//!
//! The offset is an argument. Which offset the machine's time zone has at
//! an instant is for the caller to find out and hand in.

use crate::text::to_chars;
use chrono::{FixedOffset, TimeZone};
use vstd::prelude::*;

verus! {

/// The first second that can be rendered: midnight UTC on 1 January of the
/// proleptic Gregorian year -262143, the earliest date of the calendar in use.
pub const MIN_TIMESTAMP: i64 = -8_334_601_228_800;

/// The last second that can be rendered: 23:59:59 UTC on 31 December 262142,
/// the latest date of the calendar in use.
pub const MAX_TIMESTAMP: i64 = 8_210_266_876_799;

/// A UTC offset is a whole number of seconds within one day, exclusive.
pub const OFFSET_LIMIT: i32 = 86_400;

/// Why a timestamp argument could not be rendered.
#[derive(Clone, Copy, Debug, PartialEq, Eq, Structural)]
pub enum TimestampError {
    /// The argument is not a decimal integer that fits 64 bits.
    ParseError,
    /// The number is an integer, but beyond the dates the calendar holds.
    OutOfRange,
}

impl TimestampError {
    /// A sentence for the user that says why no date-time was printed.
    pub fn message(&self) -> (message: &'static str)
        ensures
            message@ == match *self {
                TimestampError::ParseError => "the timestamp is not a valid integer"@,
                TimestampError::OutOfRange => "the timestamp is out of range"@,
            },
    {
        match self {
            TimestampError::ParseError => "the timestamp is not a valid integer",
            TimestampError::OutOfRange => "the timestamp is out of range",
        }
    }
}

/// `seconds` falls on a date that the calendar holds.
pub open spec fn timestamp_in_range(seconds: int) -> bool {
    MIN_TIMESTAMP <= seconds <= MAX_TIMESTAMP
}

/// `offset_seconds` is a UTC offset: less than a day either way.
pub open spec fn offset_in_range(offset_seconds: int) -> bool {
    -OFFSET_LIMIT < offset_seconds < OFFSET_LIMIT
}

/// The RFC 3339 text of the instant `seconds` after the UNIX epoch, as the
/// wall clock `offset_seconds` east of UTC shows it: date, `T`, time of day
/// and the offset, such as `2021-01-01T08:00:00+08:00`.
pub uninterp spec fn rfc3339_text(seconds: int, offset_seconds: int) -> Seq<char>;

/// `c` is an ASCII decimal digit.
pub open spec fn is_digit(c: char) -> bool {
    '0' <= c <= '9'
}

/// Every character of `text` is an ASCII decimal digit.
pub open spec fn all_digits(text: Seq<char>) -> bool {
    forall|i: int| 0 <= i < text.len() ==> is_digit(#[trigger] text[i])
}

/// The number that a run of decimal digits denotes.
pub open spec fn decimal_value(digits: Seq<char>) -> int
    decreases digits.len(),
{
    if digits.len() == 0 {
        0
    } else {
        decimal_value(digits.drop_last()) * 10 + (digits.last() as int - '0' as int)
    }
}

/// `text` starts with a sign.
pub open spec fn has_sign(text: Seq<char>) -> bool {
    text.len() > 0 && (text[0] == '-' || text[0] == '+')
}

/// The digits of `text`: all of it but a leading sign.
pub open spec fn digits_of(text: Seq<char>) -> Seq<char> {
    if has_sign(text) {
        text.drop_first()
    } else {
        text
    }
}

/// The integer that `text` denotes: an optional `+` or `-`, then one or more
/// decimal digits and nothing else. `None` for any other text.
pub open spec fn parse_integer(text: Seq<char>) -> Option<int> {
    let digits = digits_of(text);
    if digits.len() == 0 || !all_digits(digits) {
        None
    } else if text[0] == '-' {
        Some(-decimal_value(digits))
    } else {
        Some(decimal_value(digits))
    }
}

/// The timestamp that `text` denotes, where it denotes an integer of 64 bits.
pub open spec fn parse_timestamp_spec(text: Seq<char>) -> Option<i64> {
    match parse_integer(text) {
        Some(value) => if i64::MIN <= value <= i64::MAX {
            Some(value as i64)
        } else {
            None
        },
        None => None,
    }
}

/// A run of digits denotes no less than any of its prefixes.
proof fn lemma_decimal_value_prefix(digits: Seq<char>, k: int)
    requires
        all_digits(digits),
        0 <= k <= digits.len(),
    ensures
        0 <= decimal_value(digits.take(k)) <= decimal_value(digits),
    decreases digits.len() - k,
{
    if k == digits.len() {
        assert(digits.take(k) =~= digits);
        lemma_decimal_value_nonnegative(digits);
    } else {
        lemma_decimal_value_prefix(digits, k + 1);
        let longer = digits.take(k + 1);
        assert(longer.drop_last() =~= digits.take(k));
        assert(is_digit(digits[k]));
        assert(longer.last() == digits[k]);
        lemma_decimal_value_nonnegative(digits.take(k));
    }
}

/// A run of digits denotes no negative number.
proof fn lemma_decimal_value_nonnegative(digits: Seq<char>)
    requires
        all_digits(digits),
    ensures
        0 <= decimal_value(digits),
    decreases digits.len(),
{
    if digits.len() > 0 {
        let shorter = digits.drop_last();
        assert forall|i: int| 0 <= i < shorter.len() implies is_digit(#[trigger] shorter[i]) by {
            assert(shorter[i] == digits[i]);
        }
        lemma_decimal_value_nonnegative(shorter);
        assert(is_digit(digits.last()));
    }
}

/// Reads a timestamp argument: an optional sign and decimal digits, within
/// the range of a signed 64-bit integer.
pub fn parse_timestamp(input: &str) -> (parsed: Result<i64, TimestampError>)
    ensures
        match parsed {
            Ok(seconds) => parse_timestamp_spec(input@) == Some(seconds),
            Err(error) => error == TimestampError::ParseError && parse_timestamp_spec(input@)
                is None,
        },
{
    let chars = to_chars(input);
    let n = chars.len();
    let negative = n > 0 && chars[0] == '-';
    let start: usize = if n > 0 && (chars[0] == '-' || chars[0] == '+') {
        1
    } else {
        0
    };
    if start == n {
        return Err(TimestampError::ParseError);
    }
    let ghost digits = digits_of(input@);
    assert(digits =~= chars@.skip(start as int));
    let limit: i128 = 9_223_372_036_854_775_808;
    let mut value: i128 = 0;
    let mut k: usize = start;
    assert(digits.take(0) =~= Seq::<char>::empty());
    while k < n
        invariant
            start <= k <= n,
            n == chars@.len(),
            digits == chars@.skip(start as int),
            digits == digits_of(input@),
            limit == 9_223_372_036_854_775_808,
            0 <= value <= limit,
            value == decimal_value(digits.take(k - start)),
            all_digits(digits.take(k - start)),
        decreases n - k,
    {
        let c = chars[k];
        if c < '0' || c > '9' {
            assert(!is_digit(digits[k - start]));
            return Err(TimestampError::ParseError);
        }
        let digit: i128 = (c as u32 - '0' as u32) as i128;
        let next: i128 = value * 10 + digit;
        proof {
            let longer = digits.take(k - start + 1);
            assert(longer.drop_last() =~= digits.take(k - start));
            assert(longer.last() == c);
            assert forall|i: int| 0 <= i < longer.len() implies is_digit(#[trigger] longer[i]) by {
                if i < k - start {
                    assert(digits.take(k - start)[i] == longer[i]);
                }
            }
        }
        if next > limit {
            proof {
                if all_digits(digits) {
                    lemma_decimal_value_prefix(digits, k - start + 1);
                }
            }
            return Err(TimestampError::ParseError);
        }
        value = next;
        k += 1;
    }
    assert(digits.take(n - start) =~= digits);
    if negative {
        Ok((-value) as i64)
    } else if value == limit {
        Err(TimestampError::ParseError)
    } else {
        Ok(value as i64)
    }
}

/// Calls `FixedOffset::east_opt`, `TimeZone::timestamp_opt` and
/// `DateTime::to_rfc3339` of chrono. For an offset within a day, the zone
/// exists; `timestamp_opt` yields a date-time exactly when the instant falls
/// between the first and the last date of chrono's calendar, and
/// `to_rfc3339` renders it, a result that depends on the two numbers alone.
#[verifier::external_body]
fn render_rfc3339(seconds: i64, offset_seconds: i32) -> (rendered: Option<String>)
    requires
        offset_in_range(offset_seconds as int),
    ensures
        rendered is Some <==> timestamp_in_range(seconds as int),
        rendered matches Some(text) ==> text@ == rfc3339_text(
            seconds as int,
            offset_seconds as int,
        ),
{
    let zone = FixedOffset::east_opt(offset_seconds)?;
    let moment = zone.timestamp_opt(seconds, 0).single()?;
    Some(moment.to_rfc3339())
}

/// Renders the instant `seconds` after the UNIX epoch as RFC 3339 text at
/// the UTC offset `offset_seconds`, which for local time is the offset that
/// the caller's time zone has at that instant. Fails with `OutOfRange`
/// exactly when the instant lies beyond the calendar or the offset is a day
/// or more.
pub fn format_timestamp(seconds: i64, offset_seconds: i32) -> (formatted: Result<
    String,
    TimestampError,
>)
    ensures
        match formatted {
            Ok(text) => timestamp_in_range(seconds as int) && offset_in_range(
                offset_seconds as int,
            ) && text@ == rfc3339_text(seconds as int, offset_seconds as int),
            Err(error) => error == TimestampError::OutOfRange && !(timestamp_in_range(
                seconds as int,
            ) && offset_in_range(offset_seconds as int)),
        },
{
    if offset_seconds <= -OFFSET_LIMIT || offset_seconds >= OFFSET_LIMIT {
        return Err(TimestampError::OutOfRange);
    }
    match render_rfc3339(seconds, offset_seconds) {
        Some(text) => Ok(text),
        None => Err(TimestampError::OutOfRange),
    }
}

/// What `input`, the argument of the `timestamp` subcommand, is answered
/// with at a UTC offset: the rendering of the integer it denotes.
pub open spec fn convert_timestamp_spec(input: Seq<char>, offset_seconds: int) -> Result<
    Seq<char>,
    TimestampError,
> {
    match parse_timestamp_spec(input) {
        None => Err(TimestampError::ParseError),
        Some(seconds) => if timestamp_in_range(seconds as int) && offset_in_range(
            offset_seconds,
        ) {
            Ok(rfc3339_text(seconds as int, offset_seconds))
        } else {
            Err(TimestampError::OutOfRange)
        },
    }
}

/// Answers the `timestamp` subcommand at a given UTC offset: reads the
/// argument as a timestamp and renders it. An argument that is no 64-bit
/// integer gives `ParseError`; an integer beyond the calendar, or an offset
/// of a day or more, gives `OutOfRange`.
pub fn convert_timestamp(input: &str, offset_seconds: i32) -> (converted: Result<
    String,
    TimestampError,
>)
    ensures
        convert_timestamp_spec(input@, offset_seconds as int) == match converted {
            Ok(text) => Ok::<Seq<char>, TimestampError>(text@),
            Err(error) => Err(error),
        },
{
    match parse_timestamp(input) {
        Ok(seconds) => format_timestamp(seconds, offset_seconds),
        Err(error) => Err(error),
    }
}

} // verus!
