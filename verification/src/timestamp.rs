//! Points in time, and the three ways to write one: seconds since the Unix
//! epoch, RFC 2822 and RFC 3339.

use vstd::prelude::*;
use crate::error::EventError;
use crate::text::chars_of;

verus! {

/// A point in time: whole seconds since 1970-01-01T00:00:00Z, and the
/// nanoseconds past that second.
#[derive(Clone, Copy, Debug, PartialEq, Eq, Structural)]
pub struct Timestamp {
    pub secs: i64,
    pub nanos: u32,
}

/// Whether a character is one of the ten decimal digits.
pub open spec fn is_digit(c: char) -> bool {
    '0' <= c <= '9'
}

/// The number that a decimal digit stands for.
pub open spec fn digit_value(c: char) -> int {
    c as int - '0' as int
}

/// Whether a text holds decimal digits only.
pub open spec fn all_digits(digits: Seq<char>) -> bool {
    forall|i: int| 0 <= i < digits.len() ==> is_digit(#[trigger] digits[i])
}

/// The number that a row of decimal digits stands for.
pub open spec fn decimal_value(digits: Seq<char>) -> int
    decreases digits.len(),
{
    if digits.len() == 0 {
        0
    } else {
        10 * decimal_value(digits.drop_last()) + digit_value(digits.last())
    }
}

/// Whether a text starts with a sign.
pub open spec fn has_sign(text: Seq<char>) -> bool {
    text.len() > 0 && (text[0] == '-' || text[0] == '+')
}

/// The integer that a text stands for: an optional `+` or `-`, then one
/// or more decimal digits and nothing else.
pub open spec fn signed_decimal(text: Seq<char>) -> Option<int> {
    let digits = if has_sign(text) {
        text.skip(1)
    } else {
        text
    };
    if digits.len() == 0 || !all_digits(digits) {
        None
    } else if text[0] == '-' {
        Some(-decimal_value(digits))
    } else {
        Some(decimal_value(digits))
    }
}

/// The seconds since the epoch that a text stands for: a signed decimal
/// integer that fits in 64 bits.
pub open spec fn epoch_seconds(text: Seq<char>) -> Option<i64> {
    match signed_decimal(text) {
        Some(value) => if i64::MIN <= value <= i64::MAX {
            Some(value as i64)
        } else {
            None
        },
        None => None,
    }
}

/// A row of digits stands for no less than any row that it starts with.
proof fn lemma_decimal_grows(digits: Seq<char>, upto: int)
    requires
        all_digits(digits),
        0 <= upto <= digits.len(),
    ensures
        0 <= decimal_value(digits.take(upto)) <= decimal_value(digits),
    decreases digits.len() - upto,
{
    if upto == digits.len() {
        assert(digits.take(upto) =~= digits);
        lemma_decimal_positive(digits);
    } else {
        lemma_decimal_grows(digits, upto + 1);
        let longer = digits.take(upto + 1);
        assert(longer.drop_last() =~= digits.take(upto));
        assert(is_digit(digits[upto]));
        assert(longer.last() == digits[upto]);
        lemma_decimal_positive(digits.take(upto));
    }
}

/// A row of digits stands for no negative number.
proof fn lemma_decimal_positive(digits: Seq<char>)
    requires
        all_digits(digits),
    ensures
        0 <= decimal_value(digits),
    decreases digits.len(),
{
    if digits.len() > 0 {
        assert(is_digit(digits[digits.len() - 1]));
        lemma_decimal_positive(digits.drop_last());
    }
}

/// Reads seconds since the epoch: an optional sign and decimal digits.
/// `None` for any other text and for a number outside 64 bits.
pub fn parse_epoch_seconds(text: &str) -> (r: Option<i64>)
    ensures
        r == epoch_seconds(text@),
{
    let chars = chars_of(text);
    let total: usize = chars.len();
    if total == 0 {
        return None;
    }
    let negative = chars[0] == '-';
    let start: usize = if chars[0] == '-' || chars[0] == '+' {
        1
    } else {
        0
    };
    if start == total {
        return None;
    }
    let ghost digits = if has_sign(text@) {
        text@.skip(1)
    } else {
        text@
    };
    proof {
        assert(text@.skip(0) =~= text@);
        assert(digits.take(0) =~= Seq::<char>::empty());
    }
    let mut magnitude: u128 = 0;
    let mut at: usize = start;
    while at < total
        invariant
            start <= at <= total,
            total == chars@.len(),
            chars@ == text@,
            digits == text@.skip(start as int),
            digits == if has_sign(text@) {
                text@.skip(1)
            } else {
                text@
            },
            all_digits(digits.take(at - start)),
            magnitude == decimal_value(digits.take(at - start)),
            magnitude <= 0x8000_0000_0000_0000,
        decreases total - at,
    {
        let c = chars[at];
        proof {
            assert(digits[at - start] == c);
        }
        if !('0' <= c && c <= '9') {
            assert(!is_digit(digits[at - start]));
            return None;
        }
        let digit: u128 = (c as u32 - '0' as u32) as u128;
        let next: u128 = magnitude * 10 + digit;
        proof {
            let longer = digits.take(at + 1 - start);
            assert(longer.drop_last() =~= digits.take(at - start));
            assert(longer.last() == c);
            assert(all_digits(longer)) by {
                assert forall|i: int| 0 <= i < longer.len() implies is_digit(
                    #[trigger] longer[i],
                ) by {
                    if i < at - start {
                        assert(digits.take(at - start)[i] == longer[i]);
                    }
                }
            }
            assert(next == decimal_value(longer));
        }
        if next > 0x8000_0000_0000_0000 {
            proof {
                if all_digits(digits) {
                    lemma_decimal_grows(digits, at + 1 - start);
                }
            }
            return None;
        }
        magnitude = next;
        at += 1;
    }
    proof {
        assert(digits.take(total - start) =~= digits);
    }
    if negative {
        if magnitude == 0x8000_0000_0000_0000 {
            Some(i64::MIN)
        } else {
            Some(-(magnitude as i64))
        }
    } else if magnitude == 0x8000_0000_0000_0000 {
        None
    } else {
        Some(magnitude as i64)
    }
}

/// The point in time that a text gives when read as an RFC 2822 date, or
/// `None` where it is no such date.
pub uninterp spec fn rfc2822_instant(text: Seq<char>) -> Option<Timestamp>;

/// The point in time that a text gives when read as an RFC 3339 date and
/// time, or `None` where it is no such date and time.
pub uninterp spec fn rfc3339_instant(text: Seq<char>) -> Option<Timestamp>;

/// Calls `chrono::DateTime::parse_from_rfc2822`, and
/// `DateTime::timestamp` and `DateTime::timestamp_subsec_nanos` on what it
/// gives. The parser reads the text alone, so the same text always gives the
/// same answer: that answer is `rfc2822_instant`. Nothing more is claimed.
#[verifier::external_body]
fn read_rfc2822(text: &str) -> (r: Option<Timestamp>)
    ensures
        r == rfc2822_instant(text@),
{
    match chrono::DateTime::parse_from_rfc2822(text) {
        Ok(moment) => Some(
            Timestamp { secs: moment.timestamp(), nanos: moment.timestamp_subsec_nanos() },
        ),
        Err(_) => None,
    }
}

/// Calls `chrono::DateTime::parse_from_rfc3339`, and
/// `DateTime::timestamp` and `DateTime::timestamp_subsec_nanos` on what it
/// gives. The parser reads the text alone, so the same text always gives the
/// same answer: that answer is `rfc3339_instant`. Nothing more is claimed.
#[verifier::external_body]
fn read_rfc3339(text: &str) -> (r: Option<Timestamp>)
    ensures
        r == rfc3339_instant(text@),
{
    match chrono::DateTime::parse_from_rfc3339(text) {
        Ok(moment) => Some(
            Timestamp { secs: moment.timestamp(), nanos: moment.timestamp_subsec_nanos() },
        ),
        Err(_) => None,
    }
}

/// The first of three readings that succeeded, in the order epoch
/// seconds, RFC 2822, RFC 3339; an error where none did.
pub open spec fn first_timestamp(
    epoch: Option<i64>,
    rfc2822: Option<Timestamp>,
    rfc3339: Option<Timestamp>,
) -> Result<Timestamp, EventError> {
    match (epoch, rfc2822, rfc3339) {
        (Some(secs), _, _) => Ok(Timestamp { secs, nanos: 0 }),
        (None, Some(moment), _) => Ok(moment),
        (None, None, Some(moment)) => Ok(moment),
        (None, None, None) => Err(EventError::InvalidTimestamp),
    }
}

/// What a text gives as a timestamp.
pub open spec fn timestamp_of(text: Seq<char>) -> Result<Timestamp, EventError> {
    first_timestamp(epoch_seconds(text), rfc2822_instant(text), rfc3339_instant(text))
}

/// Picks the first of three readings of one text that succeeded: epoch
/// seconds before RFC 2822 before RFC 3339. Fails where all three failed.
pub fn resolve_timestamp(
    epoch: Option<i64>,
    rfc2822: Option<Timestamp>,
    rfc3339: Option<Timestamp>,
) -> (r: Result<Timestamp, EventError>)
    ensures
        r == first_timestamp(epoch, rfc2822, rfc3339),
{
    if let Some(secs) = epoch {
        Ok(Timestamp { secs, nanos: 0 })
    } else if let Some(moment) = rfc2822 {
        Ok(moment)
    } else if let Some(moment) = rfc3339 {
        Ok(moment)
    } else {
        Err(EventError::InvalidTimestamp)
    }
}

/// Reads a timestamp in any of the three formats. A text that is a
/// signed decimal integer of 64 bits is taken as seconds since the epoch.
pub fn parse_timestamp(text: &str) -> (r: Result<Timestamp, EventError>)
    ensures
        r == timestamp_of(text@),
{
    let epoch = parse_epoch_seconds(text);
    if epoch.is_some() {
        return resolve_timestamp(epoch, None, None);
    }
    let rfc2822 = read_rfc2822(text);
    if rfc2822.is_some() {
        return resolve_timestamp(None, rfc2822, None);
    }
    resolve_timestamp(None, None, read_rfc3339(text))
}

} // verus!
