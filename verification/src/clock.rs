//! Calendar text of Unix timestamps.

use crate::text;
use vstd::prelude::*;

verus! {

/// The timestamps that a calendar date is kept for: the years from -262143 to 262142.
pub open spec fn representable(timestamp: int) -> bool {
    -8_334_601_228_800 <= timestamp <= 8_210_266_876_799
}

/// The pattern of a timestamp that is shown to the minute.
pub open spec fn minute_pattern() -> Seq<char> {
    "%Y-%m-%d %H:%M UTC"@
}

/// What `chrono::DateTime::to_rfc3339` writes for the UTC instant of a timestamp.
pub uninterp spec fn rfc3339(timestamp: i64) -> Seq<char>;

/// What `chrono::DateTime::format` writes for the UTC instant of a timestamp.
pub uninterp spec fn formatted(timestamp: i64, pattern: Seq<char>) -> Seq<char>;

/// The timestamp of a date that `chrono::DateTime::parse_from_rfc3339` accepts.
pub uninterp spec fn rfc3339_seconds(value: Seq<char>) -> Option<i64>;

/// Writes a timestamp as an RFC 3339 date.
///
/// `chrono::DateTime::to_rfc3339` on the instant of `chrono::DateTime::from_timestamp`, which
/// exists exactly for the representable timestamps. The text itself is named, not described.
#[verifier::external_body]
fn rfc3339_text(timestamp: i64) -> (written: Option<String>)
    ensures
        written is Some <==> representable(timestamp as int),
        written matches Some(value) ==> value@ == rfc3339(timestamp),
{
    match chrono::DateTime::from_timestamp(timestamp, 0) {
        Some(time) => Some(time.to_rfc3339()),
        None => None,
    }
}

/// Writes a timestamp by a pattern.
///
/// `chrono::DateTime::format` on the instant of `chrono::DateTime::from_timestamp`, which exists
/// exactly for the representable timestamps. The text itself is named, not described. Formatting
/// panics on a pattern with an unknown item, so only the one pattern in use is admitted.
#[verifier::external_body]
fn formatted_text(timestamp: i64, pattern: &str) -> (written: Option<String>)
    requires
        pattern@ == minute_pattern(),
    ensures
        written is Some <==> representable(timestamp as int),
        written matches Some(value) ==> value@ == formatted(timestamp, pattern@),
{
    match chrono::DateTime::from_timestamp(timestamp, 0) {
        Some(time) => Some(time.format(pattern).to_string()),
        None => None,
    }
}

/// Reads an RFC 3339 date as a timestamp.
///
/// `chrono::DateTime::parse_from_rfc3339`, then `chrono::DateTime::timestamp`. Which texts are
/// dates, and which instant each is, is named, not described.
#[verifier::external_body]
pub(crate) fn parse_rfc3339(value: &str) -> (seconds: Option<i64>)
    ensures
        seconds == rfc3339_seconds(value@),
{
    match chrono::DateTime::parse_from_rfc3339(value) {
        Ok(time) => Some(time.timestamp()),
        Err(_) => None,
    }
}

/// A timestamp as a date, or as a number where no date is kept for it.
pub open spec fn time_text(timestamp: i64) -> Seq<char> {
    if representable(timestamp as int) {
        rfc3339(timestamp)
    } else {
        text::decimal(timestamp as int)
    }
}

/// Writes a timestamp as a date, or as a number where no date is kept for it.
pub fn display_time(timestamp: i64) -> (written: String)
    ensures
        written@ == time_text(timestamp),
{
    match rfc3339_text(timestamp) {
        Some(value) => value,
        None => text::numeral(timestamp),
    }
}

/// A timestamp to the minute, or nothing where no date is kept for it.
pub fn minute_text(timestamp: i64) -> (written: Option<String>)
    ensures
        written is Some <==> representable(timestamp as int),
        written matches Some(value) ==> value@ == formatted(timestamp, minute_pattern()),
{
    formatted_text(timestamp, "%Y-%m-%d %H:%M UTC")
}

/// Whether a calendar date is kept for a timestamp.
pub fn is_representable(timestamp: i64) -> (answer: bool)
    ensures
        answer == representable(timestamp as int),
{
    -8_334_601_228_800 <= timestamp && timestamp <= 8_210_266_876_799
}

/// The difference of two times, as far as it can be kept.
pub open spec fn span(later: i64, earlier: i64) -> int {
    let seconds = later - earlier;
    if seconds > i64::MAX {
        i64::MAX as int
    } else if seconds < i64::MIN {
        i64::MIN as int
    } else {
        seconds
    }
}

/// The difference of two times, as far as it can be kept.
pub fn seconds_between(later: i64, earlier: i64) -> (seconds: i64)
    ensures
        seconds == span(later, earlier),
{
    let seconds: i128 = later as i128 - earlier as i128;
    if seconds > i64::MAX as i128 {
        i64::MAX
    } else if seconds < i64::MIN as i128 {
        i64::MIN
    } else {
        seconds as i64
    }
}

/// A span of time is the difference of its ends, and positive exactly where the later one is later.
pub proof fn law_span_is_the_difference(later: i64, earlier: i64)
    ensures
        i64::MIN <= later - earlier <= i64::MAX ==> span(later, earlier) == later - earlier,
        span(later, earlier) > 0 <==> later > earlier,
        span(later, earlier) == 0 <==> later == earlier,
        i64::MIN <= span(later, earlier) <= i64::MAX,
{
}

/// A time is written as a date where there is one, and otherwise as its number of seconds.
pub proof fn law_time_is_a_date_or_a_number(timestamp: i64)
    ensures
        -8_334_601_228_800 <= timestamp <= 8_210_266_876_799 ==> time_text(timestamp) == rfc3339(
            timestamp,
        ),
        timestamp < -8_334_601_228_800 || timestamp > 8_210_266_876_799 ==> time_text(timestamp)
            == text::decimal(timestamp as int),
{
}

} // verus!
