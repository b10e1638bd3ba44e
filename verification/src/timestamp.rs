//! Timestamps of the form `YYYY-MM-DD HH:MM:SS`, read by fixed-width fields and
//! stored as seconds since the epoch, in UTC.

use vstd::prelude::*;
use crate::number::{integer_literal, is_negative, parse_integer_in};
use crate::text::chars_of;

verus! {

/// The first and the last year that a civil date can have.
pub const MIN_YEAR: i32 = -262_143;

pub const MAX_YEAR: i32 = 262_142;

/// How many characters a timestamp takes.
pub const TIMESTAMP_WIDTH: usize = 19;

/// What a civil date-time maps to in a time zone, in seconds since the epoch.
#[derive(Clone, Copy, Debug, PartialEq, Eq, Structural)]
pub enum LocalSeconds {
    /// no instant has this local time
    Absent,
    /// exactly one instant has it
    Single(i64),
    /// two instants have it: the earlier and the later
    Ambiguous(i64, i64),
}

/// Why a text is no timestamp.
#[derive(Clone, Copy, Debug, PartialEq, Eq, Structural)]
pub enum TimestampError {
    /// the text does not follow the fixed-width pattern
    Malformed,
    /// the fields name a date or a time of day that does not exist, or one that
    /// maps to no instant
    NoSuchTime,
}

/// The six fields of a timestamp.
pub struct CivilTime {
    pub year: int,
    pub month: int,
    pub day: int,
    pub hour: int,
    pub minute: int,
    pub second: int,
}

pub open spec fn is_leap_year(year: int) -> bool {
    year % 4 == 0 && (year % 100 != 0 || year % 400 == 0)
}

pub open spec fn days_in_month(year: int, month: int) -> int {
    if month == 2 {
        if is_leap_year(year) {
            29
        } else {
            28
        }
    } else if month == 4 || month == 6 || month == 9 || month == 11 {
        30
    } else {
        31
    }
}

/// Whether the calendar has this day, in a year that a civil date can have.
pub open spec fn valid_civil_date(year: int, month: int, day: int) -> bool {
    &&& MIN_YEAR <= year <= MAX_YEAR
    &&& 1 <= month <= 12
    &&& 1 <= day <= days_in_month(year, month)
}

/// Whether the clock has this time of day. There is no leap second.
pub open spec fn valid_clock_time(hour: int, minute: int, second: int) -> bool {
    0 <= hour < 24 && 0 <= minute < 60 && 0 <= second < 60
}

pub open spec fn days_in_year(year: int) -> int {
    if is_leap_year(year) {
        366
    } else {
        365
    }
}

/// The days from the first day of 1970 to the first day of `year`; negative for
/// the years before 1970.
pub open spec fn days_to_year(year: int) -> int
    decreases
            (if year >= 1970 {
                year - 1970
            } else {
                1970 - year
            }),
{
    if year == 1970 {
        0
    } else if year > 1970 {
        days_to_year(year - 1) + days_in_year(year - 1)
    } else {
        days_to_year(year + 1) - days_in_year(year)
    }
}

/// The days from the first day of `year` to the first day of its month `month`.
pub open spec fn days_to_month(year: int, month: int) -> int
    decreases month,
{
    if month <= 1 {
        0
    } else {
        days_to_month(year, month - 1) + days_in_month(year, month - 1)
    }
}

/// The days from the first day of 1970 to the given day.
pub open spec fn days_since_epoch(year: int, month: int, day: int) -> int {
    days_to_year(year) + days_to_month(year, month) + day - 1
}

/// The seconds from the start of 1970 to the given civil time, at 86 400 seconds a
/// day.
pub open spec fn epoch_seconds(year: int, month: int, day: int, hour: int, minute: int, second: int) -> int {
    86_400 * days_since_epoch(year, month, day) + 3_600 * hour + 60 * minute + second
}

/// What the civil date-time maps to in UTC, or `None` where the date or the time
/// of day does not exist. In UTC every local time is the time of exactly one
/// instant.
pub open spec fn utc_mapping(year: int, month: int, day: int, hour: int, minute: int, second: int) -> Option<
    LocalSeconds,
> {
    if valid_civil_date(year, month, day) && valid_clock_time(hour, minute, second) {
        Some(LocalSeconds::Single(epoch_seconds(year, month, day, hour, minute, second) as i64))
    } else {
        None
    }
}

/// `NaiveDate::from_ymd_opt` and `NaiveTime::from_hms_opt` make the civil
/// date-time, `NaiveDateTime::and_local_timezone` maps it to UTC, and
/// `DateTime::timestamp` gives the seconds of each instant. The first two give a
/// value exactly where the day exists in the calendar and the time of day on the
/// clock; UTC has offset zero, so that the mapping is to a single instant; and its
/// timestamp is the number of non-leap seconds since the start of 1970.
#[verifier::external_body]
pub(crate) fn local_seconds(year: i32, month: u32, day: u32, hour: u32, minute: u32, second: u32) -> (res: Option<LocalSeconds>)
    ensures
        res == utc_mapping(year as int, month as int, day as int, hour as int, minute as int, second as int),
{
    let date = chrono::NaiveDate::from_ymd_opt(year, month, day)?;
    let time = chrono::NaiveTime::from_hms_opt(hour, minute, second)?;
    Some(match chrono::NaiveDateTime::new(date, time).and_local_timezone(chrono::Utc) {
        chrono::LocalResult::None => LocalSeconds::Absent,
        chrono::LocalResult::Single(at) => LocalSeconds::Single(at.timestamp()),
        chrono::LocalResult::Ambiguous(first, second) => LocalSeconds::Ambiguous(first.timestamp(), second.timestamp()),
    })
}

pub open spec fn is_ascii(c: char) -> bool {
    c <= '\x7f'
}

/// The number in a signed field: an optional sign, then digits.
pub open spec fn signed_field(s: Seq<char>) -> Option<int> {
    match integer_literal(s) {
        Some(v) => Some(v as int),
        None => None,
    }
}

/// The number in an unsigned field: an optional `+`, then digits.
pub open spec fn unsigned_field(s: Seq<char>) -> Option<int> {
    if is_negative(s) {
        None
    } else {
        signed_field(s)
    }
}

/// The six fields of `s`, taken at their fixed places: the year from the first four
/// characters, then two characters each for month, day, hour, minute and second,
/// with one character between any two fields. What stands between the fields is
/// not looked at, nor what follows the seconds; but none of the first nineteen
/// characters may lie outside ASCII.
pub open spec fn civil_fields(s: Seq<char>) -> Option<CivilTime> {
    if s.len() >= TIMESTAMP_WIDTH && (forall|i: int| 0 <= i < TIMESTAMP_WIDTH ==> is_ascii(#[trigger] s[i])) {
        match (
            signed_field(s.subrange(0, 4)),
            unsigned_field(s.subrange(5, 7)),
            unsigned_field(s.subrange(8, 10)),
            unsigned_field(s.subrange(11, 13)),
            unsigned_field(s.subrange(14, 16)),
            unsigned_field(s.subrange(17, 19)),
        ) {
            (Some(year), Some(month), Some(day), Some(hour), Some(minute), Some(second)) => Some(
                CivilTime { year, month, day, hour, minute, second },
            ),
            _ => None,
        }
    } else {
        None
    }
}

/// The instant that a mapped local time stands for: of two instants with the same
/// local time the earlier one, and none where no instant has it.
pub open spec fn instant_of(mapping: Option<LocalSeconds>) -> Result<i64, TimestampError> {
    match mapping {
        Some(LocalSeconds::Single(seconds)) => Ok(seconds),
        Some(LocalSeconds::Ambiguous(earlier, _)) => Ok(earlier),
        _ => Err(TimestampError::NoSuchTime),
    }
}

/// The seconds since the epoch that a civil date-time stands for in UTC.
pub open spec fn civil_seconds(t: CivilTime) -> Result<i64, TimestampError> {
    instant_of(utc_mapping(t.year, t.month, t.day, t.hour, t.minute, t.second))
}

/// The seconds since the epoch that the timestamp `s` stands for.
pub open spec fn timestamp_of(s: Seq<char>) -> Result<i64, TimestampError> {
    match civil_fields(s) {
        None => Err(TimestampError::Malformed),
        Some(t) => civil_seconds(t),
    }
}

/// Picks the instant that a mapped local time stands for.
pub fn pick_instant(mapping: Option<LocalSeconds>) -> (res: Result<i64, TimestampError>)
    ensures
        res == instant_of(mapping),
{
    match mapping {
        Some(LocalSeconds::Single(seconds)) => Ok(seconds),
        Some(LocalSeconds::Ambiguous(earlier, _)) => Ok(earlier),
        _ => Err(TimestampError::NoSuchTime),
    }
}

/// The number in the unsigned field of `chars` from `start` up to `end`.
fn parse_unsigned_field(chars: &Vec<char>, start: usize, end: usize) -> (res: Option<i64>)
    requires
        start < end <= chars.len(),
    ensures
        match res {
            Some(v) => unsigned_field(chars@.subrange(start as int, end as int)) == Some(v as int),
            None => unsigned_field(chars@.subrange(start as int, end as int)) is None,
        },
{
    assert(chars@.subrange(start as int, end as int)[0] == chars@[start as int]);
    if chars[start] == '-' {
        None
    } else {
        parse_integer_in(chars, start, end)
    }
}

/// Parses a timestamp of the form `YYYY-MM-DD HH:MM:SS` into seconds since the
/// epoch, in UTC.
pub fn parse_timestamp(text: &str) -> (res: Result<i64, TimestampError>)
    ensures
        res == timestamp_of(text@),
{
    let chars = chars_of(text);
    if chars.len() < TIMESTAMP_WIDTH {
        return Err(TimestampError::Malformed);
    }
    let mut i: usize = 0;
    while i < TIMESTAMP_WIDTH
        invariant
            i <= TIMESTAMP_WIDTH <= chars.len(),
            chars@ == text@,
            forall|k: int| 0 <= k < i ==> is_ascii(#[trigger] chars@[k]),
        decreases TIMESTAMP_WIDTH - i,
    {
        if chars[i] > '\x7f' {
            assert(!is_ascii(text@[i as int]));
            return Err(TimestampError::Malformed);
        }
        i += 1;
    }
    let year = match parse_integer_in(&chars, 0, 4) {
        Some(v) => v,
        None => {
            return Err(TimestampError::Malformed);
        },
    };
    let month = match parse_unsigned_field(&chars, 5, 7) {
        Some(v) => v,
        None => {
            return Err(TimestampError::Malformed);
        },
    };
    let day = match parse_unsigned_field(&chars, 8, 10) {
        Some(v) => v,
        None => {
            return Err(TimestampError::Malformed);
        },
    };
    let hour = match parse_unsigned_field(&chars, 11, 13) {
        Some(v) => v,
        None => {
            return Err(TimestampError::Malformed);
        },
    };
    let minute = match parse_unsigned_field(&chars, 14, 16) {
        Some(v) => v,
        None => {
            return Err(TimestampError::Malformed);
        },
    };
    let second = match parse_unsigned_field(&chars, 17, 19) {
        Some(v) => v,
        None => {
            return Err(TimestampError::Malformed);
        },
    };
    if year < MIN_YEAR as i64 || year > MAX_YEAR as i64 || month < 1 || month > 12 || day < 1
        || day > 31 || hour < 0 || hour > 23 || minute < 0 || minute > 59 || second < 0 || second
        > 59 {
        return Err(TimestampError::NoSuchTime);
    }
    pick_instant(
        local_seconds(year as i32, month as u32, day as u32, hour as u32, minute as u32, second as u32),
    )
}

} // verus!
