//! Points in time, and what the clock and the calendar of the machine tell
//! of them.

use vstd::prelude::*;
use chrono::{Datelike, FixedOffset, Local, NaiveDate, NaiveDateTime, Offset, TimeZone, Timelike};
use crate::config::text_of;
use crate::filename::timestamp_at;

verus! {

/// The shape of an identifier, as a pattern of time formatting: the date in
/// eight digits, `T`, the time of day in six.
pub const DN_IDENTIFIER_FORMAT: &'static str = "%Y%m%dT%H%M%S";

/// A point in time as a calendar shows it in some time zone: a date, a time
/// of day, and how many seconds the zone is ahead of universal time.
#[derive(Clone, Copy, Debug, PartialEq, Eq, Structural)]
pub struct Timestamp {
    pub year: i32,
    pub month: u32,
    pub day: u32,
    pub hour: u32,
    pub minute: u32,
    pub second: u32,
    pub offset_seconds: i32,
}

/// A date and a time of day as a calendar and a clock show them, in no
/// particular time zone.
#[derive(Clone, Copy, Debug, PartialEq, Eq, Structural)]
pub struct DateAndTime {
    pub year: i32,
    pub month: u32,
    pub day: u32,
    pub hour: u32,
    pub minute: u32,
    pub second: u32,
}

impl DateAndTime {
    /// Whether the fields are such as a calendar and a clock show: a month
    /// of the twelve, a day of at most 31, an hour of the 24, a minute and a
    /// second of the 60.
    pub open spec fn is_reading(self) -> bool {
        &&& 1 <= self.month <= 12
        &&& 1 <= self.day <= 31
        &&& self.hour <= 23
        &&& self.minute <= 59
        &&& self.second <= 59
    }

    /// The date and the time of day at an offset from universal time.
    pub open spec fn at_offset(self, offset_seconds: i32) -> Timestamp {
        Timestamp {
            year: self.year,
            month: self.month,
            day: self.day,
            hour: self.hour,
            minute: self.minute,
            second: self.second,
            offset_seconds,
        }
    }
}

impl Timestamp {
    /// The date and the time of day, without the offset.
    pub open spec fn date_and_time(self) -> DateAndTime {
        DateAndTime {
            year: self.year,
            month: self.month,
            day: self.day,
            hour: self.hour,
            minute: self.minute,
            second: self.second,
        }
    }

    /// Whether the fields are such as a calendar and a clock show, and the
    /// offset is less than a day.
    pub open spec fn is_reading(self) -> bool {
        self.date_and_time().is_reading() && -86_400 < self.offset_seconds < 86_400
    }
}

/// The date and the time of day that chrono reads from a text after a
/// pattern, as chrono gives the fields of what it has read. `None` where
/// the text does not fit the pattern or names no date and time of day.
pub uninterp spec fn parsed_date_and_time(text: Seq<char>, pattern: Seq<char>) -> Option<
    DateAndTime,
>;

/// Whether the last fifteen characters of `text` are eight digits, `T` and
/// six digits.
pub open spec fn ends_in_timestamp(text: Seq<char>) -> bool {
    text.len() >= 15 && timestamp_at(text, text.len() - 15)
}

impl Default for Timestamp {
    /// The first second of the year 1970 in universal time.
    fn default() -> (time: Self)
        ensures
            time == (Timestamp {
                year: 1970,
                month: 1,
                day: 1,
                hour: 0,
                minute: 0,
                second: 0,
                offset_seconds: 0,
            }),
    {
        Timestamp { year: 1970, month: 1, day: 1, hour: 0, minute: 0, second: 0, offset_seconds: 0 }
    }
}

/// The text that chrono writes for a point in time after a pattern. `None`
/// where chrono knows no such date, time of day or offset, and where it
/// cannot write the time after the pattern.
pub uninterp spec fn formatted_time(time: Timestamp, pattern: Seq<char>) -> Option<Seq<char>>;

/// `Local::now` and `DateTime::format` of chrono: the present local time,
/// written after `pattern`. Which time that is changes from call to call.
/// After the identifier pattern chrono writes the year in four digits, or
/// with a sign and more digits where it does not fit into four, then month
/// and day in two digits each, `T`, and hour, minute and second in two
/// digits each: so the text ends in a timestamp, whatever the time is.
/// Formatting panics on a pattern that chrono does not know, so only the
/// identifier pattern is admitted.
#[verifier::external_body]
fn local_now_formatted(pattern: &str) -> (text: String)
    requires
        pattern@ == DN_IDENTIFIER_FORMAT@,
    ensures
        ends_in_timestamp(text@),
{
    Local::now().format(pattern).to_string()
}

/// `Local::now` of chrono, and the fields of `Datelike`, `Timelike` and
/// `FixedOffset`: the present time in the time zone of the machine, read
/// off field by field. Which time that is changes from call to call; chrono
/// gives each field in its range.
#[verifier::external_body]
fn local_now() -> (time: Timestamp)
    ensures
        time.is_reading(),
{
    let now = Local::now();
    Timestamp {
        year: now.year(),
        month: now.month(),
        day: now.day(),
        hour: now.hour(),
        minute: now.minute(),
        second: now.second(),
        offset_seconds: now.offset().fix().local_minus_utc(),
    }
}

/// `NaiveDateTime::parse_from_str` and `TimeZone::from_local_datetime` of
/// chrono: reads a date and a time of day from `text` after `pattern`, and
/// asks the time zone of the machine for its offset at that local time.
/// `None` where the text does not fit the pattern or names no date and time
/// of day, which lies with text and pattern alone. The offset is `None`
/// where the time zone knows no such local time, or knows it twice; that,
/// and which offset it is, depends on the machine. Chrono gives each field
/// in its range.
#[verifier::external_body]
fn local_time_of(text: &str, pattern: &str) -> (read: Option<(DateAndTime, Option<i32>)>)
    ensures
        match read {
            Some((found, offset)) => {
                &&& parsed_date_and_time(text@, pattern@) == Some(found)
                &&& found.is_reading()
                &&& offset matches Some(seconds) ==> -86_400 < seconds < 86_400
            },
            None => parsed_date_and_time(text@, pattern@) is None,
        },
{
    let naive = NaiveDateTime::parse_from_str(text, pattern).ok()?;
    let zoned = Local.from_local_datetime(&naive).single();
    let found = DateAndTime {
        year: naive.year(),
        month: naive.month(),
        day: naive.day(),
        hour: naive.hour(),
        minute: naive.minute(),
        second: naive.second(),
    };
    Some((found, zoned.map(|time| time.offset().fix().local_minus_utc())))
}

/// `NaiveDate::from_ymd_opt`, `NaiveDate::and_hms_opt`,
/// `FixedOffset::east_opt` and `DateTime::format` of chrono: writes the
/// point in time after `pattern`. `None` where chrono declines the date, the
/// time of day, the offset or the pattern.
#[verifier::external_body]
pub(crate) fn format_time(time: &Timestamp, pattern: &str) -> (text: Option<String>)
    ensures
        text_of(text) == formatted_time(*time, pattern@),
{
    let date = NaiveDate::from_ymd_opt(time.year, time.month, time.day)?;
    let naive = date.and_hms_opt(time.hour, time.minute, time.second)?;
    let zone = FixedOffset::east_opt(time.offset_seconds)?;
    let mut text = String::new();
    zone.from_local_datetime(&naive).single()?.format(pattern).write_to(&mut text).ok()?;
    Some(text)
}

/// An identifier for the present moment: the local time of the machine,
/// written after the identifier pattern. Whatever the time is, the text
/// ends in a timestamp; nothing stands before the timestamp while the year
/// has four digits.
pub fn current_identifier() -> (identifier: String)
    ensures
        ends_in_timestamp(identifier@),
{
    local_now_formatted(DN_IDENTIFIER_FORMAT)
}

/// The present time in the time zone of the machine. Whatever the time is,
/// its fields are such as a calendar and a clock show.
pub fn current_time() -> (time: Timestamp)
    ensures
        time.is_reading(),
{
    local_now()
}

/// The time at which a note was made, from what was read from its
/// identifier and from the clock: the date and the time of day that the
/// identifier names, at the offset that the time zone of the machine has for
/// them, or at the present offset where it has none or two. The present
/// time where the identifier names no date and time of day.
pub open spec fn creation_time_of(read: Option<(DateAndTime, Option<i32>)>, now: Timestamp)
    -> Timestamp {
    match read {
        Some((found, Some(offset))) => found.at_offset(offset),
        Some((found, None)) => found.at_offset(now.offset_seconds),
        None => now,
    }
}

/// The time at which a note was made, from what was read from its
/// identifier and from the clock.
pub fn creation_time_from(read: Option<(DateAndTime, Option<i32>)>, now: Timestamp) -> (time:
    Timestamp)
    ensures
        time == creation_time_of(read, now),
{
    match read {
        Some((found, offset)) => Timestamp {
            year: found.year,
            month: found.month,
            day: found.day,
            hour: found.hour,
            minute: found.minute,
            second: found.second,
            offset_seconds: match offset {
                Some(seconds) => seconds,
                None => now.offset_seconds,
            },
        },
        None => now,
    }
}

/// The time at which the note with this identifier was made. Where the
/// identifier names a date and a time of day, the note was made then: at
/// the offset that the time zone of the machine has for that local time, or
/// at the present offset where it has none or two. Where the identifier
/// names none, the note was made now.
pub fn derive_creation_time(identifier: &str) -> (time: Timestamp)
    ensures
        time.is_reading(),
        parsed_date_and_time(identifier@, DN_IDENTIFIER_FORMAT@) matches Some(found)
            ==> time.date_and_time() == found,
{
    creation_time_from(local_time_of(identifier, DN_IDENTIFIER_FORMAT), local_now())
}

} // verus!
