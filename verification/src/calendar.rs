//! Wall-clock readings: how text is read as a date and time, and how a
//! reading is tied to an instant on the local clock.

use crate::file::Timestamp;
use chrono::{Datelike, Local, NaiveDate, NaiveDateTime, NaiveTime, TimeZone, Timelike};
use vstd::prelude::*;

verus! {

/// A calendar date.
#[derive(Debug, Clone, Copy, PartialEq, Eq, Structural)]
pub struct CivilDate {
    pub year: i32,
    pub month: u32,
    pub day: u32,
}

/// A time of day.
#[derive(Debug, Clone, Copy, PartialEq, Eq, Structural)]
pub struct ClockTime {
    pub hour: u32,
    pub minute: u32,
    pub second: u32,
    pub nanos: u32,
}

/// A date and a time of day, on no particular clock.
#[derive(Debug, Clone, Copy, PartialEq, Eq, Structural)]
pub struct CivilTime {
    pub date: CivilDate,
    pub time: ClockTime,
}

/// What `NaiveDateTime::parse_from_str` reads from `text` under the format
/// `format`: the date and time, or nothing where the text does not fit.
pub uninterp spec fn date_time_reading(text: Seq<char>, format: Seq<char>) -> Option<CivilTime>;

/// What `NaiveTime::parse_from_str` reads from `text` under the format
/// `format`: the time of day, or nothing where the text does not fit.
pub uninterp spec fn time_reading(text: Seq<char>, format: Seq<char>) -> Option<ClockTime>;

/// Reads `text` as a date and time with `NaiveDateTime::parse_from_str`. The
/// result depends on the two texts alone and is `date_time_reading` of them,
/// field by field as the parsed value reports them.
#[verifier::external_body]
pub(crate) fn read_date_time(text: &str, format: &str) -> (reading: Option<CivilTime>)
    ensures
        reading == date_time_reading(text@, format@),
{
    let t = NaiveDateTime::parse_from_str(text, format).ok()?;
    let date = CivilDate { year: t.year(), month: t.month(), day: t.day() };
    let (hour, minute, second, nanos) = (t.hour(), t.minute(), t.second(), t.nanosecond());
    Some(CivilTime { date, time: ClockTime { hour, minute, second, nanos } })
}

/// Reads `text` as a time of day with `NaiveTime::parse_from_str`. The result
/// depends on the two texts alone and is `time_reading` of them.
#[verifier::external_body]
pub(crate) fn read_time(text: &str, format: &str) -> (reading: Option<ClockTime>)
    ensures
        reading == time_reading(text@, format@),
{
    let t = NaiveTime::parse_from_str(text, format).ok()?;
    let (hour, minute, second, nanos) = (t.hour(), t.minute(), t.second(), t.nanosecond());
    Some(ClockTime { hour, minute, second, nanos })
}

/// Today's date on the local clock (`Local::now`). Nothing is claimed of it:
/// it changes with the time and the time zone.
#[verifier::external_body]
pub(crate) fn today() -> (date: CivilDate) {
    let now = Local::now().date_naive();
    CivilDate { year: now.year(), month: now.month(), day: now.day() }
}

/// The instant at which the local clock shows `civil`
/// (`TimeZone::from_local_datetime` on `Local`), if there is exactly one.
/// Nothing is claimed of the result: it depends on the time zone.
#[verifier::external_body]
pub(crate) fn local_instant(civil: CivilTime) -> (instant: Option<Timestamp>) {
    let (date, time) = (civil.date, civil.time);
    let day = NaiveDate::from_ymd_opt(date.year, date.month, date.day)?;
    let naive = day.and_hms_nano_opt(time.hour, time.minute, time.second, time.nanos)?;
    let t = Local.from_local_datetime(&naive).single()?;
    let (secs, nanos) = (t.timestamp(), t.timestamp_subsec_nanos());
    let (year, month, day) = (t.year(), t.month(), t.day());
    let (hour, minute, second) = (t.hour(), t.minute(), t.second());
    Some(Timestamp { secs, nanos, year, month, day, hour, minute, second })
}

/// Whether the day on which the instant `secs` seconds after the Unix epoch
/// falls is within the range of days for which `TimeZone::timestamp_opt` makes
/// a date.
pub uninterp spec fn calendar_reaches(secs: i64) -> bool;

/// Whether `nanos` nanoseconds can stand beside `secs` seconds: less than a
/// second, or, to write a leap second, less than two seconds beside the last
/// second of a minute.
pub open spec fn nanos_fit(secs: i64, nanos: u32) -> bool {
    nanos < 1_000_000_000 || (nanos < 2_000_000_000 && secs % 60 == 59)
}

/// Whether the instant `secs` seconds and `nanos` nanoseconds after the Unix
/// epoch can be read on a clock: its day is within the calendar, and the
/// nanoseconds fit the seconds.
pub open spec fn readable(secs: i64, nanos: u32) -> bool {
    calendar_reaches(secs) && nanos_fit(secs, nanos)
}

/// The local clock's reading of the instant `secs` seconds and `nanos`
/// nanoseconds after the Unix epoch (`TimeZone::timestamp_opt` on `Local`).
///
/// Whether there is a reading depends on the instant alone: there is none
/// for seconds out of the calendar's range or for nanoseconds that do not fit,
/// and one otherwise. A reading is of the instant asked for
/// (`DateTime::timestamp` and `DateTime::timestamp_subsec_nanos` give back
/// what the value was made from), and its calendar fields are in the ranges
/// that `Datelike` and `Timelike` give for them. Which date and time they
/// show is not claimed: it depends on the time zone.
#[verifier::external_body]
pub(crate) fn local_reading(secs: i64, nanos: u32) -> (reading: Option<Timestamp>)
    ensures
        reading is Some <==> (calendar_reaches(secs) && nanos_fit(secs, nanos)),
        reading matches Some(t) ==> (t.wf() && t.secs == secs && t.nanos == nanos),
{
    let t = Local.timestamp_opt(secs, nanos).single()?;
    let (secs, nanos) = (t.timestamp(), t.timestamp_subsec_nanos());
    let (year, month, day) = (t.year(), t.month(), t.day());
    let (hour, minute, second) = (t.hour(), t.minute(), t.second());
    Some(Timestamp { secs, nanos, year, month, day, hour, minute, second })
}

impl Timestamp {
    /// The date that the timestamp shows.
    pub open spec fn date(self) -> CivilDate {
        CivilDate { year: self.year, month: self.month, day: self.day }
    }

    /// Whether the timestamp shows the date and time `civil`, to the second.
    pub open spec fn shows(self, civil: CivilTime) -> bool {
        &&& self.date() == civil.date
        &&& self.hour == civil.time.hour
        &&& self.minute == civil.time.minute
        &&& self.second == civil.time.second
    }

    /// Whether the timestamp shows the date and time `civil`, to the second.
    pub fn reads_as(&self, civil: &CivilTime) -> (same: bool)
        ensures
            same == self.shows(*civil),
    {
        self.year == civil.date.year && self.month == civil.date.month && self.day
            == civil.date.day && self.hour == civil.time.hour && self.minute == civil.time.minute
            && self.second == civil.time.second
    }

    /// Accepts a reading of the instant `secs`, `nanos` if it is of that
    /// instant and its fields are those of a date and a time of day.
    pub fn accept_reading(reading: Option<Timestamp>, secs: i64, nanos: u32) -> (accepted: Option<
        Timestamp,
    >)
        ensures
            accepted == match reading {
                Some(t) if t.wf() && t.secs == secs && t.nanos == nanos => Some(t),
                _ => None,
            },
    {
        match reading {
            Some(t) => if t.is_valid() && t.secs == secs && t.nanos == nanos {
                Some(t)
            } else {
                None
            },
            None => None,
        }
    }

    /// The timestamp of the instant `secs` seconds and `nanos` nanoseconds
    /// after the Unix epoch, read on the local clock. There is one exactly
    /// where the instant is readable; it is of that instant, and its fields
    /// are those of a date and a time of day.
    pub fn from_unix(secs: i64, nanos: u32) -> (made: Option<Timestamp>)
        ensures
            made is Some <==> readable(secs, nanos),
            made matches Some(t) ==> t.wf() && t.secs == secs && t.nanos == nanos,
    {
        let reading = local_reading(secs, nanos);
        Timestamp::accept_reading(reading, secs, nanos)
    }
}

/// What a time literal came to.
#[derive(Debug, Clone, Copy, PartialEq, Eq)]
pub enum TimeReading {
    /// The literal names this instant.
    Instant(Timestamp),
    /// The literal is a date and time, or a time of day, that the local clock
    /// shows never or more than once.
    Ambiguous,
    /// The literal is in neither of the accepted forms.
    Unreadable,
}

/// The form of a full time literal: day, month, year, hour and minute.
pub open spec fn date_time_format() -> Seq<char> {
    "%d.%m.%Y %H:%M"@
}

/// The form of a time-only literal: hour and minute.
pub open spec fn time_format() -> Seq<char> {
    "%H:%M"@
}

/// What the local clock made of the date and time `civil`: the instant, if
/// there is one that shows `civil` with fields of a date and a time of day.
pub fn settle(civil: CivilTime, instant: Option<Timestamp>) -> (reading: TimeReading)
    ensures
        reading == match instant {
            Some(t) if t.wf() && t.shows(civil) => TimeReading::Instant(t),
            _ => TimeReading::Ambiguous,
        },
{
    match instant {
        Some(t) => if t.is_valid() && t.reads_as(&civil) {
            TimeReading::Instant(t)
        } else {
            TimeReading::Ambiguous
        },
        None => TimeReading::Ambiguous,
    }
}

/// How a reading stands to the literal `text` that it was made from.
///
/// A literal in neither form is unreadable, and no other is. An instant that
/// comes of a full literal shows the date and time that the literal writes; one
/// that comes of a time-only literal shows that time of day.
pub open spec fn reading_fits(text: Seq<char>, reading: TimeReading) -> bool {
    match date_time_reading(text, date_time_format()) {
        Some(civil) => match reading {
            TimeReading::Instant(t) => t.wf() && t.shows(civil),
            TimeReading::Ambiguous => true,
            TimeReading::Unreadable => false,
        },
        None => match time_reading(text, time_format()) {
            Some(clock) => match reading {
                TimeReading::Instant(t) => t.wf() && t.hour == clock.hour && t.minute
                    == clock.minute && t.second == clock.second,
                TimeReading::Ambiguous => true,
                TimeReading::Unreadable => false,
            },
            None => reading is Unreadable,
        },
    }
}

/// Reads a time literal: first as day, month, year, hour and minute; failing
/// that, as hour and minute of today's date. Either is then placed on the
/// local clock.
pub fn read_instant(text: &str) -> (reading: TimeReading)
    ensures
        reading_fits(text@, reading),
{
    match read_date_time(text, "%d.%m.%Y %H:%M") {
        Some(civil) => settle(civil, local_instant(civil)),
        None => match read_time(text, "%H:%M") {
            Some(clock) => {
                let civil = CivilTime { date: today(), time: clock };
                settle(civil, local_instant(civil))
            },
            None => TimeReading::Unreadable,
        },
    }
}

} // verus!
