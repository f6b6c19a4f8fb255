//! Weekdays, calendar dates and timestamps. The ISO week-date calendar
//! itself is resolved by the `time` crate behind a trusted lookup; all the
//! arithmetic around it is verified.

use vstd::prelude::*;
use crate::strutil::str_eq;
use crate::times::TimeOfDay;

verus! {

/// A day of the week.
#[derive(Clone, Copy, Debug, PartialEq, Eq, Structural)]
pub enum Weekday {
    Monday,
    Tuesday,
    Wednesday,
    Thursday,
    Friday,
    Saturday,
    Sunday,
}

impl Weekday {
    /// The ISO weekday number: Monday is 1, Sunday is 7.
    pub open spec fn number_spec(self) -> int {
        match self {
            Weekday::Monday => 1,
            Weekday::Tuesday => 2,
            Weekday::Wednesday => 3,
            Weekday::Thursday => 4,
            Weekday::Friday => 5,
            Weekday::Saturday => 6,
            Weekday::Sunday => 7,
        }
    }

    /// The ISO weekday number: Monday is 1, Sunday is 7.
    pub fn number(self) -> (r: u8)
        ensures
            r as int == self.number_spec(),
    {
        match self {
            Weekday::Monday => 1,
            Weekday::Tuesday => 2,
            Weekday::Wednesday => 3,
            Weekday::Thursday => 4,
            Weekday::Friday => 5,
            Weekday::Saturday => 6,
            Weekday::Sunday => 7,
        }
    }
}

/// The weekday a localized day label names; any other label is a fatal
/// structural failure, since it means the page format changed.
pub open spec fn weekday_of_label_spec(s: Seq<char>) -> Option<Weekday> {
    if s == "Montag"@ {
        Some(Weekday::Monday)
    } else if s == "Dienstag"@ {
        Some(Weekday::Tuesday)
    } else if s == "Mittwoch"@ {
        Some(Weekday::Wednesday)
    } else if s == "Donnerstag"@ {
        Some(Weekday::Thursday)
    } else if s == "Freitag"@ {
        Some(Weekday::Friday)
    } else if s == "Samstag"@ {
        Some(Weekday::Saturday)
    } else if s == "Sonntag"@ {
        Some(Weekday::Sunday)
    } else {
        None
    }
}

/// Resolve a day label to its weekday by exact match on the seven
/// localized day names.
pub fn weekday_of_label(s: &str) -> (r: Option<Weekday>)
    ensures
        r == weekday_of_label_spec(s@),
{
    if str_eq(s, "Montag") {
        Some(Weekday::Monday)
    } else if str_eq(s, "Dienstag") {
        Some(Weekday::Tuesday)
    } else if str_eq(s, "Mittwoch") {
        Some(Weekday::Wednesday)
    } else if str_eq(s, "Donnerstag") {
        Some(Weekday::Thursday)
    } else if str_eq(s, "Freitag") {
        Some(Weekday::Friday)
    } else if str_eq(s, "Samstag") {
        Some(Weekday::Saturday)
    } else if str_eq(s, "Sonntag") {
        Some(Weekday::Sunday)
    } else {
        None
    }
}

/// A calendar date.
#[derive(Clone, Copy, Debug, PartialEq, Eq, Structural)]
pub struct Date {
    pub year: i32,
    pub month: u8,
    pub day: u8,
}

/// A date with a time of day.
#[derive(Clone, Copy, Debug, PartialEq, Eq, Structural)]
pub struct DateTime {
    pub date: Date,
    pub time: TimeOfDay,
}

impl DateTime {
    /// Chronological order: lexicographic on year, month, day, hour,
    /// minute, second.
    pub open spec fn le_spec(a: DateTime, b: DateTime) -> bool {
        if a.date.year != b.date.year {
            a.date.year < b.date.year
        } else if a.date.month != b.date.month {
            a.date.month < b.date.month
        } else if a.date.day != b.date.day {
            a.date.day < b.date.day
        } else if a.time.hour != b.time.hour {
            a.time.hour < b.time.hour
        } else if a.time.minute != b.time.minute {
            a.time.minute < b.time.minute
        } else {
            a.time.second <= b.time.second
        }
    }

    /// Whether this timestamp is at or before the other.
    pub fn le(&self, other: &DateTime) -> (r: bool)
        ensures
            r == DateTime::le_spec(*self, *other),
    {
        if self.date.year != other.date.year {
            self.date.year < other.date.year
        } else if self.date.month != other.date.month {
            self.date.month < other.date.month
        } else if self.date.day != other.date.day {
            self.date.day < other.date.day
        } else if self.time.hour != other.time.hour {
            self.time.hour < other.time.hour
        } else if self.time.minute != other.time.minute {
            self.time.minute < other.time.minute
        } else {
            self.time.second <= other.time.second
        }
    }
}

/// The first supported calendar year of the `time` crate.
pub const MIN_CALENDAR_YEAR: i32 = -9999;

/// The last supported calendar year of the `time` crate.
pub const MAX_CALENDAR_YEAR: i32 = 9999;

/// The date of an ISO week date (year, week 1 to 53, weekday 1 to 7), as
/// the proleptic Gregorian calendar fixes it; `None` when the week does
/// not exist in that year or the year is out of the supported range.
pub uninterp spec fn iso_date_of(year: i32, week: u8, weekday: u8) -> Option<(i32, u8, u8)>;

/// Relies on `time::Date::from_iso_week_date` (and `Weekday::nth_next` to
/// number the weekday): the resolved date is a fixed function of year,
/// week and weekday, defined for weeks 1 to 52 of every year strictly
/// below the top of the supported range. The top year itself is not
/// promised: a late ISO week of it can spill into the following year
/// (week 52 of the last year runs past its December 31), which the crate
/// rejects.
#[verifier::external_body]
fn iso_week_date_lookup(year: i32, week: u8, weekday: u8) -> (r: Option<(i32, u8, u8)>)
    requires
        1 <= weekday <= 7,
    ensures
        r == iso_date_of(year, week, weekday),
        (MIN_CALENDAR_YEAR <= year && year < MAX_CALENDAR_YEAR && 1 <= week <= 52) ==> r is Some,
{
    let wd = time::Weekday::Sunday.nth_next(weekday);
    match time::Date::from_iso_week_date(year, week, wd) {
        Ok(d) => Some((d.year(), u8::from(d.month()), d.day())),
        Err(_) => None,
    }
}

/// The timestamp an ISO-8601 string encodes, to seconds precision, as the
/// `time` crate's ISO-8601 parser reads it; `None` when the text is not
/// valid ISO-8601.
pub uninterp spec fn iso_stamp_of(s: Seq<char>) -> Option<(i32, u8, u8, u8, u8, u8)>;

/// Relies on `time::PrimitiveDateTime::parse` with the ISO-8601 well-known
/// format: the parsed timestamp is a fixed function of the text.
#[verifier::external_body]
fn iso_datetime_parse(s: &str) -> (r: Option<(i32, u8, u8, u8, u8, u8)>)
    ensures
        r == iso_stamp_of(s@),
{
    match time::PrimitiveDateTime::parse(
        s,
        &time::format_description::well_known::Iso8601::DEFAULT,
    ) {
        Ok(t) => Some((t.year(), u8::from(t.month()), t.day(), t.hour(), t.minute(), t.second())),
        Err(_) => None,
    }
}

/// The timestamp of parsed ISO-8601 parts.
pub open spec fn stamp_datetime(p: (i32, u8, u8, u8, u8, u8)) -> DateTime {
    DateTime {
        date: Date { year: p.0, month: p.1, day: p.2 },
        time: TimeOfDay { hour: p.3, minute: p.4, second: p.5 },
    }
}

/// Parse an ISO-8601 query timestamp, to seconds precision.
pub fn parse_query_stamp(s: &str) -> (r: Option<DateTime>)
    ensures
        (match iso_stamp_of(s@) {
            Some(p) => r == Some(stamp_datetime(p)),
            None => r is None,
        }),
{
    match iso_datetime_parse(s) {
        Some((y, mo, d, h, mi, sec)) => Some(
            DateTime {
                date: Date { year: y, month: mo, day: d },
                time: TimeOfDay { hour: h, minute: mi, second: sec },
            },
        ),
        None => None,
    }
}

/// Resolve an ISO week date to a calendar date. A date is promised only
/// below the top supported year: a late ISO week of the top year can
/// spill past its December 31.
pub fn resolve_iso_week_date(year: i32, week: u8, weekday: Weekday) -> (r: Option<Date>)
    ensures
        (match iso_date_of(year, week, weekday.number_spec() as u8) {
            Some(p) => r == Some(Date { year: p.0, month: p.1, day: p.2 }),
            None => r is None,
        }),
        (MIN_CALENDAR_YEAR <= year && year < MAX_CALENDAR_YEAR && 1 <= week <= 52) ==> r is Some,
{
    match iso_week_date_lookup(year, week, weekday.number()) {
        Some((y, m, d)) => Some(Date { year: y, month: m, day: d }),
        None => None,
    }
}

} // verus!
