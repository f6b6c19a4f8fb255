//! Times of day and the `"HH:MM"` grammar.

use vstd::prelude::*;
use crate::errors::ParseError;
use crate::strutil::{chars_of, parse_u32_chars, parse_u32_of, split_once_at, split_once_char};

verus! {

/// A wall-clock time of day. The timetable grammar always yields zero
/// seconds; query timestamps may carry them.
#[derive(Clone, Copy, Debug, PartialEq, Eq, Structural)]
pub struct TimeOfDay {
    pub hour: u8,
    pub minute: u8,
    pub second: u8,
}

impl TimeOfDay {
    /// Hours run to 23, minutes and seconds to 59.
    pub open spec fn is_valid(self) -> bool {
        self.hour < 24 && self.minute < 60 && self.second < 60
    }

    /// Seconds since midnight.
    pub open spec fn seconds_spec(self) -> int {
        (self.hour * 60 + self.minute) * 60 + self.second
    }
}

/// The time of day a `"HH:MM"` string encodes: no `:` separator is a
/// `TimeSeparator` failure, parts that are not numbers up to 255 are
/// `Number` failures, and an hour past 23 or a minute past 59 is a
/// `TimeRange` failure.
pub open spec fn parse_time_of(s: Seq<char>) -> Result<TimeOfDay, ParseError> {
    match split_once_at(s, ':') {
        None => Err(ParseError::TimeSeparator),
        Some(p) => match (parse_u32_of(p.0), parse_u32_of(p.1)) {
            (Some(h), Some(m)) => if h > 255 || m > 255 {
                Err(ParseError::Number)
            } else if h < 24 && m < 60 {
                Ok(TimeOfDay { hour: h as u8, minute: m as u8, second: 0 })
            } else {
                Err(ParseError::TimeRange)
            },
            _ => Err(ParseError::Number),
        },
    }
}

/// Parse a 24-hour `"HH:MM"` time of day; seconds are always zero.
pub fn parse_time(s: &str) -> (r: Result<TimeOfDay, ParseError>)
    ensures
        r == parse_time_of(s@),
        r matches Ok(t) ==> t.is_valid() && t.second == 0,
{
    let cs = chars_of(s);
    match split_once_char(&cs, ':') {
        None => Err(ParseError::TimeSeparator),
        Some((hs, ms)) => {
            let h = parse_u32_chars(&hs);
            let m = parse_u32_chars(&ms);
            match (h, m) {
                (Some(h), Some(m)) => {
                    if h > 255 || m > 255 {
                        Err(ParseError::Number)
                    } else if h < 24 && m < 60 {
                        Ok(TimeOfDay { hour: h as u8, minute: m as u8, second: 0 })
                    } else {
                        Err(ParseError::TimeRange)
                    }
                },
                _ => Err(ParseError::Number),
            }
        },
    }
}

} // verus!
