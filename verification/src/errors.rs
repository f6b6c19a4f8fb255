//! Typed parse errors. Structural failures (an unknown day label, a
//! malformed row) are fatal for a scrape; they are returned, never panicked.

use vstd::prelude::*;

verus! {

/// Why a scrape or a query could not be parsed.
#[derive(Clone, Copy, Debug, PartialEq, Eq, Structural)]
pub enum ParseError {
    /// A week or time field holds a malformed or overflowing number.
    Number,
    /// A token of a comma-separated week list itself holds a comma.
    WeekToken,
    /// A time of day without the `:` separator.
    TimeSeparator,
    /// A time of day with an hour past 23 or a minute past 59.
    TimeRange,
    /// A day label that is none of the seven known day names.
    Weekday,
    /// A table row with fewer than the eight required cells.
    Row,
    /// A week that expands to a year outside the supported calendar range.
    Date,
    /// A query timestamp that is not valid ISO-8601.
    Stamp,
    /// A supplement record without group lines after its subject id.
    Supplement,
}

impl ParseError {
    /// The fixed description of each failure.
    pub open spec fn describe_spec(self) -> Seq<char> {
        match self {
            ParseError::Number => "malformed number"@,
            ParseError::WeekToken => "malformed week list token"@,
            ParseError::TimeSeparator => "time of day without ':'"@,
            ParseError::TimeRange => "time of day out of range"@,
            ParseError::Weekday => "unrecognized day label"@,
            ParseError::Row => "table row with missing columns"@,
            ParseError::Date => "week number out of calendar range"@,
            ParseError::Stamp => "malformed ISO-8601 timestamp"@,
            ParseError::Supplement => "supplement record without group lines"@,
        }
    }

    /// A fixed human-readable description of the failure.
    pub fn describe(self) -> (r: &'static str)
        ensures
            r@ == self.describe_spec(),
    {
        match self {
            ParseError::Number => "malformed number",
            ParseError::WeekToken => "malformed week list token",
            ParseError::TimeSeparator => "time of day without ':'",
            ParseError::TimeRange => "time of day out of range",
            ParseError::Weekday => "unrecognized day label",
            ParseError::Row => "table row with missing columns",
            ParseError::Date => "week number out of calendar range",
            ParseError::Stamp => "malformed ISO-8601 timestamp",
            ParseError::Supplement => "supplement record without group lines",
        }
    }
}

} // verus!
