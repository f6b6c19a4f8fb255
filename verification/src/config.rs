//! Process configuration: the values read once at startup and handed into
//! the pipeline.

use vstd::prelude::*;

verus! {

/// How log output is formatted.
#[derive(Clone, Copy, Debug, PartialEq, Eq, Structural)]
pub enum Formatting {
    Compact,
    Pretty,
}

/// The process configuration: the listening port, the log formatting and
/// the site this deployment serves.
#[derive(Debug)]
pub struct Config {
    pub port: u16,
    pub formatting: Formatting,
    pub site: String,
}

impl Clone for Config {
    fn clone(&self) -> (r: Self)
        ensures
            r.port == self.port,
            r.formatting == self.formatting,
            r.site@ == self.site@,
    {
        Config { port: self.port, formatting: self.formatting, site: self.site.clone() }
    }
}

/// The first year of the semester numbering: week 1 of a timetable is week
/// 1 of this ISO year. A deployment-time value; the expansion functions
/// take it as a parameter.
pub const SEMESTER_EPOCH_YEAR: i32 = 2023;

} // verus!
