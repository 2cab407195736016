//! Calendar dates as plain values.
//!
//! The engine never computes with dates: it only compares them for
//! equality (the time bonus of the comparator and the strict duplicate
//! guard).  A date is therefore held as its year, month and day.  A bare
//! entry or graduation year is carried as January 1 of that year, the same
//! convention the year-only date parser of the service uses.

use vstd::prelude::*;

verus! {

/// A calendar date, compared field by field.
#[derive(Clone, Copy, PartialEq, Eq, Structural, Debug)]
pub struct Date {
    pub year: i32,
    pub month: u8,
    pub day: u8,
}

impl Date {
    /// A full calendar date.
    pub fn new(year: i32, month: u8, day: u8) -> (r: Date)
        ensures
            r == (Date { year, month, day }),
    {
        Date { year, month, day }
    }

    /// The date standing for a bare year: January 1 of that year.
    pub fn from_year(year: i32) -> (r: Date)
        ensures
            r == (Date { year, month: 1, day: 1 }),
    {
        Date { year, month: 1, day: 1 }
    }
}

} // verus!
