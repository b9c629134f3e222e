//! Calendar dates, read by `chrono` and held as day numbers.

use vstd::prelude::*;

verus! {

/// A calendar date, held as the number of its day in the proleptic Gregorian
/// calendar, where 1 January of the year 1 is day 1.
#[derive(Clone, Copy, Debug, PartialEq, Eq, Structural)]
pub struct Date {
    pub day_number: i32,
}

/// The day number of the date that `chrono` reads from `text` in the format
/// `%Y-%m-%d`, or `None` where it rejects the text.
pub uninterp spec fn date_day_number(text: Seq<char>) -> Option<i32>;

/// Calls `chrono::NaiveDate::parse_from_str` with the format `%Y-%m-%d`, and
/// `chrono::Datelike::num_days_from_ce` on the date that it gives. The
/// contract only gives the outcome its name.
#[verifier::external_body]
fn read_day_number(text: &str) -> (r: Option<i32>)
    ensures
        r == date_day_number(text@),
{
    match chrono::NaiveDate::parse_from_str(text, "%Y-%m-%d") {
        Ok(date) => Some(chrono::Datelike::num_days_from_ce(&date)),
        Err(_) => None,
    }
}

/// The date that `text` denotes in the form year-month-day, if any.
pub open spec fn date_of_text(text: Seq<char>) -> Option<Date> {
    match date_day_number(text) {
        Some(day) => Some(Date { day_number: day }),
        None => None,
    }
}

impl Date {
    /// Reads a date written as year-month-day.
    pub fn parse(text: &str) -> (r: Option<Date>)
        ensures
            r == date_of_text(text@),
    {
        match read_day_number(text) {
            Some(day) => Some(Date { day_number: day }),
            None => None,
        }
    }

    /// Whether this date lies before `other`.
    pub fn is_before(&self, other: &Date) -> (r: bool)
        ensures
            r == (self.day_number < other.day_number),
    {
        self.day_number < other.day_number
    }

    /// The number of days from this date to `later`; negative if `later` is
    /// the earlier one.
    pub fn days_until(&self, later: &Date) -> (r: i64)
        ensures
            r == later.day_number - self.day_number,
    {
        later.day_number as i64 - self.day_number as i64
    }
}

} // verus!
