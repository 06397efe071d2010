//! Calendar dates as day numbers, and their fixed `MM/DD/YYYY` text form.
//!
//! The arithmetic on dates is done here, on day numbers. Reading and writing
//! the text form is left to the `chrono` crate.

use vstd::prelude::*;
use chrono::{Datelike, NaiveDate};
use crate::text::opt_text;

verus! {

/// The text form of every date this crate reads or writes.
pub const DATE_FMT: &'static str = "%m/%d/%Y";

/// The day number that `chrono` reads out of `text` under [`DATE_FMT`], and
/// `None` where it does not accept `text` as a date.
pub uninterp spec fn parsed_days(text: Seq<char>) -> Option<int>;

/// The text that `chrono` writes for the day numbered `days` under
/// [`DATE_FMT`], and `None` where it has no date of that number.
pub uninterp spec fn formatted_days(days: int) -> Option<Seq<char>>;

/// Reads a date in the form [`DATE_FMT`].
///
/// Trusted: the body calls `chrono::NaiveDate::parse_from_str` and, on the
/// date it returns, `Datelike::num_days_from_ce`. The contract only names the
/// outcome: which texts are dates, and which day each one is, is `chrono`'s
/// to say.
#[verifier::external_body]
fn read_day_number(text: &str) -> (days: Option<i32>)
    ensures
        match days {
            Some(number) => parsed_days(text@) == Some(number as int),
            None => parsed_days(text@) is None,
        },
{
    match NaiveDate::parse_from_str(text, DATE_FMT) {
        Ok(date) => Some(date.num_days_from_ce()),
        Err(_) => None,
    }
}

/// Writes a date in the form [`DATE_FMT`].
///
/// Trusted: the body calls `chrono::NaiveDate::from_num_days_from_ce_opt`
/// and, on the date it returns, `NaiveDate::format` with the fixed format. The
/// contract only names the outcome.
#[verifier::external_body]
fn write_day_number(days: i32) -> (text: Option<String>)
    ensures
        opt_text(text) == formatted_days(days as int),
{
    match NaiveDate::from_num_days_from_ce_opt(days) {
        Some(date) => Some(date.format(DATE_FMT).to_string()),
        None => None,
    }
}

/// A calendar date, held as the number of its day in the proleptic Gregorian
/// calendar, where day 1 is January 1 of year 1.
#[derive(Debug, Clone, Copy, PartialEq, Eq, Structural)]
pub struct Date {
    pub days: i32,
}

/// A text that is not a date in the form [`DATE_FMT`].
#[derive(Debug, Clone)]
pub struct DateError {
    pub input: String,
}

impl DateError {
    /// The message shown for a text that is not a date.
    pub fn message(&self) -> (text: String)
        ensures
            text@ == "Failed to parse date '"@ + self.input@ + "'"@,
    {
        let mut text = String::from_str("Failed to parse date '");
        text.append(self.input.as_str());
        text.append("'");
        text
    }
}

impl Date {
    /// The date `n` days before this one, and `None` where its day number does
    /// not fit the machine integer that holds it.
    pub fn minus_days(&self, n: i64) -> (earlier: Option<Date>)
        ensures
            match earlier {
                Some(date) => date.days == self.days - n,
                None => !(i32::MIN <= self.days - n <= i32::MAX),
            },
    {
        if n < -0x1_0000_0000 || n > 0x1_0000_0000 {
            return None;
        }
        let number: i64 = self.days as i64 - n;
        if number < i32::MIN as i64 || number > i32::MAX as i64 {
            None
        } else {
            Some(Date { days: number as i32 })
        }
    }

    /// Tells whether this date is the other one or comes before it.
    pub fn on_or_before(&self, other: &Date) -> (yes: bool)
        ensures
            yes == (self.days <= other.days),
    {
        self.days <= other.days
    }

    /// This date in the form [`DATE_FMT`], and `None` where the calendar
    /// library has no date of this day number.
    pub fn format(&self) -> (text: Option<String>)
        ensures
            opt_text(text) == formatted_days(self.days as int),
    {
        write_day_number(self.days)
    }
}

/// Reads a date in the form [`DATE_FMT`]. The text is rejected exactly where
/// the calendar library does not accept it, and the error hands it back.
pub fn parse_date(text: &str) -> (date: Result<Date, DateError>)
    ensures
        match date {
            Ok(day) => parsed_days(text@) == Some(day.days as int),
            Err(error) => parsed_days(text@) is None && error.input@ == text@,
        },
{
    match read_day_number(text) {
        Some(days) => Ok(Date { days }),
        None => Err(DateError { input: String::from_str(text) }),
    }
}

} // verus!
