//! Calendar dates, held as day numbers of the proleptic Gregorian calendar.
//!
//! The calendar itself is chrono's: the functions here that turn a year, a
//! month and a day into a date, step to the next date or measure the distance
//! between two dates all call chrono, and their contracts state what is relied
//! upon.

use crate::error::Error;
use chrono::Datelike;
use chrono::NaiveDate;
use vstd::prelude::*;

verus! {

/// Day number of the earliest date that chrono represents, January 1 of the
/// year -262143.
pub const MIN_DAY_NUMBER: i32 = -95_746_129;

/// Day number of the latest date that chrono represents, December 31 of the
/// year 262142.
pub const MAX_DAY_NUMBER: i32 = 95_745_399;

/// Whether `n` is the day number of a date that chrono represents.
pub open spec fn is_day_number(n: int) -> bool {
    MIN_DAY_NUMBER <= n <= MAX_DAY_NUMBER
}

/// The day number that chrono gives to the calendar date `year`-`month`-`day`:
/// what `NaiveDate::from_ymd_opt` followed by `num_days_from_ce` returns, and
/// `None` where chrono has no such date.
pub uninterp spec fn ymd_day_number(year: int, month: int, day: int) -> Option<int>;

/// The day number of the date that chrono reads from `text` under the format
/// `format`: what `NaiveDate::parse_from_str` followed by `num_days_from_ce`
/// returns, and `None` where chrono reports an error.
pub uninterp spec fn parsed_day_number(text: Seq<char>, format: Seq<char>) -> Option<int>;

/// A calendar date without a time zone.
///
/// Its view is its day number: January 1 of the year 1 is day 1, and every
/// later day counts one more.
#[derive(Debug, Clone, Copy, PartialEq, Eq, Structural)]
pub struct Date {
    days: i32,
}

impl View for Date {
    type V = int;

    closed spec fn view(&self) -> int {
        self.days as int
    }
}

/// Calls chrono's `NaiveDate::from_ymd_opt` and takes the day number of the
/// date it returns with `num_days_from_ce`. The contract names that number
/// and claims that it lies between the day numbers of `NaiveDate::MIN` and
/// `NaiveDate::MAX`.
#[verifier::external_body]
fn chrono_day_number(year: i32, month: u32, day: u32) -> (r: Option<i32>)
    ensures
        match r {
            Some(n) => ymd_day_number(year as int, month as int, day as int) == Some(n as int)
                && is_day_number(n as int),
            None => ymd_day_number(year as int, month as int, day as int) is None,
        },
{
    match NaiveDate::from_ymd_opt(year, month, day) {
        Some(date) => Some(date.num_days_from_ce()),
        None => None,
    }
}

/// Calls chrono's `NaiveDate::succ_opt` on the date with day number `days`.
/// The contract claims that the next calendar date has the next day number,
/// and that only `NaiveDate::MAX` has no next date. It leaves out the day
/// numbers for which `NaiveDate::from_num_days_from_ce_opt` returns no date,
/// so the `unwrap` finds one.
#[verifier::external_body]
fn chrono_succ(days: i32) -> (r: Option<i32>)
    requires
        is_day_number(days as int),
    ensures
        match r {
            Some(next) => next == days + 1 && is_day_number(next as int),
            None => days == MAX_DAY_NUMBER,
        },
{
    let date = NaiveDate::from_num_days_from_ce_opt(days).unwrap();
    match date.succ_opt() {
        Some(next) => Some(next.num_days_from_ce()),
        None => None,
    }
}

/// Calls chrono's `NaiveDate::signed_duration_since` on the dates with day
/// numbers `later` and `earlier`, and reads the result with
/// `TimeDelta::num_days`. The contract claims that the distance between two
/// dates, in days, is the difference of their day numbers. It leaves out the
/// day numbers for which `NaiveDate::from_num_days_from_ce_opt` returns no
/// date, so each `unwrap` finds one.
#[verifier::external_body]
fn chrono_days_between(later: i32, earlier: i32) -> (r: i64)
    requires
        is_day_number(later as int),
        is_day_number(earlier as int),
    ensures
        r == later - earlier,
{
    let later = NaiveDate::from_num_days_from_ce_opt(later).unwrap();
    let earlier = NaiveDate::from_num_days_from_ce_opt(earlier).unwrap();
    later.signed_duration_since(earlier).num_days()
}

/// Calls chrono's `NaiveDate::parse_from_str` and takes the day number of the
/// date it returns with `num_days_from_ce`. The contract names that number,
/// claims that it lies between the day numbers of `NaiveDate::MIN` and
/// `NaiveDate::MAX`, and claims that the same text under the same format is
/// always read the same way.
#[verifier::external_body]
fn chrono_parse(text: &str, format: &str) -> (r: Result<i32, chrono::ParseError>)
    ensures
        match r {
            Ok(n) => parsed_day_number(text@, format@) == Some(n as int) && is_day_number(n as int),
            Err(_) => parsed_day_number(text@, format@) is None,
        },
{
    match NaiveDate::parse_from_str(text, format) {
        Ok(date) => Ok(date.num_days_from_ce()),
        Err(err) => Err(err),
    }
}

impl Date {
    /// Every date lies in the range that chrono represents.
    #[verifier::type_invariant]
    pub open spec fn wf(self) -> bool {
        is_day_number(self@)
    }

    /// The date of the calendar day `year`-`month`-`day`, or `None` where the
    /// calendar has no such day or the year is out of range.
    pub fn from_ymd_opt(year: i32, month: u32, day: u32) -> (r: Option<Date>)
        ensures
            match r {
                Some(date) => ymd_day_number(year as int, month as int, day as int) == Some(date@)
                    && date.wf(),
                None => ymd_day_number(year as int, month as int, day as int) is None,
            },
    {
        match chrono_day_number(year, month, day) {
            Some(days) => Some(Date { days }),
            None => None,
        }
    }

    /// Reads a date from text of the form year-month-day, such as
    /// `2020-01-31`. Text that chrono does not read as a date under the format
    /// `%Y-%m-%d` gives `Error::DateParseError`.
    pub fn parse(text: &str) -> (r: Result<Date, Error>)
        ensures
            match r {
                Ok(date) => parsed_day_number(text@, "%Y-%m-%d"@) == Some(date@) && date.wf(),
                Err(err) => parsed_day_number(text@, "%Y-%m-%d"@) is None
                    && err is DateParseError,
            },
    {
        match chrono_parse(text, "%Y-%m-%d") {
            Ok(days) => Ok(Date { days }),
            Err(err) => Err(Error::from(err)),
        }
    }

    /// The date with day number `days`, or `None` where `days` is out of range.
    pub fn from_num_days_from_ce_opt(days: i32) -> (r: Option<Date>)
        ensures
            match r {
                Some(date) => date@ == days && date.wf(),
                None => !is_day_number(days as int),
            },
    {
        if MIN_DAY_NUMBER <= days && days <= MAX_DAY_NUMBER {
            Some(Date { days })
        } else {
            None
        }
    }

    /// The day number of this date.
    pub fn num_days_from_ce(&self) -> (n: i32)
        ensures
            n == self@,
            is_day_number(n as int),
    {
        proof {
            use_type_invariant(self);
        }
        self.days
    }

    /// The next calendar date, or `None` where this is the last date that can
    /// be represented.
    pub fn succ_opt(&self) -> (r: Option<Date>)
        ensures
            match r {
                Some(next) => next@ == self@ + 1 && next.wf(),
                None => self@ == MAX_DAY_NUMBER,
            },
    {
        proof {
            use_type_invariant(self);
        }
        match chrono_succ(self.days) {
            Some(days) => Some(Date { days }),
            None => None,
        }
    }

    /// The number of days from `earlier` to this date; negative where this
    /// date is the earlier one.
    pub fn signed_days_since(&self, earlier: &Date) -> (n: i64)
        ensures
            n == self@ - earlier@,
    {
        proof {
            use_type_invariant(self);
            use_type_invariant(earlier);
        }
        chrono_days_between(self.days, earlier.days)
    }

    /// Two dates with the same day number are the same date.
    pub proof fn lemma_view_injective(self, other: Date)
        requires
            self@ == other@,
        ensures
            self == other,
    {
    }
}

} // verus!
