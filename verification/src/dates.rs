//! Calendar days.
//!
//! A day is a year, a month and a day of the month in the proleptic
//! Gregorian calendar. The calendar itself is `chrono`'s: validity, the
//! neighbouring days and the written form are asked of it, and this module
//! states what it answers.

use vstd::prelude::*;
use chrono::{Datelike, NaiveDate};

verus! {

/// The first year that `chrono` represents.
pub const MIN_YEAR: i32 = -262143;

/// The last year that `chrono` represents.
pub const MAX_YEAR: i32 = 262142;

/// The year has a 29th of February.
pub open spec fn is_leap_year(year: int) -> bool {
    year % 4 == 0 && (year % 100 != 0 || year % 400 == 0)
}

/// The number of days of a month; zero for a month that does not exist.
pub open spec fn days_in_month(year: int, month: int) -> int {
    if month == 2 {
        if is_leap_year(year) {
            29
        } else {
            28
        }
    } else if month == 4 || month == 6 || month == 9 || month == 11 {
        30
    } else if 1 <= month <= 12 {
        31
    } else {
        0
    }
}

/// The day exists in the calendar and its year is one that `chrono`
/// represents.
pub open spec fn is_calendar_day(year: int, month: int, day: int) -> bool {
    &&& MIN_YEAR <= year <= MAX_YEAR
    &&& 1 <= month <= 12
    &&& 1 <= day <= days_in_month(year, month)
}

/// The character of a decimal digit.
pub open spec fn digit_char(digit: int) -> char {
    ((0x30 + digit) as u8) as char
}

/// A day of the years 0 to 9999 written as `YYYY-MM-DD`.
pub open spec fn padded_day_text(year: int, month: int, day: int) -> Seq<char> {
    seq![
        digit_char(year / 1000),
        digit_char(year / 100 % 10),
        digit_char(year / 10 % 10),
        digit_char(year % 10),
        '-',
        digit_char(month / 10),
        digit_char(month % 10),
        '-',
        digit_char(day / 10),
        digit_char(day % 10),
    ]
}

/// What `chrono` writes for a day in the format `%Y-%m-%d`.
pub uninterp spec fn iso_day_text(year: int, month: int, day: int) -> Seq<char>;

/// `NaiveDate::from_ymd_opt` of `chrono`: whether the three numbers name a
/// day that exists, in a year that `chrono` represents.
#[verifier::external_body]
fn chrono_is_day(year: i32, month: u32, day: u32) -> (valid: bool)
    ensures
        valid == is_calendar_day(year as int, month as int, day as int),
{
    NaiveDate::from_ymd_opt(year, month, day).is_some()
}

/// `NaiveDate::succ_opt` of `chrono`: the day after the given one. There is
/// none where the given numbers name no day, and none after the last day of
/// the last year.
#[verifier::external_body]
fn chrono_next_day(year: i32, month: u32, day: u32) -> (next: Option<(i32, u32, u32)>)
    ensures
        next == (CalendarDay { year, month, day }).day_after(),
{
    match NaiveDate::from_ymd_opt(year, month, day) {
        Some(date) => match date.succ_opt() {
            Some(found) => Some((found.year(), found.month(), found.day())),
            None => None,
        },
        None => None,
    }
}

/// `NaiveDate::pred_opt` of `chrono`: the day before the given one. There
/// is none where the given numbers name no day, and none before the first
/// day of the first year.
#[verifier::external_body]
fn chrono_previous_day(year: i32, month: u32, day: u32) -> (previous: Option<(i32, u32, u32)>)
    ensures
        previous == (CalendarDay { year, month, day }).day_before(),
{
    match NaiveDate::from_ymd_opt(year, month, day) {
        Some(date) => match date.pred_opt() {
            Some(found) => Some((found.year(), found.month(), found.day())),
            None => None,
        },
        None => None,
    }
}

/// `NaiveDate::format` of `chrono` with the format `%Y-%m-%d`: the year,
/// the month in two digits and the day in two digits, with hyphens between
/// them. A year from 0 to 9999 is written in four digits. There is no text
/// where the given numbers name no day.
#[verifier::external_body]
fn chrono_day_text(year: i32, month: u32, day: u32) -> (text: Option<String>)
    ensures
        text is Some == is_calendar_day(year as int, month as int, day as int),
        text matches Some(written) ==> written@ == iso_day_text(
            year as int,
            month as int,
            day as int,
        ),
        text matches Some(written) ==> 0 <= year <= 9999 ==> written@ == padded_day_text(
            year as int,
            month as int,
            day as int,
        ),
{
    match NaiveDate::from_ymd_opt(year, month, day) {
        Some(date) => Some(date.format("%Y-%m-%d").to_string()),
        None => None,
    }
}

/// A year, a month and a day of the month.
#[derive(Debug, Clone, Copy, PartialEq, Eq, Structural)]
pub struct CalendarDay {
    pub year: i32,
    pub month: u32,
    pub day: u32,
}

impl CalendarDay {
    /// The day exists.
    pub open spec fn is_valid(self) -> bool {
        is_calendar_day(self.year as int, self.month as int, self.day as int)
    }

    /// The day after this one, as year, month and day; none for a day that
    /// does not exist and for the last day of the last year.
    pub open spec fn day_after(self) -> Option<(i32, u32, u32)> {
        if !self.is_valid() {
            None
        } else if self.day < days_in_month(self.year as int, self.month as int) {
            Some((self.year, self.month, (self.day + 1) as u32))
        } else if self.month < 12 {
            Some((self.year, (self.month + 1) as u32, 1u32))
        } else if self.year < MAX_YEAR {
            Some(((self.year + 1) as i32, 1u32, 1u32))
        } else {
            None
        }
    }

    /// The day before this one, as year, month and day; none for a day that
    /// does not exist and for the first day of the first year.
    pub open spec fn day_before(self) -> Option<(i32, u32, u32)> {
        if !self.is_valid() {
            None
        } else if self.day > 1 {
            Some((self.year, self.month, (self.day - 1) as u32))
        } else if self.month > 1 {
            Some(
                (
                    self.year,
                    (self.month - 1) as u32,
                    days_in_month(self.year as int, self.month - 1) as u32,
                ),
            )
        } else if self.year > MIN_YEAR {
            Some(((self.year - 1) as i32, 12u32, 31u32))
        } else {
            None
        }
    }

    /// The written form of this day, `YYYY-MM-DD` for the years 0 to 9999.
    pub open spec fn text(self) -> Seq<char> {
        iso_day_text(self.year as int, self.month as int, self.day as int)
    }

    /// The day with this year, month and day of the month, if it exists.
    pub fn new(year: i32, month: u32, day: u32) -> (result: Option<CalendarDay>)
        ensures
            result == if is_calendar_day(year as int, month as int, day as int) {
                Some(CalendarDay { year, month, day })
            } else {
                None
            },
    {
        if chrono_is_day(year, month, day) {
            Some(CalendarDay { year, month, day })
        } else {
            None
        }
    }

    /// Whether the day exists.
    pub fn is_real(&self) -> (valid: bool)
        ensures
            valid == self.is_valid(),
    {
        chrono_is_day(self.year, self.month, self.day)
    }

    /// The day after this one.
    pub fn next(&self) -> (result: Option<CalendarDay>)
        ensures
            result == match self.day_after() {
                Some((year, month, day)) => Some(CalendarDay { year, month, day }),
                None => None,
            },
            result matches Some(day) ==> day.is_valid(),
    {
        match chrono_next_day(self.year, self.month, self.day) {
            Some((year, month, day)) => Some(CalendarDay { year, month, day }),
            None => None,
        }
    }

    /// The day before this one.
    pub fn previous(&self) -> (result: Option<CalendarDay>)
        ensures
            result == match self.day_before() {
                Some((year, month, day)) => Some(CalendarDay { year, month, day }),
                None => None,
            },
            result matches Some(day) ==> day.is_valid(),
    {
        match chrono_previous_day(self.year, self.month, self.day) {
            Some((year, month, day)) => Some(CalendarDay { year, month, day }),
            None => None,
        }
    }

    /// This day written as `YYYY-MM-DD`, if it exists.
    pub fn iso_text(&self) -> (result: Option<String>)
        ensures
            result is Some == self.is_valid(),
            result matches Some(written) ==> written@ == self.text(),
            result matches Some(written) ==> 0 <= self.year <= 9999 ==> written@
                == padded_day_text(self.year as int, self.month as int, self.day as int),
    {
        chrono_day_text(self.year, self.month, self.day)
    }
}

/// Going to the next day and back arrives where it started.
pub proof fn lemma_next_then_previous(day: CalendarDay)
    requires
        day.day_after() is Some,
    ensures
        ({
            let (year, month, date) = day.day_after()->Some_0;
            (CalendarDay { year, month, day: date }).day_before() == Some(
                (day.year, day.month, day.day),
            )
        }),
{
}

/// Going to the previous day and forth arrives where it started.
pub proof fn lemma_previous_then_next(day: CalendarDay)
    requires
        day.day_before() is Some,
    ensures
        ({
            let (year, month, date) = day.day_before()->Some_0;
            (CalendarDay { year, month, day: date }).day_after() == Some(
                (day.year, day.month, day.day),
            )
        }),
{
}

} // verus!
