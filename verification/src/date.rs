//! Dates of a planner, held as day numbers of the proleptic Gregorian calendar
//! together with their year, month and day.

use crate::calendar::{
    days_before_year, days_from_civil, days_in_month, days_in_range, is_date_of, is_valid_date, iso_week_of_day,
    lemma_civil_unique, lemma_date_in_year, lemma_date_range, lemma_year_step, month_index, month_of_month_index, ordinal_of,
    weekday_index_of, year_in_range, year_length, year_of_month_index, MAX_DAYS, MAX_YEAR, MIN_DAYS,
};
use crate::weekday::{weekday_from_index, PdfDateWeekday};
use chrono::Datelike;
use std::fmt::Write;
use vstd::prelude::*;

verus! {

/// The calendar reading of a date: its day number and its year, month and day.
pub struct DateView {
    pub days: int,
    pub year: int,
    pub month: int,
    pub day: int,
}

impl DateView {
    /// A date of the supported range whose day number and calendar fields agree.
    pub open spec fn wf(self) -> bool {
        days_in_range(self.days) && is_date_of(self.days, self.year, self.month, self.day)
    }

    /// Weekday of the date, counted from Monday (0) to Sunday (6).
    pub open spec fn weekday_index(self) -> int {
        weekday_index_of(self.days)
    }
}

/// The date reached by moving `months` months from `(y, m, d)`, keeping the day of the
/// month but using the last day of the month where that day does not exist.
pub open spec fn shifted_month_date(y: int, m: int, d: int, months: int) -> (int, int, int) {
    let t = month_index(y, m) + months;
    let y2 = year_of_month_index(t);
    let m2 = month_of_month_index(t);
    let d2 = if d <= days_in_month(y2, m2) { d } else { days_in_month(y2, m2) };
    (y2, m2, d2)
}

/// Day number of [`shifted_month_date`].
pub open spec fn shifted_month_days(y: int, m: int, d: int, months: int) -> int {
    let (y2, m2, d2) = shifted_month_date(y, m, d, months);
    days_from_civil(y2, m2, d2)
}

/// What `NaiveDate::from_str` gives for `s`: the day number of the date it reads, if any.
pub uninterp spec fn parsed_date_days(s: Seq<char>) -> Option<int>;

/// What `NaiveDate::format` renders, with the format string `pattern`, for the date with
/// day number `days`; `None` where chrono cannot render the format string.
pub uninterp spec fn formatted_date(days: int, pattern: Seq<char>) -> Option<Seq<char>>;

/// Format strings made only of specifiers that chrono renders for any date: the date
/// itself (`2024-09-14`), a month (`September 2024`), a week (`Week 37 2024`) and a day
/// (`14-Sep-2024 (Saturday)`).
pub open spec fn is_date_pattern(pattern: Seq<char>) -> bool {
    ||| pattern == "%Y-%m-%d"@
    ||| pattern == "%B %Y"@
    ||| pattern == "Week %V %Y"@
    ||| pattern == "%v (%A)"@
}

/// Calls `NaiveDate::from_ymd_opt`; claims that it accepts exactly the valid dates of the
/// supported years, and that `num_days_from_ce` of the result is its day number.
#[verifier::external_body]
fn civil_to_days(y: i32, m: u32, d: u32) -> (r: Option<i32>)
    ensures
        r is Some == (is_valid_date(y as int, m as int, d as int) && year_in_range(y as int)),
        r matches Some(n) ==> n == days_from_civil(y as int, m as int, d as int),
{
    match chrono::NaiveDate::from_ymd_opt(y, m, d) {
        Some(date) => Some(date.num_days_from_ce()),
        None => None,
    }
}

/// Calls `NaiveDate::from_num_days_from_ce_opt` on a supported day number; claims that the
/// year, month and day of the result form the calendar date of that day number, and that
/// `ordinal` is its day of the year.
#[verifier::external_body]
fn days_to_civil(n: i32) -> (r: (i32, u32, u32, u32))
    requires
        days_in_range(n as int),
    ensures
        is_date_of(n as int, r.0 as int, r.1 as int, r.2 as int),
        r.3 == ordinal_of(n as int, r.0 as int),
{
    let date = chrono::NaiveDate::from_num_days_from_ce_opt(n).unwrap();
    (date.year(), date.month(), date.day(), date.ordinal())
}

/// Calls `NaiveDate::checked_add_days`; claims that it moves `k` days forward and fails
/// exactly when `k` exceeds `i32::MAX` or the result leaves the supported range.
#[verifier::external_body]
fn checked_add_days(n: i32, k: u64) -> (r: Option<i32>)
    requires
        days_in_range(n as int),
    ensures
        r == (if k <= i32::MAX && n + k <= MAX_DAYS { Some((n + k) as i32) } else { None::<i32> }),
{
    let date = chrono::NaiveDate::from_num_days_from_ce_opt(n).unwrap();
    match date.checked_add_days(chrono::Days::new(k)) {
        Some(x) => Some(x.num_days_from_ce()),
        None => None,
    }
}

/// Calls `NaiveDate::checked_sub_days`; claims that it moves `k` days backward and fails
/// exactly when `k` exceeds `i32::MAX` or the result leaves the supported range.
#[verifier::external_body]
fn checked_sub_days(n: i32, k: u64) -> (r: Option<i32>)
    requires
        days_in_range(n as int),
    ensures
        r == (if k <= i32::MAX && n - k >= MIN_DAYS { Some((n - k) as i32) } else { None::<i32> }),
{
    let date = chrono::NaiveDate::from_num_days_from_ce_opt(n).unwrap();
    match date.checked_sub_days(chrono::Days::new(k)) {
        Some(x) => Some(x.num_days_from_ce()),
        None => None,
    }
}

/// Calls `NaiveDate::checked_add_months`; claims that it moves `k` months forward, keeping
/// the day of the month or using the month's last day, and fails exactly when the
/// resulting year is unsupported. The result is given by its day number.
#[verifier::external_body]
fn checked_add_months(y: i32, m: u32, d: u32, k: u32) -> (r: Option<i32>)
    requires
        is_valid_date(y as int, m as int, d as int),
        year_in_range(y as int),
        k <= i32::MAX,
    ensures
        r is Some <==> year_in_range(shifted_month_date(y as int, m as int, d as int, k as int).0),
        r matches Some(n) ==> n == shifted_month_days(y as int, m as int, d as int, k as int),
{
    let date = chrono::NaiveDate::from_ymd_opt(y, m, d).unwrap();
    match date.checked_add_months(chrono::Months::new(k)) {
        Some(x) => Some(x.num_days_from_ce()),
        None => None,
    }
}

/// Calls `NaiveDate::checked_sub_months`; claims that it moves `k` months backward, keeping
/// the day of the month or using the month's last day, and fails exactly when the
/// resulting year is unsupported. The result is given by its day number.
#[verifier::external_body]
fn checked_sub_months(y: i32, m: u32, d: u32, k: u32) -> (r: Option<i32>)
    requires
        is_valid_date(y as int, m as int, d as int),
        year_in_range(y as int),
        k <= i32::MAX,
    ensures
        r is Some <==> year_in_range(shifted_month_date(y as int, m as int, d as int, -(k as int)).0),
        r matches Some(n) ==> n == shifted_month_days(y as int, m as int, d as int, -(k as int)),
{
    let date = chrono::NaiveDate::from_ymd_opt(y, m, d).unwrap();
    match date.checked_sub_months(chrono::Months::new(k)) {
        Some(x) => Some(x.num_days_from_ce()),
        None => None,
    }
}

/// Calls `NaiveDate::iso_week` and `IsoWeek::week` on the date with day number `n`, which
/// lies in year `y`; claims that the week is the ISO 8601 week number [`iso_week_of_day`],
/// which chrono documents that it computes.
#[verifier::external_body]
fn iso_week_of(n: i32, y: i32) -> (r: u32)
    requires
        days_in_range(n as int),
        days_before_year(y as int) < n <= days_before_year(y as int) + year_length(y as int),
    ensures
        r == iso_week_of_day(n as int, y as int),
{
    chrono::NaiveDate::from_num_days_from_ce_opt(n).unwrap().iso_week().week()
}

/// Calls `NaiveDate::from_str`; claims that the outcome is a function of the text and
/// that a date read from it lies in the supported range.
#[verifier::external_body]
fn parse_date_text(s: &str) -> (r: Option<i32>)
    ensures
        r matches Some(n) ==> parsed_date_days(s@) == Some(n as int) && days_in_range(n as int),
        r is None ==> parsed_date_days(s@) is None,
{
    match s.parse::<chrono::NaiveDate>() {
        Ok(date) => Some(date.num_days_from_ce()),
        Err(_) => None,
    }
}

/// Calls `NaiveDate::format` and writes the result out; claims that the outcome is a
/// function of the date and the format string, that it is text for the format strings
/// of [`is_date_pattern`], whose specifiers chrono documents as supported, and that the
/// `%Y-%m-%d` text reads back as the same date, as chrono documents that `NaiveDate`
/// parses the format in which it is displayed.
#[verifier::external_body]
fn format_date(n: i32, pattern: &str) -> (r: Option<String>)
    requires
        days_in_range(n as int),
    ensures
        r is Some == formatted_date(n as int, pattern@) is Some,
        r matches Some(s) ==> formatted_date(n as int, pattern@) == Some(s@),
        is_date_pattern(pattern@) ==> r is Some,
        r matches Some(s) ==> (pattern@ == "%Y-%m-%d"@ ==> parsed_date_days(s@) == Some(n as int)),
{
    let date = chrono::NaiveDate::from_num_days_from_ce_opt(n).unwrap();
    let mut out = String::new();
    match write!(out, "{}", date.format(pattern)) {
        Ok(()) => Some(out),
        Err(_) => None,
    }
}

/// Error returned when text does not read as a date.
#[derive(Clone, Copy, Debug, PartialEq, Eq, Structural)]
pub struct ParseDateError;

/// Date for some object in a PDF.
#[derive(Clone, Copy, Debug, PartialEq, Eq, Structural)]
pub struct PdfDate {
    days: i32,
    year: i32,
    month: u32,
    day: u32,
    ordinal: u32,
}

impl View for PdfDate {
    type V = DateView;

    closed spec fn view(&self) -> DateView {
        DateView {
            days: self.days as int,
            year: self.year as int,
            month: self.month as int,
            day: self.day as int,
        }
    }
}

impl PdfDate {
    #[verifier::type_invariant]
    closed spec fn inv(self) -> bool {
        &&& self@.wf()
        &&& self.ordinal == ordinal_of(self.days as int, self.year as int)
    }

    /// Builds the date with day number `n`, which must be supported.
    fn from_day_number(n: i32) -> (r: Self)
        requires
            days_in_range(n as int),
        ensures
            r@.days == n,
            r@.wf(),
    {
        let (year, month, day, ordinal) = days_to_civil(n);
        PdfDate { days: n, year, month, day, ordinal }
    }

    /// Creates the date `year-month-day`. Returns None if invalid or out of range.
    pub fn from_ymd(year: i32, month: u32, day: u32) -> (r: Option<Self>)
        ensures
            r is Some <==> is_valid_date(year as int, month as int, day as int) && year_in_range(
                year as int,
            ),
            r matches Some(d) ==> d@.year == year && d@.month == month && d@.day == day
                && d@.wf(),
    {
        match civil_to_days(year, month, day) {
            Some(n) => {
                proof {
                    lemma_date_range(n as int, year as int, month as int, day as int);
                }
                let date = Self::from_day_number(n);
                proof {
                    lemma_civil_unique(n as int, year as int, month as int, day as int,
                        date@.year, date@.month, date@.day);
                }
                Some(date)
            },
            None => None,
        }
    }

    /// Creates the date whose number of days from the common era (0001-01-01 being day 1)
    /// is `days`. Returns None if out of range.
    pub fn from_num_days_from_ce(days: i32) -> (r: Option<Self>)
        ensures
            r is Some <==> days_in_range(days as int),
            r matches Some(d) ==> d@.days == days && d@.wf(),
    {
        if MIN_DAYS <= days && days <= MAX_DAYS {
            Some(Self::from_day_number(days))
        } else {
            None
        }
    }

    /// Returns the number of days from the common era (0001-01-01 being day 1).
    pub fn num_days_from_ce(&self) -> (r: i32)
        ensures
            r == self@.days,
            self@.wf(),
    {
        proof {
            use_type_invariant(self);
        }
        self.days
    }

    /// Returns the year associated with the date.
    ///
    /// Negatives represent BCE. e.g. -309 == 310 BCE.
    pub fn year(&self) -> (r: i32)
        ensures
            r == self@.year,
            self@.wf(),
    {
        proof {
            use_type_invariant(self);
        }
        self.year
    }

    /// Returns the month (1 to 12).
    pub fn month(&self) -> (r: u32)
        ensures
            r == self@.month,
            self@.wf(),
    {
        proof {
            use_type_invariant(self);
        }
        self.month
    }

    /// Returns the month starting from 0.
    pub fn month0(&self) -> (r: u32)
        ensures
            r == self@.month - 1,
    {
        proof {
            use_type_invariant(self);
        }
        self.month - 1
    }

    /// Returns the day of the month (starting from 1).
    pub fn day(&self) -> (r: u32)
        ensures
            r == self@.day,
            self@.wf(),
    {
        proof {
            use_type_invariant(self);
        }
        self.day
    }

    /// Returns the day of the year (1 for January 1).
    pub fn ordinal(&self) -> (r: u32)
        ensures
            r == ordinal_of(self@.days, self@.year),
            1 <= r <= year_length(self@.year),
    {
        proof {
            use_type_invariant(self);
            lemma_date_in_year(self@.days, self@.year, self@.month, self@.day);
        }
        self.ordinal
    }

    /// Returns the day of the year starting from 0.
    pub fn ordinal0(&self) -> (r: u32)
        ensures
            r == ordinal_of(self@.days, self@.year) - 1,
            r < year_length(self@.year),
    {
        self.ordinal() - 1
    }

    /// Returns the ISO week number (1 to 53).
    pub fn iso_week(&self) -> (r: u32)
        ensures
            r == iso_week_of_day(self@.days, self@.year),
            1 <= r <= 53,
    {
        proof {
            use_type_invariant(self);
            lemma_date_in_year(self@.days, self@.year, self@.month, self@.day);
        }
        iso_week_of(self.days, self.year)
    }

    /// Returns the ISO week number starting from 0.
    pub fn iso_week0(&self) -> (r: u32)
        ensures
            r == iso_week_of_day(self@.days, self@.year) - 1,
            r < 53,
    {
        self.iso_week() - 1
    }

    /// Returns the weekday associated with the date.
    pub fn weekday(&self) -> (r: PdfDateWeekday)
        ensures
            r.index() == weekday_index_of(self@.days),
    {
        proof {
            use_type_invariant(self);
        }
        let shifted: i64 = self.days as i64 - 1 + 95746133;
        let idx: i64 = shifted % 7;
        proof {
            vstd::arithmetic::div_mod::lemma_mod_multiples_vanish(
                13678019,
                self.days as int - 1,
                7,
            );
        }
        PdfDateWeekday::from_index(idx as u32)
    }

    /// Whether this date comes strictly before `other`.
    pub fn is_before(&self, other: &Self) -> (r: bool)
        ensures
            r == (self@.days < other@.days),
    {
        self.days < other.days
    }

    /// Whether this date comes before `other` or is the same date.
    pub fn is_on_or_before(&self, other: &Self) -> (r: bool)
        ensures
            r == (self@.days <= other@.days),
    {
        self.days <= other.days
    }
}

impl PdfDate {
    /// Adds days to the date, returning the new date or none if the date would be out of range.
    ///
    /// The days to add can be negative, which will result in going backwards.
    pub fn add_days(self, days: i64) -> (r: Option<Self>)
        ensures
            r is Some <==> days_in_range(self@.days + days),
            r matches Some(d) ==> d@.days == self@.days + days && d@.wf(),
    {
        proof {
            use_type_invariant(&self);
        }
        if days > 0 {
            match checked_add_days(self.days, days as u64) {
                Some(n) => Some(Self::from_day_number(n)),
                None => None,
            }
        } else if days < 0 {
            if days == i64::MIN {
                return None;
            }
            match checked_sub_days(self.days, (-days) as u64) {
                Some(n) => Some(Self::from_day_number(n)),
                None => None,
            }
        } else {
            Some(self)
        }
    }

    /// Adds weeks to the date, returning the new date or none if the date would be out of range.
    ///
    /// The weeks to add can be negative, which will result in going backwards.
    pub fn add_weeks(self, weeks: i64) -> (r: Option<Self>)
        ensures
            r is Some <==> days_in_range(self@.days + 7 * weeks),
            r matches Some(d) ==> d@.days == self@.days + 7 * weeks && d@.wf(),
    {
        proof {
            use_type_invariant(&self);
        }
        // Beyond this many weeks either way the date leaves the range, and the days no
        // longer fit in an `i64`.
        let limit: i64 = i64::MAX / 7;
        if weeks > limit || weeks < -limit {
            return None;
        }
        self.add_days(weeks * 7)
    }

    /// Adds months to the date, returning the new date or none if the date would be out of range.
    ///
    /// The day of the month is kept where the new month has it, and otherwise becomes the
    /// last day of the new month. The months to add can be negative, which will result in
    /// going backwards.
    pub fn add_months(self, months: i32) -> (r: Option<Self>)
        ensures
            r is Some <==> year_in_range(shifted_month_date(self@.year, self@.month, self@.day, months as int).0),
            r matches Some(d) ==> (d@.year, d@.month, d@.day) == shifted_month_date(self@.year, self@.month, self@.day, months as int),
            r matches Some(d) ==> d@.wf(),
    {
        proof {
            use_type_invariant(&self);
            lemma_date_range(self@.days, self@.year, self@.month, self@.day);
        }
        let shifted = if months > 0 {
            checked_add_months(self.year, self.month, self.day, months as u32)
        } else if months == i32::MIN {
            proof {
                let t = month_index(self@.year, self@.month) + months;
                assert(t < -2_000_000_000);
                assert(t / 12 < -166_000_000);
            }
            return None;
        } else if months < 0 {
            checked_sub_months(self.year, self.month, self.day, (-months) as u32)
        } else {
            proof {
                lemma_shift_by_zero_months(self@.year, self@.month, self@.day);
            }
            return Some(self);
        };
        match shifted {
            Some(n) => {
                let ghost target = shifted_month_date(self@.year, self@.month, self@.day, months as int);
                proof {
                    lemma_shifted_month_valid(self@.year, self@.month, self@.day, months as int);
                    lemma_date_range(n as int, target.0, target.1, target.2);
                }
                let date = Self::from_day_number(n);
                proof {
                    lemma_civil_unique(n as int, target.0, target.1, target.2,
                        date@.year, date@.month, date@.day);
                }
                Some(date)
            },
            None => None,
        }
    }

    /// Returns tomorrow's date, or none if the date would be out of range.
    pub fn tomorrow(self) -> (r: Option<Self>)
        ensures
            r is Some <==> self@.days + 1 <= MAX_DAYS,
            r matches Some(d) ==> d@.days == self@.days + 1 && d@.wf(),
    {
        proof {
            use_type_invariant(&self);
        }
        self.add_days(1)
    }

    /// Returns yesterday's date, or none if the date would be out of range.
    pub fn yesterday(self) -> (r: Option<Self>)
        ensures
            r is Some <==> self@.days - 1 >= MIN_DAYS,
            r matches Some(d) ==> d@.days == self@.days - 1 && d@.wf(),
    {
        proof {
            use_type_invariant(&self);
        }
        self.add_days(-1)
    }

    /// Returns next week's date, or none if the date would be out of range.
    pub fn next_week(self) -> (r: Option<Self>)
        ensures
            r is Some <==> self@.days + 7 <= MAX_DAYS,
            r matches Some(d) ==> d@.days == self@.days + 7 && d@.wf(),
    {
        proof {
            use_type_invariant(&self);
        }
        self.add_weeks(1)
    }

    /// Returns last week's date, or none if the date would be out of range.
    pub fn last_week(self) -> (r: Option<Self>)
        ensures
            r is Some <==> self@.days - 7 >= MIN_DAYS,
            r matches Some(d) ==> d@.days == self@.days - 7 && d@.wf(),
    {
        proof {
            use_type_invariant(&self);
        }
        self.add_weeks(-1)
    }

    /// Returns next month's date, or none if the date would be out of range.
    pub fn next_month(self) -> (r: Option<Self>)
        ensures
            r is Some <==> year_in_range(shifted_month_date(self@.year, self@.month, self@.day, 1).0),
            r matches Some(d) ==> (d@.year, d@.month, d@.day) == shifted_month_date(self@.year, self@.month, self@.day, 1),
            r matches Some(d) ==> d@.wf(),
    {
        self.add_months(1)
    }

    /// Returns last month's date, or none if the date would be out of range.
    pub fn last_month(self) -> (r: Option<Self>)
        ensures
            r is Some <==> year_in_range(shifted_month_date(self@.year, self@.month, self@.day, -1).0),
            r matches Some(d) ==> (d@.year, d@.month, d@.day) == shifted_month_date(self@.year, self@.month, self@.day, -1),
            r matches Some(d) ==> d@.wf(),
    {
        self.add_months(-1)
    }
}

/// Moving by no months keeps a valid date as it is.
proof fn lemma_shift_by_zero_months(y: int, m: int, d: int)
    requires
        is_valid_date(y, m, d),
    ensures
        shifted_month_date(y, m, d, 0) == (y, m, d),
{
    vstd::arithmetic::div_mod::lemma_fundamental_div_mod_converse(y * 12 + (m - 1), 12, y, m - 1);
}

/// Moving a valid date by some months lands on a valid date.
proof fn lemma_shifted_month_valid(y: int, m: int, d: int, months: int)
    requires
        is_valid_date(y, m, d),
    ensures
        is_valid_date(shifted_month_date(y, m, d, months).0, shifted_month_date(y, m, d, months).1, shifted_month_date(y, m, d, months).2),
{
    let t = month_index(y, m) + months;
    vstd::arithmetic::div_mod::lemma_mod_bound(t, 12);
}


/// Day number of the first day of the week (starting on Sunday) holding day number `n`.
pub open spec fn week_start_sunday(n: int) -> int {
    n - (weekday_index_of(n) + 1) % 7
}

/// Day number of the first day of the week (starting on Monday) holding day number `n`.
pub open spec fn week_start_monday(n: int) -> int {
    n - weekday_index_of(n)
}

impl PdfDate {
    /// Creates a new date for beginning of `year`. Returns None if invalid.
    pub fn beginning_of_year(year: i32) -> (r: Option<Self>)
        ensures
            r is Some <==> year_in_range(year as int),
            r matches Some(d) ==> d@.year == year && d@.month == 1 && d@.day == 1 && d@.wf(),
    {
        Self::from_ymd(year, 1, 1)
    }

    /// Returns a new date representing beginning of the year for current date.
    pub fn into_beginning_of_year(self) -> (r: Self)
        ensures
            r@.year == self@.year && r@.month == 1 && r@.day == 1 && r@.wf(),
    {
        proof {
            use_type_invariant(&self);
            lemma_date_range(self@.days, self@.year, self@.month, self@.day);
        }
        Self::beginning_of_year(self.year).unwrap()
    }

    /// Creates a new date for end of `year`. Returns None if invalid.
    pub fn end_of_year(year: i32) -> (r: Option<Self>)
        ensures
            r is Some <==> year_in_range(year as int),
            r matches Some(d) ==> d@.year == year && d@.month == 12 && d@.day == 31 && d@.wf(),
    {
        Self::from_ymd(year, 12, 31)
    }

    /// Returns a new date representing end of the year for current date.
    pub fn into_end_of_year(self) -> (r: Self)
        ensures
            r@.year == self@.year && r@.month == 12 && r@.day == 31 && r@.wf(),
    {
        proof {
            use_type_invariant(&self);
            lemma_date_range(self@.days, self@.year, self@.month, self@.day);
        }
        Self::end_of_year(self.year).unwrap()
    }

    /// Creates a new date for `year` at beginning of `month`. Returns None if invalid.
    pub fn beginning_of_month(year: i32, month: u32) -> (r: Option<Self>)
        ensures
            r is Some <==> 1 <= month <= 12 && year_in_range(year as int),
            r matches Some(d) ==> d@.year == year && d@.month == month && d@.day == 1 && d@.wf(),
    {
        Self::from_ymd(year, month, 1)
    }

    /// Returns a new date representing beginning of month for current date.
    pub fn into_beginning_of_month(self) -> (r: Self)
        ensures
            r@.year == self@.year && r@.month == self@.month && r@.day == 1 && r@.wf(),
    {
        proof {
            use_type_invariant(&self);
            lemma_date_range(self@.days, self@.year, self@.month, self@.day);
        }
        Self::beginning_of_month(self.year, self.month).unwrap()
    }

    /// Creates a new date for `year` at end of `month`. Returns None if invalid, including the
    /// last month of the last supported year, whose following month is out of range.
    pub fn end_of_month(year: i32, month: u32) -> (r: Option<Self>)
        ensures
            r is Some <==> 1 <= month <= 12 && year_in_range(year as int) && !(year == MAX_YEAR && month == 12),
            r matches Some(d) ==> d@.year == year && d@.month == month && d@.day == days_in_month(year as int, month as int) && d@.wf(),
    {
        // Go to beginning of this month, advance a month, and then get yesterday
        let first = match Self::beginning_of_month(year, month) {
            Some(d) => d,
            None => return None,
        };
        proof {
            lemma_next_month_start(year as int, month as int);
        }
        let next = match first.next_month() {
            Some(d) => d,
            None => return None,
        };
        proof {
            let (y2, m2, d2) = shifted_month_date(year as int, month as int, 1, 1);
            lemma_civil_unique(next@.days, y2, m2, d2, next@.year, next@.month, next@.day);
            lemma_date_range(next@.days, next@.year, next@.month, next@.day);
            lemma_date_range(first@.days, first@.year, first@.month, first@.day);
        }
        let last = next.yesterday();
        match last {
            Some(d) => {
                proof {
                    lemma_civil_unique(d@.days, year as int, month as int,
                        days_in_month(year as int, month as int), d@.year, d@.month, d@.day);
                }
                Some(d)
            },
            None => None,
        }
    }

    /// Returns a new date representing end of month for current date.
    pub fn into_end_of_month(self) -> (r: Self)
        requires
            !(self@.year == MAX_YEAR && self@.month == 12),
        ensures
            r@.year == self@.year && r@.month == self@.month && r@.day == days_in_month(self@.year, self@.month) && r@.wf(),
    {
        proof {
            use_type_invariant(&self);
            lemma_date_range(self@.days, self@.year, self@.month, self@.day);
        }
        Self::end_of_month(self.year, self.month).unwrap()
    }

    /// Returns a new date representing beginning of week (Sunday-based) for current date.
    pub fn into_beginning_of_week_sunday(self) -> (r: Self)
        requires
            week_start_sunday(self@.days) >= MIN_DAYS,
        ensures
            r@.days == week_start_sunday(self@.days),
            r@.weekday_index() == 6,
            r@.wf(),
    {
        let weekday = self.weekday();
        let num_days = weekday.num_days_from_sunday();
        proof {
            use_type_invariant(&self);
            lemma_week_start_weekday(self@.days);
        }
        self.add_days(-(num_days as i64)).unwrap()
    }

    /// Returns a new date representing end of week (Sunday-based) for current date.
    pub fn into_end_of_week_sunday(self) -> (r: Self)
        requires
            week_start_sunday(self@.days) >= MIN_DAYS,
            week_start_sunday(self@.days) + 6 <= MAX_DAYS,
        ensures
            r@.days == week_start_sunday(self@.days) + 6,
            r@.weekday_index() == 5,
            r@.wf(),
    {
        let start = self.into_beginning_of_week_sunday();
        proof {
            lemma_week_start_weekday(self@.days);
        }
        start.add_days(6).unwrap()
    }

    /// Returns a new date representing beginning of week (Monday-based) for current date.
    pub fn into_beginning_of_week_monday(self) -> (r: Self)
        requires
            week_start_monday(self@.days) >= MIN_DAYS,
        ensures
            r@.days == week_start_monday(self@.days),
            r@.weekday_index() == 0,
            r@.wf(),
    {
        let weekday = self.weekday();
        let num_days = weekday.num_days_from_monday();
        proof {
            use_type_invariant(&self);
            lemma_week_start_weekday(self@.days);
        }
        self.add_days(-(num_days as i64)).unwrap()
    }

    /// Returns a new date representing end of week (Monday-based) for current date.
    pub fn into_end_of_week_monday(self) -> (r: Self)
        requires
            week_start_monday(self@.days) >= MIN_DAYS,
            week_start_monday(self@.days) + 6 <= MAX_DAYS,
        ensures
            r@.days == week_start_monday(self@.days) + 6,
            r@.weekday_index() == 6,
            r@.wf(),
    {
        let start = self.into_beginning_of_week_monday();
        proof {
            lemma_week_start_weekday(self@.days);
        }
        start.add_days(6).unwrap()
    }
}

/// The first day of month `m + 1` (or of January next year) is one day after the last day of
/// month `m`.
proof fn lemma_next_month_start(y: int, m: int)
    requires
        1 <= m <= 12,
    ensures
        shifted_month_date(y, m, 1, 1) == (if m < 12 { (y, m + 1, 1int) } else { (y + 1, 1int, 1int) }),
        days_from_civil(shifted_month_date(y, m, 1, 1).0, shifted_month_date(y, m, 1, 1).1, 1) == days_from_civil(y, m, days_in_month(y, m)) + 1,
        is_valid_date(y, m, days_in_month(y, m)),
{
    if m < 12 {
        vstd::arithmetic::div_mod::lemma_fundamental_div_mod_converse(y * 12 + m, 12, y, m);
    } else {
        vstd::arithmetic::div_mod::lemma_fundamental_div_mod_converse(y * 12 + m, 12, y + 1, 0);
        lemma_year_step(y);
    }
}

/// The week starts have the weekday they are named after, and lie at most six days back.
proof fn lemma_week_start_weekday(n: int)
    ensures
        weekday_index_of(week_start_sunday(n)) == 6,
        weekday_index_of(week_start_sunday(n) + 6) == 5,
        weekday_index_of(week_start_monday(n)) == 0,
        weekday_index_of(week_start_monday(n) + 6) == 6,
        0 <= (weekday_index_of(n) + 1) % 7 <= 6,
        0 <= weekday_index_of(n) <= 6,
{
    let w = (n - 1) % 7;
    vstd::arithmetic::div_mod::lemma_fundamental_div_mod(n - 1, 7);
    vstd::arithmetic::div_mod::lemma_mod_bound(n - 1, 7);
    let q = (n - 1) / 7;
    if w == 6 {
        vstd::arithmetic::div_mod::lemma_fundamental_div_mod_converse((w + 1), 7, 1, 0);
        vstd::arithmetic::div_mod::lemma_fundamental_div_mod_converse(n - 1, 7, q, 6);
        vstd::arithmetic::div_mod::lemma_fundamental_div_mod_converse(n - 1 - 0, 7, q, 6);
        vstd::arithmetic::div_mod::lemma_fundamental_div_mod_converse(n - 1 + 6, 7, q + 1, 5);
    } else {
        vstd::arithmetic::div_mod::lemma_fundamental_div_mod_converse((w + 1), 7, 0, w + 1);
        vstd::arithmetic::div_mod::lemma_fundamental_div_mod_converse(n - (w + 1) - 1, 7, q - 1, 6);
        vstd::arithmetic::div_mod::lemma_fundamental_div_mod_converse(n - (w + 1) - 1 + 6, 7, q, 5);
    }
    vstd::arithmetic::div_mod::lemma_fundamental_div_mod_converse(n - w - 1, 7, q, 0);
    vstd::arithmetic::div_mod::lemma_fundamental_div_mod_converse(n - w - 1 + 6, 7, q, 6);
}

impl PdfDate {
    /// Parses a date written as `%Y-%m-%d` (such as `2024-09-14`).
    pub fn parse(s: &str) -> (r: Result<Self, ParseDateError>)
        ensures
            r is Ok <==> parsed_date_days(s@) is Some,
            r matches Ok(d) ==> parsed_date_days(s@) == Some(d@.days) && d@.wf(),
    {
        match parse_date_text(s) {
            Some(n) => Ok(Self::from_day_number(n)),
            None => Err(ParseDateError),
        }
    }

    /// The date as text in the form `%Y-%m-%d` (such as `2024-09-14`), which reads back as
    /// the same date.
    pub fn to_string(&self) -> (r: String)
        ensures
            formatted_date(self@.days, "%Y-%m-%d"@) == Some(r@),
            parsed_date_days(r@) == Some(self@.days),
    {
        match self.format("%Y-%m-%d") {
            Some(s) => s,
            None => String::new(),
        }
    }

    /// The date rendered with the format string `pattern`; `None` where chrono cannot
    /// render the format string.
    pub fn format(&self, pattern: &str) -> (r: Option<String>)
        ensures
            r is Some == formatted_date(self@.days, pattern@) is Some,
            r matches Some(s) ==> formatted_date(self@.days, pattern@) == Some(s@),
            is_date_pattern(pattern@) ==> r is Some,
            pattern@ == "%Y-%m-%d"@ ==> (r matches Some(s) && parsed_date_days(s@) == Some(self@.days)),
    {
        proof {
            use_type_invariant(self);
        }
        format_date(self.days, pattern)
    }
}

impl core::str::FromStr for PdfDate {
    type Err = ParseDateError;

    /// Parses a date written as `%Y-%m-%d` (such as `2024-09-14`).
    fn from_str(s: &str) -> (r: Result<Self, Self::Err>)
        ensures
            r is Ok <==> parsed_date_days(s@) is Some,
            r matches Ok(d) ==> parsed_date_days(s@) == Some(d@.days) && d@.wf(),
    {
        Self::parse(s)
    }
}

/// Two well-formed dates with the same day number are the same date: moving a date
/// by some days and back by as many gives the date it started from.
pub proof fn law_date_determined_by_days(a: DateView, b: DateView)
    requires
        a.wf(),
        b.wf(),
        a.days == b.days,
    ensures
        a == b,
{
    lemma_civil_unique(a.days, a.year, a.month, a.day, b.year, b.month, b.day);
}

/// The weekday of the next day is the next weekday.
pub proof fn law_next_day_next_weekday(n: int)
    ensures
        weekday_index_of(n + 1) == (weekday_index_of(n) + 1) % 7,
        weekday_from_index(weekday_index_of(n + 1)) == weekday_from_index(weekday_index_of(n)).succ_spec(),
{
    vstd::arithmetic::div_mod::lemma_fundamental_div_mod(n - 1, 7);
    vstd::arithmetic::div_mod::lemma_mod_bound(n - 1, 7);
    let q = (n - 1) / 7;
    let w = (n - 1) % 7;
    if w == 6 {
        vstd::arithmetic::div_mod::lemma_fundamental_div_mod_converse(n, 7, q + 1, 0);
        vstd::arithmetic::div_mod::lemma_fundamental_div_mod_converse(w + 1, 7, 1, 0);
    } else {
        vstd::arithmetic::div_mod::lemma_fundamental_div_mod_converse(n, 7, q, w + 1);
        vstd::arithmetic::div_mod::lemma_fundamental_div_mod_converse(w + 1, 7, 0, w + 1);
    }
}

} // verus!
