//! The proleptic Gregorian calendar, stated over mathematical integers.
//!
//! Days are numbered as "days from the common era": 0001-01-01 is day 1, so
//! 0000-12-31 (1 BCE) is day 0. Years are astronomical: year 0 is 1 BCE.

use vstd::prelude::*;

verus! {

/// Smallest year a planner date can hold (January 1 of it is the earliest date).
pub const MIN_YEAR: i32 = -262143;

/// Largest year a planner date can hold (December 31 of it is the latest date).
pub const MAX_YEAR: i32 = 262142;

/// Day number of -262143-01-01, the earliest date.
pub const MIN_DAYS: i32 = -95746129;

/// Day number of 262142-12-31, the latest date.
pub const MAX_DAYS: i32 = 95745399;

/// A year is a leap year when divisible by 4, except centuries not divisible by 400.
pub open spec fn is_leap_year(y: int) -> bool {
    (y % 4 == 0 && y % 100 != 0) || y % 400 == 0
}

/// Number of days in year `y`.
pub open spec fn year_length(y: int) -> int {
    if is_leap_year(y) { 366 } else { 365 }
}

/// Number of days in month `m` (1 to 12) of year `y`.
pub open spec fn days_in_month(y: int, m: int) -> int {
    if m == 2 {
        if is_leap_year(y) { 29 } else { 28 }
    } else if m == 4 || m == 6 || m == 9 || m == 11 {
        30
    } else {
        31
    }
}

/// Number of days of year `y` that come before the first of month `m`.
pub open spec fn days_before_month(y: int, m: int) -> int {
    let base: int = if m <= 1 { 0 }
        else if m == 2 { 31 }
        else if m == 3 { 59 }
        else if m == 4 { 90 }
        else if m == 5 { 120 }
        else if m == 6 { 151 }
        else if m == 7 { 181 }
        else if m == 8 { 212 }
        else if m == 9 { 243 }
        else if m == 10 { 273 }
        else if m == 11 { 304 }
        else { 334 };
    if m > 2 && is_leap_year(y) { base + 1 } else { base }
}

/// Day number of December 31 of year `y - 1`, that is the number of days before year `y`.
pub open spec fn days_before_year(y: int) -> int {
    let p = y - 1;
    365 * p + p / 4 - p / 100 + p / 400
}

/// Whether `(y, m, d)` names a day of the calendar.
pub open spec fn is_valid_date(y: int, m: int, d: int) -> bool {
    1 <= m <= 12 && 1 <= d <= days_in_month(y, m)
}

/// Whether a year lies within the supported range.
pub open spec fn year_in_range(y: int) -> bool {
    MIN_YEAR <= y <= MAX_YEAR
}

/// Whether a day number lies within the supported range.
pub open spec fn days_in_range(n: int) -> bool {
    MIN_DAYS <= n <= MAX_DAYS
}

/// Day number of the date `(y, m, d)`.
pub open spec fn days_from_civil(y: int, m: int, d: int) -> int {
    days_before_year(y) + days_before_month(y, m) + d
}

/// Whether day number `n` is the date `(y, m, d)`.
pub open spec fn is_date_of(n: int, y: int, m: int, d: int) -> bool {
    is_valid_date(y, m, d) && days_from_civil(y, m, d) == n
}

/// Day of the year (1 for January 1) of day number `n` lying in year `y`.
pub open spec fn ordinal_of(n: int, y: int) -> int {
    n - days_before_year(y)
}

/// Weekday of day number `n`, counted from Monday (0) to Sunday (6).
/// Day 1 (0001-01-01) is a Monday.
pub open spec fn weekday_index_of(n: int) -> int {
    (n - 1) % 7
}

/// Number of ISO 8601 weeks of year `y`: 53 when the year begins on a Thursday, or on a
/// Wednesday in a leap year, and 52 otherwise.
pub open spec fn iso_weeks_in_year(y: int) -> int {
    let first = weekday_index_of(days_before_year(y) + 1);
    if first == 3 || (is_leap_year(y) && first == 2) { 53 } else { 52 }
}

/// ISO 8601 week number of day number `n` lying in year `y`: weeks begin on a Monday and
/// the first week of a year is the one holding its first Thursday, so the first days of a
/// year may lie in the last week of the year before, and its last days in week 1 of the
/// next.
pub open spec fn iso_week_of_day(n: int, y: int) -> int {
    let w = (ordinal_of(n, y) - weekday_index_of(n) + 9) / 7;
    if w < 1 {
        iso_weeks_in_year(y - 1)
    } else if w > iso_weeks_in_year(y) {
        1
    } else {
        w
    }
}

/// Index of the month `m` of year `y` counted from January of year 0.
pub open spec fn month_index(y: int, m: int) -> int {
    y * 12 + (m - 1)
}

/// The year of a month index.
pub open spec fn year_of_month_index(t: int) -> int {
    t / 12
}

/// The month (1 to 12) of a month index.
pub open spec fn month_of_month_index(t: int) -> int {
    t % 12 + 1
}

/// Consecutive integers share a quotient by `d` unless the larger is a multiple of `d`.
proof fn lemma_div_step(y: int, d: int)
    requires
        d > 0,
    ensures
        y / d - (y - 1) / d == if y % d == 0 { 1int } else { 0int },
{
    let q = y / d;
    let r = y % d;
    vstd::arithmetic::div_mod::lemma_fundamental_div_mod(y, d);
    assert(0 <= r < d) by {
        vstd::arithmetic::div_mod::lemma_mod_bound(y, d);
    }
    if r > 0 {
        assert(y - 1 == q * d + (r - 1)) by (nonlinear_arith)
            requires y == d * q + r;
        vstd::arithmetic::div_mod::lemma_fundamental_div_mod_converse(y - 1, d, q, r - 1);
    } else {
        assert(y - 1 == (q - 1) * d + (d - 1)) by (nonlinear_arith)
            requires y == d * q + r, r == 0;
        vstd::arithmetic::div_mod::lemma_fundamental_div_mod_converse(y - 1, d, q - 1, d - 1);
    }
}

/// Multiples of 400 are multiples of 100, and multiples of 100 are multiples of 4.
proof fn lemma_divisibility_chain(y: int)
    ensures
        y % 400 == 0 ==> y % 100 == 0,
        y % 100 == 0 ==> y % 4 == 0,
{
    if y % 400 == 0 {
        vstd::arithmetic::div_mod::lemma_fundamental_div_mod(y, 400);
        let q = y / 400;
        assert(y == (q * 4) * 100 + 0) by (nonlinear_arith)
            requires y == 400 * q + 0;
        vstd::arithmetic::div_mod::lemma_fundamental_div_mod_converse(y, 100, q * 4, 0);
    }
    if y % 100 == 0 {
        vstd::arithmetic::div_mod::lemma_fundamental_div_mod(y, 100);
        let q = y / 100;
        assert(y == (q * 25) * 4 + 0) by (nonlinear_arith)
            requires y == 100 * q + 0;
        vstd::arithmetic::div_mod::lemma_fundamental_div_mod_converse(y, 4, q * 25, 0);
    }
}

/// The days before year `y + 1` are those before year `y` and the days of year `y`.
pub proof fn lemma_year_step(y: int)
    ensures
        days_before_year(y + 1) == days_before_year(y) + year_length(y),
{
    lemma_div_step(y, 4);
    lemma_div_step(y, 100);
    lemma_div_step(y, 400);
    lemma_divisibility_chain(y);
}

/// A valid date's day of the year lies between 1 and the length of its year.
pub proof fn lemma_ordinal_range(y: int, m: int, d: int)
    requires
        is_valid_date(y, m, d),
    ensures
        1 <= days_before_month(y, m) + d <= year_length(y),
{
}

/// Within a year, a later month starts after every day of an earlier month.
pub proof fn lemma_month_order(y: int, m1: int, d1: int, m2: int, d2: int)
    requires
        is_valid_date(y, m1, d1),
        is_valid_date(y, m2, d2),
        m1 < m2,
    ensures
        days_before_month(y, m1) + d1 < days_before_month(y, m2) + d2,
{
}

/// Every day of an earlier year comes before the first day of a later one.
pub proof fn lemma_years_ordered(y1: int, y2: int)
    requires
        y1 < y2,
    ensures
        days_before_year(y1) + year_length(y1) <= days_before_year(y2),
    decreases y2 - y1,
{
    lemma_year_step(y1);
    if y1 + 1 < y2 {
        lemma_years_ordered(y1 + 1, y2);
        lemma_year_step(y1 + 1);
    }
}

/// The day number of a date lies within the days of its year.
pub proof fn lemma_date_in_year(n: int, y: int, m: int, d: int)
    requires
        is_date_of(n, y, m, d),
    ensures
        days_before_year(y) < n <= days_before_year(y) + year_length(y),
        ordinal_of(n, y) == days_before_month(y, m) + d,
{
    lemma_ordinal_range(y, m, d);
}

/// A day number belongs to exactly one year.
pub proof fn lemma_year_unique(n: int, y1: int, y2: int)
    requires
        days_before_year(y1) < n <= days_before_year(y1) + year_length(y1),
        days_before_year(y2) < n <= days_before_year(y2) + year_length(y2),
    ensures
        y1 == y2,
{
    if y1 < y2 {
        lemma_years_ordered(y1, y2);
    } else if y2 < y1 {
        lemma_years_ordered(y2, y1);
    }
}

/// Each day number names at most one calendar date.
pub proof fn lemma_civil_unique(n: int, y1: int, m1: int, d1: int, y2: int, m2: int, d2: int)
    requires
        is_date_of(n, y1, m1, d1),
        is_date_of(n, y2, m2, d2),
    ensures
        y1 == y2 && m1 == m2 && d1 == d2,
{
    lemma_date_in_year(n, y1, m1, d1);
    lemma_date_in_year(n, y2, m2, d2);
    lemma_year_unique(n, y1, y2);
    if m1 < m2 {
        lemma_month_order(y1, m1, d1, m2, d2);
    } else if m2 < m1 {
        lemma_month_order(y1, m2, d2, m1, d1);
    }
}

/// The supported days are exactly those of the supported years.
pub proof fn lemma_range_bounds()
    ensures
        days_before_year(MIN_YEAR as int) == MIN_DAYS - 1,
        days_before_year(MAX_YEAR + 1) == MAX_DAYS as int,
{
    assert(days_before_year(MIN_YEAR as int) == MIN_DAYS - 1);
    assert(days_before_year(MAX_YEAR + 1) == MAX_DAYS as int);
}

/// A date lies in the supported day range exactly when its year is supported.
pub proof fn lemma_date_range(n: int, y: int, m: int, d: int)
    requires
        is_date_of(n, y, m, d),
    ensures
        days_in_range(n) <==> year_in_range(y),
{
    lemma_range_bounds();
    lemma_date_in_year(n, y, m, d);
    if y < MIN_YEAR {
        lemma_years_ordered(y, MIN_YEAR as int);
    }
    if y > MIN_YEAR {
        lemma_years_ordered(MIN_YEAR as int, y);
    }
    if y > MAX_YEAR {
        lemma_years_ordered(MAX_YEAR as int, y);
        lemma_year_step(MAX_YEAR as int);
    }
    if y < MAX_YEAR {
        lemma_years_ordered(y, MAX_YEAR as int);
        lemma_year_step(MAX_YEAR as int);
    }
    if y == MAX_YEAR {
        lemma_year_step(MAX_YEAR as int);
    }
}

/// Every supported day number is the day number of some calendar date.
pub proof fn lemma_civil_exists(n: int)
    requires
        n >= MIN_DAYS,
    ensures
        exists|y: int, m: int, d: int| #[trigger] is_date_of(n, y, m, d),
    decreases n - MIN_DAYS,
{
    if n == MIN_DAYS {
        lemma_range_bounds();
        assert(is_date_of(n, MIN_YEAR as int, 1, 1));
    } else {
        lemma_civil_exists(n - 1);
        let (y, m, d) = choose|y: int, m: int, d: int| #[trigger] is_date_of(n - 1, y, m, d);
        if d < days_in_month(y, m) {
            assert(is_date_of(n, y, m, d + 1));
        } else if m < 12 {
            assert(days_before_month(y, m + 1) == days_before_month(y, m) + days_in_month(y, m));
            assert(is_date_of(n, y, m + 1, 1));
        } else {
            lemma_year_step(y);
            assert(is_date_of(n, y + 1, 1, 1));
        }
    }
}


/// Weekdays follow one another without a gap, a week being seven days, and the calendar
/// agrees with the known weekdays: January 1, 2024 and September 15, 2024 fall on a Monday
/// and a Sunday.
pub proof fn law_weekdays_follow_the_calendar()
    ensures
        forall|n: int| #[trigger] weekday_index_of(n + 1) == (weekday_index_of(n) + 1) % 7,
        forall|n: int| 0 <= #[trigger] weekday_index_of(n) < 7,
        weekday_index_of(days_from_civil(2024, 1, 1)) == 0,
        weekday_index_of(days_from_civil(2024, 9, 15)) == 6,
{
    assert(days_from_civil(2024, 1, 1) == 738886);
    assert(days_from_civil(2024, 9, 15) == 739144);
}

} // verus!
