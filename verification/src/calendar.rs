//! Calendar dates and the starts of the day, the week and the month that the
//! filtered views count from. Weekdays and date arithmetic are chrono's.

use chrono::Datelike;
use vstd::prelude::*;

verus! {

/// The first year chrono can hold.
pub const MIN_YEAR: i32 = -262143;

/// The last year chrono can hold.
pub const MAX_YEAR: i32 = 262142;

/// A date of the proleptic Gregorian calendar.
#[derive(Clone, Copy, Debug, PartialEq, Eq)]
pub struct CivilDate {
    pub year: i32,
    pub month: u32,
    pub day: u32,
}

/// Leap years of the Gregorian calendar.
pub open spec fn is_leap_year(year: int) -> bool {
    year % 4 == 0 && (year % 100 != 0 || year % 400 == 0)
}

/// The number of days of `month` (1 to 12) in `year`.
pub open spec fn days_in_month(year: int, month: int) -> int {
    if month == 2 {
        if is_leap_year(year) {
            29
        } else {
            28
        }
    } else if month == 4 || month == 6 || month == 9 || month == 11 {
        30
    } else {
        31
    }
}

/// The day exists in the calendar, in the years chrono can hold.
pub open spec fn is_valid_ymd(year: int, month: int, day: int) -> bool {
    &&& MIN_YEAR <= year <= MAX_YEAR
    &&& 1 <= month <= 12
    &&& 1 <= day <= days_in_month(year, month)
}

/// `d` is a date that exists, in the years chrono can hold.
pub open spec fn is_valid_date(d: CivilDate) -> bool {
    is_valid_ymd(d.year as int, d.month as int, d.day as int)
}

/// Whether the date exists, in the years chrono can hold.
pub fn date_exists(d: CivilDate) -> (b: bool)
    ensures
        b == is_valid_date(d),
{
    if d.year < MIN_YEAR || d.year > MAX_YEAR || d.month < 1 || d.month > 12 || d.day < 1 {
        return false;
    }
    let leap = d.year % 4 == 0 && (d.year % 100 != 0 || d.year % 400 == 0);
    let last: u32 = if d.month == 2 {
        if leap {
            29
        } else {
            28
        }
    } else if d.month == 4 || d.month == 6 || d.month == 9 || d.month == 11 {
        30
    } else {
        31
    };
    d.day <= last
}

/// The days of the years before `year`, counted from January 1 of year 1
/// (negative for years before year 1), in the proleptic Gregorian calendar.
pub open spec fn days_before_year(year: int) -> int {
    let y = year - 1;
    365 * y + y / 4 - y / 100 + y / 400
}

/// The days of the months before `month` (1 to 12) in `year`.
pub open spec fn days_before_month(year: int, month: int) -> int {
    let common: int = if month == 1 {
        0
    } else if month == 2 {
        31
    } else if month == 3 {
        59
    } else if month == 4 {
        90
    } else if month == 5 {
        120
    } else if month == 6 {
        151
    } else if month == 7 {
        181
    } else if month == 8 {
        212
    } else if month == 9 {
        243
    } else if month == 10 {
        273
    } else if month == 11 {
        304
    } else {
        334
    };
    if month > 2 && is_leap_year(year) {
        common + 1
    } else {
        common
    }
}

/// The number of the day: the days from January 1 of year 1 (day 0) to it.
/// chrono's `Datelike::num_days_from_ce` is this number plus one.
pub open spec fn day_number(year: int, month: int, day: int) -> int {
    days_before_year(year) + days_before_month(year, month) + day - 1
}

/// The number of a date.
pub open spec fn date_number(d: CivilDate) -> int {
    day_number(d.year as int, d.month as int, d.day as int)
}

/// The days from the Monday on or before the day to the day (Monday is 0,
/// Sunday 6). January 1 of year 1 is a Monday.
pub open spec fn weekday_number(year: int, month: int, day: int) -> int {
    day_number(year, month, day) % 7
}

/// The weekday of a date, counted from Monday.
pub open spec fn weekday_of(d: CivilDate) -> int {
    weekday_number(d.year as int, d.month as int, d.day as int)
}

/// The number of chrono's first date, January 1 of `MIN_YEAR`.
pub open spec fn first_day_number() -> int {
    day_number(MIN_YEAR as int, 1, 1)
}

/// Calls chrono's `NaiveDate::from_ymd_opt`, `Datelike::weekday` and
/// `Weekday::num_days_from_monday`. Trusted: the result is the weekday of the
/// date counted from Monday, that is its day number modulo 7. The date must
/// exist, so that `from_ymd_opt` gives a date.
#[verifier::external_body]
fn days_since_monday(year: i32, month: u32, day: u32) -> (n: u32)
    requires
        is_valid_ymd(year as int, month as int, day as int),
    ensures
        n == weekday_number(year as int, month as int, day as int),
{
    chrono::NaiveDate::from_ymd_opt(year, month, day).unwrap().weekday().num_days_from_monday()
}

/// Calls chrono's `NaiveDate::from_ymd_opt`, subtracts `TimeDelta::days(days)`
/// and reads back year, month and day. Trusted: the result is the date whose
/// day number is `days` less, and, being a `NaiveDate`, a date that exists.
/// The date must exist and the result must not come before chrono's first
/// date, so that no step panics.
#[verifier::external_body]
fn days_before(year: i32, month: u32, day: u32, days: u32) -> (r: (i32, u32, u32))
    requires
        is_valid_ymd(year as int, month as int, day as int),
        day_number(year as int, month as int, day as int) - days >= first_day_number(),
    ensures
        is_valid_ymd(r.0 as int, r.1 as int, r.2 as int),
        day_number(r.0 as int, r.1 as int, r.2 as int) == day_number(
            year as int,
            month as int,
            day as int,
        ) - days,
{
    let d = chrono::NaiveDate::from_ymd_opt(year, month, day).unwrap() - chrono::TimeDelta::days(
        days as i64,
    );
    (d.year(), d.month(), d.day())
}

proof fn lemma_floor_div_bounds(x: int, k: int)
    requires
        k > 0,
    ensures
        k * (x / k) <= x < k * (x / k) + k,
{
    vstd::arithmetic::div_mod::lemma_fundamental_div_mod(x, k);
}

/// A later year starts at least 300 days later.
proof fn lemma_later_year_starts_later(a: int, b: int)
    requires
        a > b,
    ensures
        days_before_year(a) >= days_before_year(b) + 300,
{
    let x = a - 1;
    let y = b - 1;
    lemma_floor_div_bounds(x, 4);
    lemma_floor_div_bounds(y, 4);
    lemma_floor_div_bounds(x, 100);
    lemma_floor_div_bounds(y, 100);
    lemma_floor_div_bounds(x, 400);
    lemma_floor_div_bounds(y, 400);
    let (x4, y4, x100, y100, x400, y400) = (x / 4, y / 4, x / 100, y / 100, x / 400, y / 400);
    assert(x4 - y4 >= x100 - y100 - 1);
    assert(x400 - y400 >= -1);
}

/// The year after `year` starts a year's length later.
proof fn lemma_year_length(year: int)
    ensures
        days_before_year(year + 1) == days_before_year(year) + 365 + (if is_leap_year(year) {
            1int
        } else {
            0int
        }),
{
    let y = year - 1;
    lemma_floor_div_bounds(y, 4);
    lemma_floor_div_bounds(year, 4);
    lemma_floor_div_bounds(y, 100);
    lemma_floor_div_bounds(year, 100);
    lemma_floor_div_bounds(y, 400);
    lemma_floor_div_bounds(year, 400);
    vstd::arithmetic::div_mod::lemma_fundamental_div_mod(year, 4);
    vstd::arithmetic::div_mod::lemma_fundamental_div_mod(year, 100);
    vstd::arithmetic::div_mod::lemma_fundamental_div_mod(year, 400);
}

/// Within a year, day numbers run from the year's start to before the next year's start.
proof fn lemma_day_number_within_year(year: int, month: int, day: int)
    requires
        1 <= month <= 12,
        1 <= day <= days_in_month(year, month),
    ensures
        days_before_year(year) <= day_number(year, month, day) < days_before_year(year + 1),
{
    lemma_year_length(year);
}

/// Day numbers tell dates apart: two dates that exist and have the same
/// number are the same date.
pub proof fn law_day_number_is_one_to_one(a: CivilDate, b: CivilDate)
    requires
        is_valid_date(a),
        is_valid_date(b),
        date_number(a) == date_number(b),
    ensures
        a == b,
{
    lemma_day_number_within_year(a.year as int, a.month as int, a.day as int);
    lemma_day_number_within_year(b.year as int, b.month as int, b.day as int);
    if a.year < b.year {
        if b.year > a.year + 1 {
            lemma_later_year_starts_later(b.year as int, a.year + 1);
        }
        assert(false);
    } else if a.year > b.year {
        if a.year > b.year + 1 {
            lemma_later_year_starts_later(a.year as int, b.year + 1);
        }
        assert(false);
    }
}

/// Day numbers count days one by one: January 1 of year 1 is day 0, a
/// Monday, and each date that exists is one day, and one weekday, after the
/// date before it, within a month, across a month's end and across a year's end.
pub proof fn law_days_follow_one_another(year: int, month: int, day: int)
    requires
        is_valid_ymd(year, month, day),
    ensures
        day_number(1, 1, 1) == 0,
        weekday_number(1, 1, 1) == 0,
        day < days_in_month(year, month) ==> {
            &&& day_number(year, month, day + 1) == day_number(year, month, day) + 1
            &&& weekday_number(year, month, day + 1) == (weekday_number(year, month, day) + 1) % 7
        },
        day == days_in_month(year, month) && month < 12 ==> {
            &&& day_number(year, month + 1, 1) == day_number(year, month, day) + 1
            &&& weekday_number(year, month + 1, 1) == (weekday_number(year, month, day) + 1) % 7
        },
        day == days_in_month(year, month) && month == 12 ==> {
            &&& day_number(year + 1, 1, 1) == day_number(year, month, day) + 1
            &&& weekday_number(year + 1, 1, 1) == (weekday_number(year, month, day) + 1) % 7
        },
{
    lemma_year_length(year);
    let n = day_number(year, month, day);
    assert((n + 1) % 7 == (n % 7 + 1) % 7) by {
        vstd::arithmetic::div_mod::lemma_add_mod_noop(n, 1, 7);
    }
}

/// A week start computed from `today` lies on or after chrono's first date:
/// today is not in the first week of chrono's first year.
pub open spec fn is_past_first_week(today: CivilDate) -> bool {
    today.year > MIN_YEAR || today.month > 1 || today.day > 7
}

proof fn lemma_week_start_in_range(today: CivilDate)
    requires
        is_valid_date(today),
        is_past_first_week(today),
    ensures
        date_number(today) - 6 >= first_day_number(),
{
    if today.year > MIN_YEAR {
        lemma_later_year_starts_later(today.year as int, MIN_YEAR as int);
    }
}

/// Whether today is past the first week of chrono's first year, so that the
/// start of its week can be computed.
pub fn past_first_week(today: CivilDate) -> (b: bool)
    ensures
        b == is_past_first_week(today),
{
    today.year > MIN_YEAR || today.month > 1 || today.day > 7
}

/// The date the day-old view counts from: today itself.
pub fn start_of_today(today: CivilDate) -> (start: CivilDate)
    ensures
        start == today,
{
    today
}

/// The date the week-old view counts from: the Monday of today's week, on
/// or at most six days before today.
pub fn start_of_week(today: CivilDate) -> (start: CivilDate)
    requires
        is_valid_date(today),
        is_past_first_week(today),
    ensures
        is_valid_date(start),
        date_number(start) == date_number(today) - weekday_of(today),
        weekday_of(start) == 0,
        date_number(today) - 6 <= date_number(start) <= date_number(today),
{
    proof {
        lemma_week_start_in_range(today);
    }
    let back = days_since_monday(today.year, today.month, today.day);
    let (year, month, day) = days_before(today.year, today.month, today.day, back);
    let start = CivilDate { year, month, day };
    proof {
        let n = date_number(today);
        assert((n - n % 7) % 7 == 0) by {
            vstd::arithmetic::div_mod::lemma_fundamental_div_mod(n, 7);
            vstd::arithmetic::div_mod::lemma_mod_multiples_basic(n / 7, 7);
        }
    }
    start
}

/// The date the month-old view counts from: the first of today's month.
pub fn start_of_month(today: CivilDate) -> (start: CivilDate)
    ensures
        start == (CivilDate { year: today.year, month: today.month, day: 1 }),
        is_valid_date(today) ==> is_valid_date(start),
        date_number(start) == date_number(today) - (today.day - 1),
{
    CivilDate { year: today.year, month: today.month, day: 1 }
}

} // verus!
