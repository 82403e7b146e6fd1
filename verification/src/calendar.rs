//! The proleptic Gregorian calendar over the years 0000 to 9999, counted in
//! days from 1970-01-01.

use vstd::prelude::*;

verus! {

/// Days from 0000-01-01 to 1970-01-01.
pub const EPOCH_SHIFT: i64 = 719528;

/// Day number of 0000-01-01.
pub const MIN_DAY: i64 = -719528;

/// Day number of 9999-12-31.
pub const MAX_DAY: i64 = 2932896;

pub open spec fn is_leap_year(year: int) -> bool {
    year % 4 == 0 && (year % 100 != 0 || year % 400 == 0)
}

pub open spec fn year_length(year: int) -> int {
    if is_leap_year(year) {
        366
    } else {
        365
    }
}

pub open spec fn days_in_month(year: int, month: int) -> int {
    if month == 2 {
        if is_leap_year(year) {
            29
        } else {
            28
        }
    } else if month == 4 || month == 6 || month == 9 || month == 11 {
        30
    } else {
        31
    }
}

pub open spec fn valid_date(year: int, month: int, day: int) -> bool {
    &&& 0 <= year <= 9999
    &&& 1 <= month <= 12
    &&& 1 <= day <= days_in_month(year, month)
}

/// Days in the years `0 .. year`.
pub open spec fn days_before_year(year: int) -> int
    decreases year,
{
    if year <= 0 {
        0
    } else {
        days_before_year(year - 1) + year_length(year - 1)
    }
}

/// Days in the months `1 .. month` of `year`.
pub open spec fn days_before_month(year: int, month: int) -> int
    decreases month,
{
    if month <= 1 {
        0
    } else {
        days_before_month(year, month - 1) + days_in_month(year, month - 1)
    }
}

/// Days from 1970-01-01 to the given date; negative before it.
pub open spec fn day_number(year: int, month: int, day: int) -> int {
    days_before_year(year) + days_before_month(year, month) + (day - 1) - days_before_year(1970)
}

/// Day of the week of a day number: 0 is Monday, 6 is Sunday.
pub open spec fn weekday_of(days: int) -> int {
    (days + 3) % 7
}

pub open spec fn days_before_year_closed(year: int) -> int {
    365 * year + (year + 3) / 4 - (year + 99) / 100 + (year + 399) / 400
}

pub proof fn lemma_days_before_year(year: int)
    requires
        0 <= year,
    ensures
        days_before_year(year) == days_before_year_closed(year),
    decreases year,
{
    if year > 0 {
        lemma_days_before_year(year - 1);
    }
}

pub proof fn lemma_epoch_shift()
    ensures
        days_before_year(1970) == 719528,
        days_before_year(10000) == 3652425,
{
    lemma_days_before_year(1970);
    lemma_days_before_year(10000);
}

pub open spec fn month_offset(month: int) -> int {
    if month <= 1 {
        0
    } else if month == 2 {
        31
    } else if month == 3 {
        59
    } else if month == 4 {
        90
    } else if month == 5 {
        120
    } else if month == 6 {
        151
    } else if month == 7 {
        181
    } else if month == 8 {
        212
    } else if month == 9 {
        243
    } else if month == 10 {
        273
    } else if month == 11 {
        304
    } else if month == 12 {
        334
    } else {
        365
    }
}

pub proof fn lemma_days_before_month(year: int, month: int)
    requires
        1 <= month <= 13,
    ensures
        days_before_month(year, month) == month_offset(month) + if month > 2 && is_leap_year(
            year,
        ) {
            1int
        } else {
            0int
        },
{
    reveal_with_fuel(days_before_month, 14);
}

pub proof fn lemma_days_before_year_monotone(a: int, b: int)
    requires
        0 <= a <= b,
    ensures
        days_before_year(a) <= days_before_year(b),
    decreases b - a,
{
    if a < b {
        lemma_days_before_year_monotone(a, b - 1);
    }
}

/// Within one year the days run from 0 to the year's length, in the order of the dates.
pub proof fn lemma_day_in_year(year: int, month: int, day: int)
    requires
        1 <= month <= 12,
        1 <= day <= days_in_month(year, month),
    ensures
        0 <= days_before_month(year, month) + (day - 1) < days_before_month(year, month + 1),
        days_before_month(year, month + 1) <= year_length(year),
        days_before_month(year, 13) == year_length(year),
{
    lemma_days_before_month(year, month);
    lemma_days_before_month(year, month + 1);
    lemma_days_before_month(year, 13);
}

pub proof fn lemma_days_before_month_monotone(year: int, a: int, b: int)
    requires
        1 <= a <= b <= 13,
    ensures
        days_before_month(year, a) <= days_before_month(year, b),
{
    lemma_days_before_month(year, a);
    lemma_days_before_month(year, b);
}

/// Two dates of the calendar with one day number are one date.
pub proof fn lemma_day_number_injective(y1: int, m1: int, d1: int, y2: int, m2: int, d2: int)
    requires
        valid_date(y1, m1, d1),
        valid_date(y2, m2, d2),
        day_number(y1, m1, d1) == day_number(y2, m2, d2),
    ensures
        y1 == y2,
        m1 == m2,
        d1 == d2,
{
    lemma_day_in_year(y1, m1, d1);
    lemma_day_in_year(y2, m2, d2);
    if y1 < y2 {
        lemma_days_before_year_monotone(y1 + 1, y2);
        assert(days_before_year(y1 + 1) == days_before_year(y1) + year_length(y1));
    } else if y2 < y1 {
        lemma_days_before_year_monotone(y2 + 1, y1);
        assert(days_before_year(y2 + 1) == days_before_year(y2) + year_length(y2));
    } else if m1 < m2 {
        lemma_days_before_month_monotone(y1, m1 + 1, m2);
    } else if m2 < m1 {
        lemma_days_before_month_monotone(y1, m2 + 1, m1);
    }
}

/// The date after a date of the calendar.
pub open spec fn next_date(date: (int, int, int)) -> (int, int, int) {
    if date.2 < days_in_month(date.0, date.1) {
        (date.0, date.1, date.2 + 1)
    } else if date.1 < 12 {
        (date.0, date.1 + 1, 1)
    } else {
        (date.0 + 1, 1, 1)
    }
}

pub open spec fn is_date_of_day(date: (int, int, int), days: int) -> bool {
    valid_date(date.0, date.1, date.2) && day_number(date.0, date.1, date.2) == days
}

/// The date of the calendar that has the given day number.
pub open spec fn date_of_day(days: int) -> (int, int, int) {
    choose|date: (int, int, int)| is_date_of_day(date, days)
}

/// Every day number from 0000-01-01 to 9999-12-31 is that of a date of the calendar.
pub proof fn lemma_date_of_day(days: int)
    requires
        MIN_DAY <= days <= MAX_DAY,
    ensures
        is_date_of_day(date_of_day(days), days),
    decreases days - MIN_DAY,
{
    lemma_epoch_shift();
    if days == MIN_DAY {
        lemma_days_before_month(0, 1);
        assert(is_date_of_day((0int, 1int, 1int), days));
    } else {
        lemma_date_of_day(days - 1);
        let prev = date_of_day(days - 1);
        let next = next_date(prev);
        lemma_day_in_year(prev.0, prev.1, prev.2);
        lemma_days_before_month(prev.0, prev.1);
        lemma_days_before_month(prev.0, prev.1 + 1);
        lemma_days_before_month(next.0, 1);
        assert(days_before_year(prev.0 + 1) == days_before_year(prev.0) + year_length(prev.0));
        if prev.0 == 9999 && prev.1 == 12 && prev.2 == 31 {
            lemma_days_before_year(9999);
            lemma_days_before_month(9999, 12);
        }
        assert(is_date_of_day(next, days));
    }
}

/// A date of the calendar is the date of its day number.
pub proof fn lemma_date_of_day_unique(year: int, month: int, day: int)
    requires
        valid_date(year, month, day),
    ensures
        date_of_day(day_number(year, month, day)) == (year, month, day),
        MIN_DAY <= day_number(year, month, day) <= MAX_DAY,
{
    let days = day_number(year, month, day);
    assert(is_date_of_day((year, month, day), days));
    let found = date_of_day(days);
    lemma_day_number_injective(year, month, day, found.0, found.1, found.2);
    lemma_epoch_shift();
    lemma_day_in_year(year, month, day);
    lemma_days_before_year_monotone(0, year);
    lemma_days_before_year_monotone(year + 1, 10000);
    assert(days_before_year(year + 1) == days_before_year(year) + year_length(year));
}

pub fn is_leap(year: u32) -> (r: bool)
    ensures
        r == is_leap_year(year as int),
{
    year % 4 == 0 && (year % 100 != 0 || year % 400 == 0)
}

pub fn month_length(year: u32, month: u32) -> (r: u32)
    ensures
        r == days_in_month(year as int, month as int),
{
    if month == 2 {
        if is_leap(year) {
            29
        } else {
            28
        }
    } else if month == 4 || month == 6 || month == 9 || month == 11 {
        30
    } else {
        31
    }
}

pub fn is_valid_date(year: u32, month: u32, day: u32) -> (r: bool)
    ensures
        r == valid_date(year as int, month as int, day as int),
{
    year <= 9999 && 1 <= month && month <= 12 && 1 <= day && day <= month_length(year, month)
}

fn year_start(year: i64) -> (r: i64)
    requires
        0 <= year <= 10000,
    ensures
        r == days_before_year(year as int),
        0 <= r <= 3652425,
{
    proof {
        lemma_days_before_year(year as int);
    }
    365 * year + (year + 3) / 4 - (year + 99) / 100 + (year + 399) / 400
}

fn month_start(year: u32, month: u32) -> (r: i64)
    requires
        1 <= month <= 13,
    ensures
        r == days_before_month(year as int, month as int),
        0 <= r <= 366,
{
    proof {
        lemma_days_before_month(year as int, month as int);
    }
    let base: i64 = if month == 1 {
        0
    } else if month == 2 {
        31
    } else if month == 3 {
        59
    } else if month == 4 {
        90
    } else if month == 5 {
        120
    } else if month == 6 {
        151
    } else if month == 7 {
        181
    } else if month == 8 {
        212
    } else if month == 9 {
        243
    } else if month == 10 {
        273
    } else if month == 11 {
        304
    } else if month == 12 {
        334
    } else {
        365
    };
    if month > 2 && is_leap(year) {
        base + 1
    } else {
        base
    }
}

/// The day number of a date, or `None` where the date is not one of the calendar.
pub fn days_from_civil(year: u32, month: u32, day: u32) -> (r: Option<i64>)
    ensures
        r.is_some() == valid_date(year as int, month as int, day as int),
        r matches Some(n) ==> n == day_number(year as int, month as int, day as int) && MIN_DAY
            <= n <= MAX_DAY,
{
    if !is_valid_date(year, month, day) {
        return None;
    }
    proof {
        lemma_epoch_shift();
        lemma_days_before_year(year as int);
        lemma_days_before_month(year as int, month as int);
    }
    let n: i64 = year_start(year as i64) + month_start(year, month) + (day as i64 - 1)
        - EPOCH_SHIFT;
    Some(n)
}

/// The date of a day number, or `None` where it lies outside the years 0000 to 9999.
pub fn civil_from_days(days: i64) -> (r: Option<(u32, u32, u32)>)
    ensures
        r.is_some() == (MIN_DAY <= days <= MAX_DAY),
        r matches Some(date) ==> (date.0 as int, date.1 as int, date.2 as int) == date_of_day(
            days as int,
        ) && is_date_of_day(date_of_day(days as int), days as int),
{
    if days < MIN_DAY || days > MAX_DAY {
        return None;
    }
    proof {
        lemma_epoch_shift();
    }
    let n: i64 = days + EPOCH_SHIFT;
    let estimate: i64 = (n * 400) / 146097;
    let mut year: i64 = if estimate > 0 {
        estimate - 1
    } else {
        0
    };
    proof {
        lemma_days_before_year(year as int);
    }
    while year < 9999 && year_start(year + 1) <= n
        invariant
            0 <= year <= 9999,
            0 <= n < 3652425,
            days_before_year(year as int) <= n,
        decreases 9999 - year,
    {
        year = year + 1;
    }
    proof {
        lemma_days_before_year(year as int + 1);
        lemma_days_before_year(10000);
    }
    assert(n < days_before_year(year as int + 1));
    let in_year: i64 = n - year_start(year);
    let y: u32 = year as u32;
    let mut month: u32 = 1;
    while month < 12 && month_start(y, month + 1) <= in_year
        invariant
            1 <= month <= 12,
            0 <= in_year < year_length(y as int),
            days_before_month(y as int, month as int) <= in_year,
        decreases 12 - month,
    {
        month = month + 1;
    }
    proof {
        lemma_days_before_month(y as int, month as int);
        lemma_days_before_month(y as int, month as int + 1);
    }
    let day: i64 = in_year - month_start(y, month) + 1;
    proof {
        lemma_date_of_day_unique(y as int, month as int, day as int);
    }
    Some((y, month, day as u32))
}

/// Day of the week of a day number of the calendar: 0 is Monday, 6 is Sunday.
pub fn weekday_from_days(days: i64) -> (r: Option<u32>)
    ensures
        r.is_some() == (MIN_DAY <= days <= MAX_DAY),
        r matches Some(w) ==> w == weekday_of(days as int) && w < 7,
{
    if days < MIN_DAY || days > MAX_DAY {
        None
    } else {
        Some(((days + EPOCH_SHIFT + 5) % 7) as u32)
    }
}

} // verus!
