//! The Gregorian calendar, extended backwards, over the years 0 to 9999:
//! the years that four digits can write.
//!
//! Days are counted from 1 January of year 0, which is day 0.

use vstd::prelude::*;

verus! {

/// The number of days in the years 0 to 9999.
pub const DAYS: u32 = 3652425;

/// The last year that four digits can write.
pub const LAST_YEAR: u16 = 9999;

/// Whether year `y` has a 29 February.
pub open spec fn is_leap_year(y: int) -> bool {
    y % 4 == 0 && (y % 100 != 0 || y % 400 == 0)
}

/// The number of days in year `y`.
pub open spec fn days_in_year(y: int) -> int {
    if is_leap_year(y) {
        366
    } else {
        365
    }
}

/// The number of days in month `m` (January is 1) of year `y`.
pub open spec fn days_in_month(y: int, m: int) -> int {
    if m == 2 {
        if is_leap_year(y) {
            29
        } else {
            28
        }
    } else if m == 4 || m == 6 || m == 9 || m == 11 {
        30
    } else {
        31
    }
}

/// The number of days in the years 0 to `y - 1`: 365 for each, and one more
/// for each leap year among them.
pub open spec fn days_before_year(y: int) -> int {
    365 * y + (y + 3) / 4 - (y + 99) / 100 + (y + 399) / 400
}

/// The number of days of year `y` that lie before its month `m`.
pub open spec fn days_before_month(y: int, m: int) -> int {
    let whole: int = if m <= 1 {
        0
    } else if m == 2 {
        31
    } else if m == 3 {
        59
    } else if m == 4 {
        90
    } else if m == 5 {
        120
    } else if m == 6 {
        151
    } else if m == 7 {
        181
    } else if m == 8 {
        212
    } else if m == 9 {
        243
    } else if m == 10 {
        273
    } else if m == 11 {
        304
    } else if m == 12 {
        334
    } else {
        365
    };
    if is_leap_year(y) && m > 2 {
        whole + 1
    } else {
        whole
    }
}

/// Whether day `d` of month `m` of year `y` is a date of the calendar.
pub open spec fn is_date(y: int, m: int, d: int) -> bool {
    &&& 0 <= y <= LAST_YEAR
    &&& 1 <= m <= 12
    &&& 1 <= d <= days_in_month(y, m)
}

/// The day number of a date: the days that lie before it.
pub open spec fn day_number(y: int, m: int, d: int) -> int {
    days_before_year(y) + days_before_month(y, m) + d - 1
}

/// The year that day `n` lies in.
pub open spec fn year_of_day(n: int) -> int {
    let estimate = (n * 400) / 146097;
    if n < days_before_year(estimate) {
        estimate - 1
    } else if n >= days_before_year(estimate + 1) {
        estimate + 1
    } else {
        estimate
    }
}

/// The month of year `y` that the day lies in which `k` days of that year
/// come before.
pub open spec fn month_of_year_day(y: int, k: int) -> int {
    if k < days_before_month(y, 2) {
        1
    } else if k < days_before_month(y, 3) {
        2
    } else if k < days_before_month(y, 4) {
        3
    } else if k < days_before_month(y, 5) {
        4
    } else if k < days_before_month(y, 6) {
        5
    } else if k < days_before_month(y, 7) {
        6
    } else if k < days_before_month(y, 8) {
        7
    } else if k < days_before_month(y, 9) {
        8
    } else if k < days_before_month(y, 10) {
        9
    } else if k < days_before_month(y, 11) {
        10
    } else if k < days_before_month(y, 12) {
        11
    } else {
        12
    }
}

/// The month that day `n` lies in.
pub open spec fn month_of_day(n: int) -> int {
    let y = year_of_day(n);
    month_of_year_day(y, n - days_before_year(y))
}

/// The day of the month that day `n` is.
pub open spec fn day_of_month(n: int) -> int {
    let y = year_of_day(n);
    let k = n - days_before_year(y);
    k - days_before_month(y, month_of_year_day(y, k)) + 1
}

/// The day of the week that day `n` is: 0 for Sunday, up to 6 for Saturday.
pub open spec fn weekday_of_day(n: int) -> int {
    (n + 6) % 7
}

/// Year 0 starts at day 0, each year starts where the year before ends, and
/// so do the months within a year: January starts the year, and December
/// ends it.
#[verifier::rlimit(40)]
pub proof fn lemma_starts(y: int, m: int)
    requires
        0 <= y,
        1 <= m <= 12,
    ensures
        days_before_year(0) == 0,
        days_before_year(y + 1) == days_before_year(y) + days_in_year(y),
        days_before_month(y, 1) == 0,
        days_before_month(y, m + 1) == days_before_month(y, m) + days_in_month(y, m),
        days_before_month(y, 13) == days_in_year(y),
{
}

/// The date of day `n` is a date of the calendar, and `n` is its day number.
pub proof fn lemma_date_of_day(n: int)
    requires
        0 <= n < DAYS,
    ensures
        is_date(year_of_day(n), month_of_day(n), day_of_month(n)),
        day_number(year_of_day(n), month_of_day(n), day_of_month(n)) == n,
{
    lemma_starts(year_of_day(n), 1);
}

/// The day number of a date lies in the calendar, and the date of that day is
/// the date itself: no two dates share a day number.
#[verifier::rlimit(40)]
pub proof fn lemma_day_of_date(y: int, m: int, d: int)
    requires
        is_date(y, m, d),
    ensures
        0 <= day_number(y, m, d) < DAYS,
        year_of_day(day_number(y, m, d)) == y,
        month_of_day(day_number(y, m, d)) == m,
        day_of_month(day_number(y, m, d)) == d,
{
    lemma_starts(y, m);
}

/// Whether year `y` has a 29 February.
pub fn leap_year(y: u16) -> (b: bool)
    ensures
        b == is_leap_year(y as int),
{
    y % 4 == 0 && (y % 100 != 0 || y % 400 == 0)
}

/// The number of days in the years before `y`.
pub fn year_start(y: u16) -> (n: u32)
    ensures
        n == days_before_year(y as int),
{
    let y: u32 = y as u32;
    365 * y + (y + 3) / 4 - (y + 99) / 100 + (y + 399) / 400
}

/// The number of days of year `y` before its month `m`; with `m` 13, the
/// number of days in the year.
pub fn month_start(y: u16, m: u8) -> (n: u16)
    ensures
        n == days_before_month(y as int, m as int),
{
    let leap: u16 = if m > 2 && leap_year(y) {
        1
    } else {
        0
    };
    let base: u16 = if m <= 1 {
        0
    } else if m == 2 {
        31
    } else if m == 3 {
        59
    } else if m == 4 {
        90
    } else if m == 5 {
        120
    } else if m == 6 {
        151
    } else if m == 7 {
        181
    } else if m == 8 {
        212
    } else if m == 9 {
        243
    } else if m == 10 {
        273
    } else if m == 11 {
        304
    } else if m == 12 {
        334
    } else {
        365
    };
    leap + base
}

/// The number of days in month `m` of year `y`.
pub fn month_length(y: u16, m: u8) -> (n: u8)
    ensures
        n == days_in_month(y as int, m as int),
{
    if m == 2 {
        if leap_year(y) {
            29
        } else {
            28
        }
    } else if m == 4 || m == 6 || m == 9 || m == 11 {
        30
    } else {
        31
    }
}

/// The day number of a date of the calendar.
pub(crate) fn days_from_civil(y: u16, m: u8, d: u8) -> (n: u32)
    requires
        is_date(y as int, m as int, d as int),
    ensures
        n == day_number(y as int, m as int, d as int),
        n < DAYS,
{
    year_start(y) + month_start(y, m) as u32 + (d as u32 - 1)
}

/// The date of day `n`: its year, its month and its day of the month.
#[verifier::rlimit(40)]
pub(crate) fn civil_from_days(n: u32) -> (date: (u16, u8, u8))
    requires
        n < DAYS,
    ensures
        date.0 == year_of_day(n as int),
        date.1 == month_of_day(n as int),
        date.2 == day_of_month(n as int),
        is_date(date.0 as int, date.1 as int, date.2 as int),
{
    proof {
        lemma_date_of_day(n as int);
    }
    let estimate: u16 = ((n as u64 * 400) / 146097) as u16;
    let y: u16 = if n < year_start(estimate) {
        (estimate - 1) as u16
    } else if n >= year_start((estimate + 1) as u16) {
        (estimate + 1) as u16
    } else {
        estimate
    };
    let k: u16 = (n - year_start(y)) as u16;
    let mut m: u8 = 1;
    while m < 12 && k >= month_start(y, m + 1)
        invariant
            1 <= m <= 12,
            k >= days_before_month(y as int, m as int),
            forall|j: int| 1 < j <= m ==> k >= days_before_month(y as int, j),
        decreases 12 - m,
    {
        m = m + 1;
    }
    let d: u8 = (k - month_start(y, m) + 1) as u8;
    (y, m, d)
}

/// The day of the week of day `n`: 0 for Sunday, up to 6 for Saturday.
pub fn weekday_from_days(n: u32) -> (w: u8)
    ensures
        w == weekday_of_day(n as int),
        w < 7,
{
    ((n as u64 + 6) % 7) as u8
}

} // verus!
