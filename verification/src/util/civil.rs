//! Instants at one-second resolution, as a count of seconds from the Unix
//! epoch and as a calendar date with a time of day, both in UTC.

use crate::util::calendar::{
    civil_from_days, day_number, day_of_month, days_from_civil, is_date, lemma_date_of_day,
    lemma_day_of_date, month_length, month_of_day, weekday_from_days, weekday_of_day, year_of_day,
    DAYS, LAST_YEAR,
};
use vstd::prelude::*;

verus! {

/// The day number of 1 January 1970, the day of the Unix epoch.
pub const EPOCH_DAY: u32 = 719528;

/// The number of seconds in a day.
pub const DAY_SECONDS: u32 = 86400;

/// The first instant of year 0, in seconds from the Unix epoch.
pub const FIRST_INSTANT: i64 = -62167219200;

/// The last instant of year 9999, in seconds from the Unix epoch.
pub const LAST_INSTANT: i64 = 253402300799;

/// A calendar date with a time of day, in UTC. Any numbers can stand in the
/// fields: `is_valid` says whether they name an instant.
#[derive(Clone, Copy, PartialEq, Eq, Structural, Debug)]
pub struct DateTime {
    /// The year, 0 to 9999.
    pub year: u16,
    /// The month, 1 for January to 12 for December.
    pub month: u8,
    /// The day of the month, from 1.
    pub day: u8,
    /// The hour, 0 to 23.
    pub hour: u8,
    /// The minute, 0 to 59.
    pub minute: u8,
    /// The second, 0 to 59: a leap second has no place here.
    pub second: u8,
}

impl DateTime {
    /// Whether the fields name an instant: a date of the calendar, and a time
    /// of day within it.
    pub open spec fn is_valid(self) -> bool {
        &&& is_date(self.year as int, self.month as int, self.day as int)
        &&& self.hour < 24
        &&& self.minute < 60
        &&& self.second < 60
    }

    /// The day number of the date.
    pub open spec fn day_number(self) -> int {
        day_number(self.year as int, self.month as int, self.day as int)
    }

    /// The seconds of the day that lie before the time of day.
    pub open spec fn second_of_day(self) -> int {
        self.hour * 3600 + self.minute * 60 + self.second
    }

    /// The instant that the fields name, in seconds from the Unix epoch.
    pub open spec fn instant(self) -> int {
        (self.day_number() - EPOCH_DAY) * DAY_SECONDS + self.second_of_day()
    }

    /// The day of the week of the date: 0 for Sunday, up to 6 for Saturday.
    pub open spec fn weekday(self) -> int {
        weekday_of_day(self.day_number())
    }

    /// The date and time of day of an instant, given in seconds from the Unix
    /// epoch.
    pub open spec fn of_instant(t: int) -> DateTime {
        let n = day_of_instant(t);
        let s = (t - FIRST_INSTANT) % (DAY_SECONDS as int);
        DateTime {
            year: year_of_day(n) as u16,
            month: month_of_day(n) as u8,
            day: day_of_month(n) as u8,
            hour: (s / 3600) as u8,
            minute: (s % 3600 / 60) as u8,
            second: (s % 60) as u8,
        }
    }

    /// Whether the fields name an instant.
    pub fn validate(&self) -> (b: bool)
        ensures
            b == self.is_valid(),
    {
        self.year <= LAST_YEAR && 1 <= self.month && self.month <= 12 && 1 <= self.day && self.day
            <= month_length(self.year, self.month) && self.hour < 24 && self.minute < 60
            && self.second < 60
    }

    /// The instant that the fields name, in seconds from the Unix epoch.
    pub(crate) fn to_instant(&self) -> (t: i64)
        requires
            self.is_valid(),
        ensures
            t == self.instant(),
            FIRST_INSTANT <= t <= LAST_INSTANT,
    {
        let n: i64 = days_from_civil(self.year, self.month, self.day) as i64;
        let s: i64 = self.hour as i64 * 3600 + self.minute as i64 * 60 + self.second as i64;
        proof {
            lemma_instant_of(*self);
        }
        (n - EPOCH_DAY as i64) * DAY_SECONDS as i64 + s
    }

    /// The date and time of day of an instant of the years 0 to 9999.
    pub(crate) fn from_instant(t: i64) -> (r: DateTime)
        requires
            FIRST_INSTANT <= t <= LAST_INSTANT,
        ensures
            r == DateTime::of_instant(t as int),
            r.is_valid(),
            r.instant() == t,
    {
        proof {
            lemma_of_instant(t as int);
        }
        let shifted: u64 = (t - FIRST_INSTANT) as u64;
        let n: u32 = (shifted / DAY_SECONDS as u64) as u32;
        let s: u32 = (shifted % DAY_SECONDS as u64) as u32;
        let (year, month, day) = civil_from_days(n);
        DateTime {
            year,
            month,
            day,
            hour: (s / 3600) as u8,
            minute: (s % 3600 / 60) as u8,
            second: (s % 60) as u8,
        }
    }

    /// The day of the week of the date: 0 for Sunday, up to 6 for Saturday.
    pub(crate) fn weekday_number(&self) -> (w: u8)
        requires
            self.is_valid(),
        ensures
            w == self.weekday(),
            w < 7,
    {
        weekday_from_days(days_from_civil(self.year, self.month, self.day))
    }
}

/// The day number of the day that an instant lies in.
pub open spec fn day_of_instant(t: int) -> int {
    (t - FIRST_INSTANT) / (DAY_SECONDS as int)
}

/// The fields of an instant of the years 0 to 9999 are valid, and they name
/// that instant.
pub proof fn lemma_of_instant(t: int)
    requires
        FIRST_INSTANT <= t <= LAST_INSTANT,
    ensures
        DateTime::of_instant(t).is_valid(),
        DateTime::of_instant(t).instant() == t,
        DateTime::of_instant(t).day_number() == day_of_instant(t),
        0 <= day_of_instant(t) < DAYS,
{
    let n = day_of_instant(t);
    lemma_date_of_day(n);
}

/// Valid fields name an instant of the years 0 to 9999, and the fields of
/// that instant are the fields themselves: no two dates name one instant.
pub proof fn lemma_instant_of(c: DateTime)
    requires
        c.is_valid(),
    ensures
        FIRST_INSTANT <= c.instant() <= LAST_INSTANT,
        DateTime::of_instant(c.instant()) == c,
        day_of_instant(c.instant()) == c.day_number(),
{
    lemma_day_of_date(c.year as int, c.month as int, c.day as int);
    let s = c.second_of_day();
    assert(0 <= s < DAY_SECONDS);
    assert(day_of_instant(c.instant()) == c.day_number());
    assert(s % 60 == c.second);
}

} // verus!
