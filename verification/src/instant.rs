//! Points in time with millisecond resolution, and their calendar fields.

use crate::calendar::{
    civil_from_days, date_of_day, day_number, days_from_civil, lemma_date_of_day,
    lemma_date_of_day_unique, valid_date, weekday_from_days, weekday_of, MAX_DAY, MIN_DAY,
};
use vstd::prelude::*;

verus! {

pub const MILLIS_PER_DAY: i64 = 86_400_000;

/// 0000-01-01T00:00:00.000Z in milliseconds from the epoch.
pub const MIN_MILLIS: i64 = -62_167_219_200_000;

/// 9999-12-31T23:59:59.999Z in milliseconds from the epoch.
pub const MAX_MILLIS: i64 = 253_402_300_799_999;

/// The fields of a calendar date-time as they stand in a text: a wall-clock
/// reading, the offset of that reading from UTC, and the day of the week where
/// the text names one.
#[derive(Clone, Copy, Debug)]
pub struct Fields {
    pub year: u32,
    pub month: u32,
    pub day: u32,
    pub hour: u32,
    pub minute: u32,
    pub second: u32,
    pub milli: u32,
    /// Minutes that the wall-clock reading is ahead of UTC.
    pub offset_minutes: i32,
    /// 0 is Monday, 6 is Sunday.
    pub weekday: Option<u32>,
}

/// Midnight of 1970-01-01 in UTC, with no day of the week named.
pub open spec fn blank_fields() -> Fields {
    Fields {
        year: 1970,
        month: 1,
        day: 1,
        hour: 0,
        minute: 0,
        second: 0,
        milli: 0,
        offset_minutes: 0,
        weekday: None,
    }
}

impl Fields {
    pub open spec fn day_number(self) -> int {
        day_number(self.year as int, self.month as int, self.day as int)
    }

    /// The fields name a date of the calendar, a time of day and an offset of
    /// less than a day, and the day of the week, where named, is that of the date.
    pub open spec fn valid(self) -> bool {
        &&& valid_date(self.year as int, self.month as int, self.day as int)
        &&& self.hour < 24
        &&& self.minute < 60
        &&& self.second < 60
        &&& self.milli < 1000
        &&& -1440 < self.offset_minutes < 1440
        &&& (self.weekday matches Some(w) ==> w == weekday_of(self.day_number()))
    }

    /// Milliseconds of the wall-clock reading since midnight.
    pub open spec fn millis_of_day(self) -> int {
        self.hour * 3_600_000 + self.minute * 60_000 + self.second * 1000 + self.milli
    }

    /// Milliseconds from the epoch to the point in time that the fields name.
    pub open spec fn millis(self) -> int {
        self.day_number() * 86_400_000 + self.millis_of_day() - self.offset_minutes * 60_000
    }

    pub fn blank() -> (f: Fields)
        ensures
            f == blank_fields(),
    {
        Fields {
            year: 1970,
            month: 1,
            day: 1,
            hour: 0,
            minute: 0,
            second: 0,
            milli: 0,
            offset_minutes: 0,
            weekday: None,
        }
    }
}

pub open spec fn in_range(millis: int) -> bool {
    MIN_MILLIS <= millis <= MAX_MILLIS
}

/// The point in time that the fields name, where they are valid and it lies in
/// the years 0000 to 9999 of UTC.
pub open spec fn resolve(f: Fields) -> Option<int> {
    if f.valid() && in_range(f.millis()) {
        Some(f.millis())
    } else {
        None
    }
}

/// The fields of a point in time as read in UTC, the day of the week named.
pub open spec fn civil_fields(millis: int) -> Fields {
    let days = millis / 86_400_000;
    let rest = millis % 86_400_000;
    let date = date_of_day(days);
    Fields {
        year: date.0 as u32,
        month: date.1 as u32,
        day: date.2 as u32,
        hour: (rest / 3_600_000) as u32,
        minute: (rest / 60_000 % 60) as u32,
        second: (rest / 1000 % 60) as u32,
        milli: (rest % 1000) as u32,
        offset_minutes: 0,
        weekday: Some(weekday_of(days) as u32),
    }
}

/// A time of day is split into hour, minute, second and millisecond in one way only.
pub proof fn lemma_time_of_day(hour: int, minute: int, second: int, milli: int)
    requires
        0 <= hour < 24,
        0 <= minute < 60,
        0 <= second < 60,
        0 <= milli < 1000,
    ensures
        ({
            let rest = hour * 3_600_000 + minute * 60_000 + second * 1000 + milli;
            &&& 0 <= rest < 86_400_000
            &&& rest / 3_600_000 == hour
            &&& rest / 60_000 % 60 == minute
            &&& rest / 1000 % 60 == second
            &&& rest % 1000 == milli
        }),
{
    let rest = hour * 3_600_000 + minute * 60_000 + second * 1000 + milli;
    let seconds = hour * 3600 + minute * 60 + second;
    let minutes = hour * 60 + minute;
    assert(rest == seconds * 1000 + milli);
    assert(seconds == minutes * 60 + second);
    vstd::arithmetic::div_mod::lemma_fundamental_div_mod_converse(rest, 1000, seconds, milli);
    vstd::arithmetic::div_mod::lemma_fundamental_div_mod_converse(seconds, 60, minutes, second);
    vstd::arithmetic::div_mod::lemma_fundamental_div_mod_converse(
        rest,
        60_000,
        minutes,
        second * 1000 + milli,
    );
    vstd::arithmetic::div_mod::lemma_fundamental_div_mod_converse(minutes, 60, hour, minute);
    vstd::arithmetic::div_mod::lemma_fundamental_div_mod_converse(
        rest,
        3_600_000,
        hour,
        minute * 60_000 + second * 1000 + milli,
    );
}

/// The parts of a time of day make up the time of day.
pub proof fn lemma_time_of_day_parts(rest: int)
    requires
        0 <= rest < 86_400_000,
    ensures
        0 <= rest / 3_600_000 < 24,
        0 <= rest / 60_000 % 60 < 60,
        0 <= rest / 1000 % 60 < 60,
        0 <= rest % 1000 < 1000,
        rest == (rest / 3_600_000) * 3_600_000 + (rest / 60_000 % 60) * 60_000 + (rest / 1000
            % 60) * 1000 + rest % 1000,
{
    let seconds = rest / 1000;
    let minutes = rest / 60_000;
    let hours = rest / 3_600_000;
    assert(minutes == seconds / 60) by {
        vstd::arithmetic::div_mod::lemma_fundamental_div_mod_converse(
            rest,
            60_000,
            seconds / 60,
            (seconds % 60) * 1000 + rest % 1000,
        );
    }
    assert(hours == minutes / 60) by {
        vstd::arithmetic::div_mod::lemma_fundamental_div_mod_converse(
            rest,
            3_600_000,
            minutes / 60,
            (minutes % 60) * 60_000 + (seconds % 60) * 1000 + rest % 1000,
        );
    }
}

/// Days and a time of day make up a count of milliseconds in one way only.
pub proof fn lemma_split_days(days: int, rest: int)
    requires
        0 <= rest < 86_400_000,
    ensures
        (days * 86_400_000 + rest) / 86_400_000 == days,
        (days * 86_400_000 + rest) % 86_400_000 == rest,
{
    vstd::arithmetic::div_mod::lemma_fundamental_div_mod_converse(
        days * 86_400_000 + rest,
        86_400_000,
        days,
        rest,
    );
}

/// The fields of a point in time name that point in time.
pub proof fn lemma_civil_fields(millis: int)
    requires
        in_range(millis),
    ensures
        civil_fields(millis).valid(),
        civil_fields(millis).millis() == millis,
        civil_fields(millis).day_number() == millis / 86_400_000,
        resolve(civil_fields(millis)) == Some(millis),
{
    let days = millis / 86_400_000;
    let rest = millis % 86_400_000;
    assert(MIN_DAY <= days <= MAX_DAY);
    lemma_date_of_day(days);
    lemma_time_of_day_parts(rest);
    let f = civil_fields(millis);
    assert(f.day_number() == days);
    assert(f.millis_of_day() == rest);
}

/// Valid fields in UTC name a point in time that the calendar holds.
pub proof fn lemma_utc_in_range(f: Fields)
    requires
        f.valid(),
        f.offset_minutes == 0,
    ensures
        in_range(f.millis()),
        resolve(f) == Some(f.millis()),
{
    lemma_date_of_day_unique(f.year as int, f.month as int, f.day as int);
    lemma_time_of_day(f.hour as int, f.minute as int, f.second as int, f.milli as int);
}

/// Valid fields in UTC that name the day of the week are the fields of their point in time.
pub proof fn law_civil_fields_inverse(f: Fields)
    requires
        f.valid(),
        f.offset_minutes == 0,
        f.weekday is Some,
    ensures
        in_range(f.millis()),
        civil_fields(f.millis()) == f,
{
    lemma_date_of_day_unique(f.year as int, f.month as int, f.day as int);
    let days = f.day_number();
    let rest = f.millis_of_day();
    lemma_time_of_day(f.hour as int, f.minute as int, f.second as int, f.milli as int);
    lemma_split_days(days, rest);
    assert(f.millis() == days * 86_400_000 + rest);
    let g = civil_fields(f.millis());
    assert(g.year == f.year && g.month == f.month && g.day == f.day);
    assert(g.hour == f.hour);
    assert(g.minute == f.minute);
    assert(g.second == f.second);
    assert(g.milli == f.milli);
    assert(g.weekday == f.weekday);
}

/// A point in time between 0000-01-01T00:00:00.000Z and 9999-12-31T23:59:59.999Z.
pub struct Instant {
    millis: i64,
}

impl View for Instant {
    type V = int;

    /// Milliseconds from the epoch.
    closed spec fn view(&self) -> int {
        self.millis as int
    }
}

impl Instant {
    #[verifier::type_invariant]
    spec fn within_calendar(self) -> bool {
        MIN_MILLIS <= self.millis <= MAX_MILLIS
    }

    /// The point in time at `millis` milliseconds from the epoch, where the calendar holds it.
    pub fn from_millis(millis: i64) -> (r: Option<Instant>)
        ensures
            r.is_some() == in_range(millis as int),
            r matches Some(t) ==> t@ == millis,
    {
        if MIN_MILLIS <= millis && millis <= MAX_MILLIS {
            Some(Instant { millis })
        } else {
            None
        }
    }

    /// Milliseconds from the epoch.
    pub fn millis(&self) -> (ms: i64)
        ensures
            ms == self@,
            in_range(ms as int),
    {
        proof {
            use_type_invariant(self);
        }
        self.millis
    }

    /// The point in time that the fields name.
    pub fn from_fields(f: &Fields) -> (r: Option<Instant>)
        ensures
            r.is_some() == resolve(*f).is_some(),
            r matches Some(t) ==> resolve(*f) == Some(t@),
    {
        let days: i64 = match days_from_civil(f.year, f.month, f.day) {
            Some(days) => days,
            None => {
                return None;
            },
        };
        if f.hour >= 24 || f.minute >= 60 || f.second >= 60 || f.milli >= 1000 {
            return None;
        }
        if f.offset_minutes <= -1440 || f.offset_minutes >= 1440 {
            return None;
        }
        match f.weekday {
            Some(w) => {
                if Some(w) != weekday_from_days(days) {
                    return None;
                }
            },
            None => {},
        }
        let of_day: i64 = f.hour as i64 * 3_600_000 + f.minute as i64 * 60_000 + f.second as i64
            * 1000 + f.milli as i64;
        let millis: i64 = days * MILLIS_PER_DAY + of_day - f.offset_minutes as i64 * 60_000;
        Instant::from_millis(millis)
    }

    /// The fields of this point in time as read in UTC.
    pub fn fields(&self) -> (f: Fields)
        ensures
            in_range(self@),
            f == civil_fields(self@),
            f.valid(),
            f.millis() == self@,
    {
        proof {
            use_type_invariant(self);
            lemma_civil_fields(self@);
        }
        let since_start: i64 = self.millis - MIN_MILLIS;
        let days: i64 = since_start / MILLIS_PER_DAY + MIN_DAY;
        let rest: i64 = since_start % MILLIS_PER_DAY;
        assert(days == self.millis as int / 86_400_000 && rest == self.millis as int % 86_400_000)
            by {
            vstd::arithmetic::div_mod::lemma_fundamental_div_mod_converse(
                self.millis as int,
                86_400_000,
                days as int,
                rest as int,
            );
        }
        let date: (u32, u32, u32) = match civil_from_days(days) {
            Some(date) => date,
            None => (1970, 1, 1),
        };
        Fields {
            year: date.0,
            month: date.1,
            day: date.2,
            hour: (rest / 3_600_000) as u32,
            minute: (rest / 60_000 % 60) as u32,
            second: (rest / 1000 % 60) as u32,
            milli: (rest % 1000) as u32,
            offset_minutes: 0,
            weekday: weekday_from_days(days),
        }
    }

    /// This point in time moved by a number of seconds, where the calendar holds the result.
    pub fn shifted(&self, seconds: i32) -> (r: Option<Instant>)
        ensures
            in_range(self@),
            r.is_some() == in_range(self@ + seconds * 1000),
            r matches Some(t) ==> t@ == self@ + seconds * 1000,
    {
        proof {
            use_type_invariant(self);
        }
        Instant::from_millis(self.millis + seconds as i64 * 1000)
    }
}

} // verus!
