//! Naive (timezone-free) calendar dates and clock times, as a user writes
//! them, together with the proleptic Gregorian calendar rules the library
//! needs: leap years, month lengths, and the successor of a date.

use vstd::prelude::*;

verus! {

/// Largest year magnitude a [`Date`] may carry. The bound is generous: the
/// time library used at the edges covers roughly years -262144 to 262143,
/// all well inside it.
pub const MAX_YEAR: i32 = 1_000_000;

/// A proleptic Gregorian leap year.
pub open spec fn spec_is_leap_year(y: int) -> bool {
    y % 4 == 0 && (y % 100 != 0 || y % 400 == 0)
}

/// Number of days in the given month of the given year.
pub open spec fn spec_days_in_month(y: int, m: int) -> int {
    if m == 2 {
        if spec_is_leap_year(y) {
            29
        } else {
            28
        }
    } else if m == 4 || m == 6 || m == 9 || m == 11 {
        30
    } else {
        31
    }
}

/// A calendar date, with no timezone attached.
#[derive(Clone, Copy, PartialEq, Eq, Structural, Debug)]
pub struct Date {
    pub year: i32,
    pub month: u8,
    pub day: u8,
}

/// A clock time of day with minute resolution, with no timezone attached.
#[derive(Clone, Copy, PartialEq, Eq, Structural, Debug)]
pub struct Time {
    pub hour: u8,
    pub minute: u8,
}

impl Date {
    /// A date that exists in the proleptic Gregorian calendar, with its
    /// year inside the range the library handles.
    pub open spec fn wf(self) -> bool {
        &&& 1 <= self.month <= 12
        &&& 1 <= self.day <= spec_days_in_month(self.year as int, self.month as int)
        &&& -MAX_YEAR <= self.year <= MAX_YEAR
    }

    /// Builds a date, accepting exactly the well-formed ones.
    pub fn new(year: i32, month: u8, day: u8) -> (r: Option<Date>)
        ensures
            r matches Some(d) ==> d == (Date { year, month, day }) && d.wf(),
            r is None ==> !(Date { year, month, day }).wf(),
    {
        if -MAX_YEAR <= year && year <= MAX_YEAR && 1 <= month && month <= 12 && 1 <= day
            && day <= days_in_month(year, month) {
            Some(Date { year, month, day })
        } else {
            None
        }
    }
}

impl Time {
    /// A clock time that exists on a 24-hour clock.
    pub open spec fn wf(self) -> bool {
        self.hour <= 23 && self.minute <= 59
    }

    /// Builds a clock time, accepting exactly the well-formed ones.
    pub fn new(hour: u8, minute: u8) -> (r: Option<Time>)
        ensures
            r matches Some(t) ==> t == (Time { hour, minute }) && t.wf(),
            r is None ==> !(Time { hour, minute }).wf(),
    {
        if hour <= 23 && minute <= 59 {
            Some(Time { hour, minute })
        } else {
            None
        }
    }

    /// Midnight, the first minute of a day.
    pub fn midnight() -> (r: Time)
        ensures
            r.hour == 0 && r.minute == 0,
    {
        Time { hour: 0, minute: 0 }
    }
}

/// Decides leap years as [`spec_is_leap_year`] does.
pub fn is_leap_year(y: i32) -> (r: bool)
    requires
        -MAX_YEAR <= y <= MAX_YEAR,
    ensures
        r == spec_is_leap_year(y as int),
{
    // Shift into nonnegative territory by a multiple of 400 so that the
    // remainders agree with the mathematical (Euclidean) ones.
    let s: u32 = (y + 2_000_000) as u32;
    proof {
        vstd::arithmetic::div_mod::lemma_mod_multiples_vanish(500_000, y as int, 4);
        vstd::arithmetic::div_mod::lemma_mod_multiples_vanish(20_000, y as int, 100);
        vstd::arithmetic::div_mod::lemma_mod_multiples_vanish(5_000, y as int, 400);
    }
    s % 4 == 0 && (s % 100 != 0 || s % 400 == 0)
}

/// Number of days in a month, as [`spec_days_in_month`] counts them.
pub fn days_in_month(y: i32, m: u8) -> (r: u8)
    requires
        -MAX_YEAR <= y <= MAX_YEAR,
        1 <= m <= 12,
    ensures
        r == spec_days_in_month(y as int, m as int),
{
    if m == 2 {
        if is_leap_year(y) {
            29
        } else {
            28
        }
    } else if m == 4 || m == 6 || m == 9 || m == 11 {
        30
    } else {
        31
    }
}

/// The day after a date.
pub open spec fn spec_next_date(d: Date) -> Date {
    if d.day < spec_days_in_month(d.year as int, d.month as int) {
        Date { year: d.year, month: d.month, day: (d.day + 1) as u8 }
    } else if d.month < 12 {
        Date { year: d.year, month: (d.month + 1) as u8, day: 1 }
    } else {
        Date { year: (d.year + 1) as i32, month: 1, day: 1 }
    }
}

/// Computes the day after a date. The result again exists in the calendar;
/// its year exceeds `MAX_YEAR` only when the input lay exactly on that edge.
pub fn next_date(d: Date) -> (r: Date)
    requires
        d.wf(),
    ensures
        r == spec_next_date(d),
        1 <= r.month <= 12,
        1 <= r.day <= spec_days_in_month(r.year as int, r.month as int),
        -MAX_YEAR <= r.year <= MAX_YEAR + 1,
{
    if d.day < days_in_month(d.year, d.month) {
        Date { year: d.year, month: d.month, day: d.day + 1 }
    } else if d.month < 12 {
        Date { year: d.year, month: d.month + 1, day: 1 }
    } else {
        Date { year: d.year + 1, month: 1, day: 1 }
    }
}

} // verus!
