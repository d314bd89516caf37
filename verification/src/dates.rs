//! Calendar dates and wall-clock times, modelled as plain values so the
//! rollover logic over them can be verified. Dates follow the proleptic
//! Gregorian calendar.

use vstd::prelude::*;

verus! {

/// A time of day with minute granularity, as session lines record it.
#[derive(Debug, PartialEq, Eq, Structural, Clone, Copy)]
pub struct Time {
    pub hour: u8,
    pub minute: u8,
}

/// A well-formed time of day.
pub open spec fn time_wf(t: Time) -> bool {
    t.hour < 24 && t.minute < 60
}

/// Minutes since midnight; the order on times of day.
pub open spec fn time_mins(t: Time) -> int {
    t.hour * 60 + t.minute
}

/// A calendar date.
#[derive(Debug, PartialEq, Eq, Structural, Clone, Copy)]
pub struct Date {
    pub year: u32,
    pub month: u8,
    pub day: u8,
}

/// Gregorian leap-year rule.
pub open spec fn is_leap_year(y: int) -> bool {
    y % 4 == 0 && (y % 100 != 0 || y % 400 == 0)
}

/// Number of days of month `m` of year `y`.
pub open spec fn days_in_month(y: int, m: int) -> int {
    if m == 2 {
        if is_leap_year(y) {
            29
        } else {
            28
        }
    } else if m == 4 || m == 6 || m == 9 || m == 11 {
        30
    } else {
        31
    }
}

/// A well-formed calendar date.
pub open spec fn date_wf(d: Date) -> bool {
    1 <= d.month <= 12 && 1 <= d.day <= days_in_month(d.year as int, d.month as int)
}

/// Strict calendar order on dates.
pub open spec fn date_lt(a: Date, b: Date) -> bool {
    ||| a.year < b.year
    ||| (a.year == b.year && a.month < b.month)
    ||| (a.year == b.year && a.month == b.month && a.day < b.day)
}

/// The day after `d`.
pub open spec fn date_succ(d: Date) -> Date {
    if d.day < days_in_month(d.year as int, d.month as int) {
        Date { year: d.year, month: d.month, day: (d.day + 1) as u8 }
    } else if d.month < 12 {
        Date { year: d.year, month: (d.month + 1) as u8, day: 1 }
    } else {
        Date { year: (d.year + 1) as u32, month: 1, day: 1 }
    }
}

/// The successor of a well-formed date is well-formed and strictly later.
pub proof fn lemma_date_succ(d: Date)
    requires
        date_wf(d),
        d.year < u32::MAX,
    ensures
        date_wf(date_succ(d)),
        date_lt(d, date_succ(d)),
{
}

impl Time {
    /// Builds a time of day from its components.
    pub fn new(hour: u8, minute: u8) -> (r: Time)
        requires
            hour < 24,
            minute < 60,
        ensures
            r == (Time { hour, minute }),
    {
        Time { hour, minute }
    }
}

impl Date {
    /// Builds a date from its components, refusing values that do not
    /// name a calendar day.
    pub fn from_ymd(year: u32, month: u8, day: u8) -> (r: Option<Date>)
        ensures
            match r {
                Some(d) => d == (Date { year, month, day }) && date_wf(d),
                None => !date_wf(Date { year, month, day }),
            },
    {
        let d = Date { year, month, day };
        if 1 <= month && month <= 12 && 1 <= day && day <= d.days_in_current_month() {
            Some(d)
        } else {
            None
        }
    }

    /// Number of days of this date's month.
    pub fn days_in_current_month(&self) -> (r: u8)
        ensures
            r == days_in_month(self.year as int, self.month as int),
    {
        if self.month == 2 {
            let y = self.year;
            if y % 4 == 0 && (y % 100 != 0 || y % 400 == 0) {
                29
            } else {
                28
            }
        } else if self.month == 4 || self.month == 6 || self.month == 9 || self.month == 11 {
            30
        } else {
            31
        }
    }

    /// The next calendar day.
    pub fn succ(&self) -> (r: Date)
        requires
            date_wf(*self),
            self.year < u32::MAX,
        ensures
            r == date_succ(*self),
            date_wf(r),
            date_lt(*self, r),
    {
        proof {
            lemma_date_succ(*self);
        }
        let dim = self.days_in_current_month();
        if self.day < dim {
            Date { year: self.year, month: self.month, day: self.day + 1 }
        } else if self.month < 12 {
            Date { year: self.year, month: self.month + 1, day: 1 }
        } else {
            Date { year: self.year + 1, month: 1, day: 1 }
        }
    }

    /// Whether `self` is strictly before `other` in calendar order.
    pub fn lt(&self, other: &Date) -> (r: bool)
        ensures
            r == date_lt(*self, *other),
    {
        if self.year != other.year {
            self.year < other.year
        } else if self.month != other.month {
            self.month < other.month
        } else {
            self.day < other.day
        }
    }
}

/// A point in time: a calendar date with a time of day.
#[derive(Debug, PartialEq, Eq, Structural, Clone, Copy)]
pub struct DateTime {
    pub date: Date,
    pub time: Time,
}

/// A well-formed timestamp.
pub open spec fn dt_wf(t: DateTime) -> bool {
    date_wf(t.date) && time_wf(t.time)
}

/// Non-strict order on timestamps: date order first, then time of day.
pub open spec fn dt_le(a: DateTime, b: DateTime) -> bool {
    date_lt(a.date, b.date) || (a.date == b.date && time_mins(a.time) <= time_mins(b.time))
}

impl DateTime {
    /// Pairs a date with a time of day.
    pub fn new(date: Date, time: Time) -> (r: DateTime)
        ensures
            r == (DateTime { date, time }),
    {
        DateTime { date, time }
    }

    /// The calendar-date component.
    pub fn date(&self) -> (r: Date)
        ensures
            r == self.date,
    {
        self.date
    }

    /// The time-of-day component.
    pub fn time(&self) -> (r: Time)
        ensures
            r == self.time,
    {
        self.time
    }
}

} // verus!
