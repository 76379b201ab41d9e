//! Calendar date and date-time value types, validated against real calendar
//! rules (leap years, month lengths, 24-hour time).

use vstd::prelude::*;

verus! {

/// A calendar date.  Valid values (see [`Date::valid`]) are exactly those
/// that [`Date::from_ymd_opt`] accepts.
#[derive(Debug, Clone, Copy, PartialEq, Eq, Structural)]
pub struct Date {
    pub year: u32,
    pub month: u32,
    pub day: u32,
}

/// A calendar date with a time of day.
#[derive(Debug, Clone, Copy, PartialEq, Eq, Structural)]
pub struct DateTime {
    pub date: Date,
    pub hour: u32,
    pub minute: u32,
    pub second: u32,
}

pub open spec fn spec_is_leap_year(y: int) -> bool {
    y % 4 == 0 && (y % 100 != 0 || y % 400 == 0)
}

pub open spec fn spec_days_in_month(y: int, m: int) -> int {
    if m == 2 {
        if spec_is_leap_year(y) {
            29
        } else {
            28
        }
    } else if m == 4 || m == 6 || m == 9 || m == 11 {
        30
    } else {
        31
    }
}

pub open spec fn spec_date_valid(y: int, m: int, d: int) -> bool {
    &&& 0 <= y <= 9999
    &&& 1 <= m <= 12
    &&& 1 <= d <= spec_days_in_month(y, m)
}

fn is_leap_year(y: u32) -> (r: bool)
    ensures
        r == spec_is_leap_year(y as int),
{
    y % 4 == 0 && (y % 100 != 0 || y % 400 == 0)
}

fn days_in_month(y: u32, m: u32) -> (r: u32)
    requires
        1 <= m <= 12,
    ensures
        r == spec_days_in_month(y as int, m as int),
{
    if m == 2 {
        if is_leap_year(y) {
            29
        } else {
            28
        }
    } else if m == 4 || m == 6 || m == 9 || m == 11 {
        30
    } else {
        31
    }
}

impl Date {
    /// A real calendar date with a four-digit year.
    pub open spec fn valid(self) -> bool {
        spec_date_valid(self.year as int, self.month as int, self.day as int)
    }

    /// Construct a date, checking it against real calendar rules.
    pub fn from_ymd_opt(year: i32, month: u32, day: u32) -> (r: Option<Date>)
        ensures
            match r {
                Some(d) => {
                    &&& spec_date_valid(year as int, month as int, day as int)
                    &&& d == (Date { year: year as u32, month, day })
                    &&& d.valid()
                },
                None => !spec_date_valid(year as int, month as int, day as int),
            },
    {
        if year < 0 || year > 9999 || month < 1 || month > 12 {
            return None;
        }
        if day < 1 || day > days_in_month(year as u32, month) {
            return None;
        }
        Some(Date { year: year as u32, month, day })
    }

    /// Attach a time of day, checking it against the 24-hour clock.
    pub fn and_hms_opt(self, hour: u32, minute: u32, second: u32) -> (r: Option<DateTime>)
        ensures
            match r {
                Some(dt) => {
                    &&& hour < 24 && minute < 60 && second < 60
                    &&& dt == (DateTime { date: self, hour, minute, second })
                },
                None => !(hour < 24 && minute < 60 && second < 60),
            },
    {
        if hour < 24 && minute < 60 && second < 60 {
            Some(DateTime { date: self, hour, minute, second })
        } else {
            None
        }
    }
}

impl DateTime {
    /// A valid date carrying a valid 24-hour time.
    pub open spec fn valid(self) -> bool {
        &&& self.date.valid()
        &&& self.hour < 24
        &&& self.minute < 60
        &&& self.second < 60
    }
}

} // verus!
