//! Calendar dates as plain year / month / day values.

use vstd::prelude::*;

verus! {

/// A calendar date. Years are restricted to four digits so that every date
/// has a fixed-width partition identifier.
#[derive(Clone, Copy, PartialEq, Eq, Structural, Debug)]
pub struct Date {
    pub year: u32,
    pub month: u32,
    pub day: u32,
}

/// Gregorian leap-year rule.
pub open spec fn is_leap_year(y: int) -> bool {
    (y % 4 == 0 && y % 100 != 0) || y % 400 == 0
}

/// Number of days in the given month of the given year.
pub open spec fn spec_days_in_month(y: int, m: int) -> int {
    if m == 2 {
        if is_leap_year(y) {
            29
        } else {
            28
        }
    } else if m == 4 || m == 6 || m == 9 || m == 11 {
        30
    } else {
        31
    }
}

impl Date {
    /// A real calendar date with a four-digit year.
    pub open spec fn valid(self) -> bool {
        &&& 1 <= self.year <= 9999
        &&& 1 <= self.month <= 12
        &&& 1 <= self.day <= spec_days_in_month(self.year as int, self.month as int)
    }

    /// Months elapsed since month 1 of year 0: the linear scale on which
    /// whole months are compared and subtracted.
    pub open spec fn month_index(self) -> int {
        self.year * 12 + self.month - 1
    }

    /// Whether this is a real calendar date with a four-digit year.
    pub fn is_valid(&self) -> (r: bool)
        ensures
            r == self.valid(),
    {
        if 1 <= self.year && self.year <= 9999 && 1 <= self.month && self.month <= 12 {
            1 <= self.day && self.day <= days_in_month(self.year, self.month)
        } else {
            false
        }
    }
}

/// Lexicographic order on (year, month, day): `a` is on or before `b`.
pub open spec fn date_le(a: Date, b: Date) -> bool {
    ||| a.year < b.year
    ||| (a.year == b.year && a.month < b.month)
    ||| (a.year == b.year && a.month == b.month && a.day <= b.day)
}

/// Number of days in the given month of the given year.
pub fn days_in_month(year: u32, month: u32) -> (n: u32)
    requires
        1 <= month <= 12,
    ensures
        n == spec_days_in_month(year as int, month as int),
{
    if month == 2 {
        if (year % 4 == 0 && year % 100 != 0) || year % 400 == 0 {
            29
        } else {
            28
        }
    } else if month == 4 || month == 6 || month == 9 || month == 11 {
        30
    } else {
        31
    }
}

} // verus!
