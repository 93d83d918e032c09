//! The rolling hot window: the trailing months whose partitions are still
//! read by queries. Always recomputed from the caller's "now", never cached,
//! so it advances with real time on its own.

use crate::date::{Date, date_le, days_in_month, spec_days_in_month};
use crate::partition::PartitionKey;
use vstd::prelude::*;

verus! {

/// How many whole months before the current one are still hot.
pub const WINDOW_MONTHS: u32 = 12;

/// An inclusive date range.
#[derive(Clone, Copy, PartialEq, Eq, Structural, Debug)]
pub struct HotWindow {
    pub start: Date,
    pub end: Date,
}

impl HotWindow {
    /// A window runs from the first day of some month to the last day of a
    /// later or equal month.
    pub open spec fn wf(self) -> bool {
        &&& self.start.valid()
        &&& self.end.valid()
        &&& self.start.day == 1
        &&& self.end.day == spec_days_in_month(self.end.year as int, self.end.month as int)
        &&& self.start.month_index() <= self.end.month_index()
    }

    /// A partition key is hot when, seen as its first-of-month date, it lies
    /// inside the window.
    pub open spec fn spec_is_hot(self, k: PartitionKey) -> bool {
        date_le(self.start, k.first_day()) && date_le(k.first_day(), self.end)
    }
}

/// The hot window belonging to a current date: the first day of the month
/// `WINDOW_MONTHS` months before the current month through the last day of
/// the current month.
pub open spec fn spec_window(now: Date) -> HotWindow {
    let si = now.month_index() - WINDOW_MONTHS;
    HotWindow {
        start: Date { year: (si / 12) as u32, month: (si % 12 + 1) as u32, day: 1 },
        end: Date {
            year: now.year,
            month: now.month,
            day: spec_days_in_month(now.year as int, now.month as int) as u32,
        },
    }
}

/// The hot window for the given current date: from the first day of the
/// month `WINDOW_MONTHS` months before the current month through the last
/// day of the current month.
pub fn hot_window(now: Date) -> (w: HotWindow)
    requires
        now.valid(),
        now.year >= 2,
    ensures
        w == spec_window(now),
        w.wf(),
        w.start.month_index() == now.month_index() - WINDOW_MONTHS,
        w.start.day == 1,
        w.end.year == now.year,
        w.end.month == now.month,
        w.end.day == spec_days_in_month(now.year as int, now.month as int),
{
    let start_index = now.year * 12 + (now.month - 1) - WINDOW_MONTHS;
    let start = Date { year: start_index / 12, month: start_index % 12 + 1, day: 1 };
    let end = Date { year: now.year, month: now.month, day: days_in_month(now.year, now.month) };
    HotWindow { start, end }
}

/// Whether the key's month lies inside the window.
pub fn is_hot(w: &HotWindow, k: &PartitionKey) -> (r: bool)
    requires
        w.wf(),
        k.valid(),
    ensures
        r == w.spec_is_hot(*k),
        r == (w.start.month_index() <= k.month_index() <= w.end.month_index()),
{
    let ki = k.year * 12 + (k.month - 1);
    let si = w.start.year * 12 + (w.start.month - 1);
    let ei = w.end.year * 12 + (w.end.month - 1);
    si <= ki && ki <= ei
}

} // verus!
