use vstd::prelude::*;

use crate::error::{ErrorKind, TrafficError};

verus! {

/// A calendar day, counted as days from the start of the common era
/// (0001-01-01 is day 1).
#[derive(Debug, Clone, Copy, PartialEq, Eq, Structural)]
pub struct CalendarDay {
    pub days_from_ce: i32,
}

/// One row of the ledger: the traffic of a day, and the counter as read that day.
#[derive(Debug, Clone, Copy, PartialEq, Eq, Structural)]
pub struct DailyRecord {
    pub day: CalendarDay,
    /// Bytes attributed to the day.
    pub traffic: i64,
    /// The router's cumulative counter as read on the day.
    pub cumulative_traffic: i64,
}

/// The traffic of a day whose reading is `cumulative`, given yesterday's
/// reading if there is one: the growth since yesterday, or the whole reading
/// where the counter did not grow (it was reset) or yesterday is missing.
pub open spec fn increment(cumulative: int, prior: Option<i64>) -> int {
    match prior {
        Some(p) => if cumulative > p { cumulative - p } else { cumulative },
        None => cumulative,
    }
}

impl CalendarDay {
    pub fn new(days_from_ce: i32) -> (r: Self)
        ensures
            r.days_from_ce == days_from_ce,
    {
        CalendarDay { days_from_ce }
    }

    /// The day before.
    pub fn previous(&self) -> (r: Self)
        requires
            self.days_from_ce > i32::MIN,
        ensures
            r.days_from_ce == self.days_from_ce - 1,
    {
        CalendarDay { days_from_ce: self.days_from_ce - 1 }
    }
}

/// The day's traffic, as `increment` gives it, where it fits in an `i64`.
pub fn incremental_traffic(cumulative: i64, prior: Option<i64>) -> (r: Option<i64>)
    ensures
        i64::MIN <= increment(cumulative as int, prior) <= i64::MAX ==> r == Some(
            increment(cumulative as int, prior) as i64,
        ),
        !(i64::MIN <= increment(cumulative as int, prior) <= i64::MAX) ==> r is None,
{
    match prior {
        Some(p) => {
            if cumulative > p {
                cumulative.checked_sub(p)
            } else {
                Some(cumulative)
            }
        },
        None => Some(cumulative),
    }
}

/// The record to insert for `day`, whose reading is `cumulative`, given the
/// reading stored for the day before, if any. Fails with a storage error
/// where the day's traffic does not fit the store's integers.
pub fn daily_record(day: CalendarDay, cumulative: i64, prior: Option<i64>) -> (r: Result<
    DailyRecord,
    TrafficError,
>)
    ensures
        i64::MIN <= increment(cumulative as int, prior) <= i64::MAX ==> r == Ok::<
            DailyRecord,
            TrafficError,
        >(
            DailyRecord {
                day,
                traffic: increment(cumulative as int, prior) as i64,
                cumulative_traffic: cumulative,
            },
        ),
        !(i64::MIN <= increment(cumulative as int, prior) <= i64::MAX) ==> (r matches Err(e)
            && e.kind == ErrorKind::Storage),
{
    match incremental_traffic(cumulative, prior) {
        Some(traffic) => Ok(DailyRecord { day, traffic, cumulative_traffic: cumulative }),
        None => Err(TrafficError::with_kind(ErrorKind::Storage, "daily traffic is out of range")),
    }
}

} // verus!
