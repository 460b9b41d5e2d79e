//! Points in time as the scheduling logic reads them.

use chrono::TimeZone;
use vstd::prelude::*;

verus! {

/// Seconds in a day.
pub const SECS_IN_DAY: i64 = 86400;

/// A moment: seconds since the Unix epoch, and the number of the local
/// calendar day it falls on, counted from the first day of the common era.
#[derive(Clone, Copy, Debug, PartialEq, Eq, Structural)]
pub struct ReviewTime {
    pub secs: i64,
    pub day: i64,
}

/// `a + b`, or the bound it would pass.
pub open spec fn saturating_sum(a: int, b: int) -> int {
    if a + b > i64::MAX {
        i64::MAX as int
    } else if a + b < i64::MIN {
        i64::MIN as int
    } else {
        a + b
    }
}

/// `a + b` for a non-negative `b`, stopping at the largest `i64`.
pub fn add_secs(a: i64, b: i64) -> (r: i64)
    requires
        b >= 0,
    ensures
        r == saturating_sum(a as int, b as int),
{
    if a > i64::MAX - b {
        i64::MAX
    } else {
        a + b
    }
}

/// Relies on `SystemTime::now` and `SystemTime::duration_since`: the seconds
/// since the epoch, now (zero before the epoch, the largest `i64` past it).
#[verifier::external_body]
fn unix_secs_now() -> (r: i64) {
    match std::time::SystemTime::now().duration_since(std::time::UNIX_EPOCH) {
        Ok(d) => i64::try_from(d.as_secs()).unwrap_or(i64::MAX),
        Err(_) => 0,
    }
}

/// Relies on `chrono::Local`'s `offset_from_utc_datetime` (the moment read
/// by `DateTime::from_timestamp`) and `FixedOffset::local_minus_utc`: the
/// machine's time-zone offset at that moment, in seconds, which a
/// `FixedOffset` keeps under a day either way; `None` for a moment out of
/// chrono's range.
#[verifier::external_body]
fn local_offset_secs(secs: i64) -> (r: Option<i64>)
    ensures
        r matches Some(o) ==> -SECS_IN_DAY < o < SECS_IN_DAY,
{
    let utc = chrono::DateTime::from_timestamp(secs, 0)?;
    Some(i64::from(chrono::Local.offset_from_utc_datetime(&utc.naive_utc()).local_minus_utc()))
}

/// The calendar day of `secs` at the time-zone offset `offset`: the UTC day
/// of the shifted moment, or the UTC day of the moment itself where no offset
/// is known or the shift leaves the range of `i64`.
pub open spec fn local_day_spec(secs: i64, offset: Option<i64>) -> int {
    match offset {
        Some(o) => if i64::MIN <= secs + o <= i64::MAX {
            utc_day_spec((secs + o) as i64)
        } else {
            utc_day_spec(secs)
        },
        None => utc_day_spec(secs),
    }
}

/// The calendar day of `secs` at the time-zone offset `offset`.
pub fn local_day(secs: i64, offset: Option<i64>) -> (r: i64)
    ensures
        r == local_day_spec(secs, offset),
{
    match offset {
        Some(o) => {
            if (o > 0 && secs > i64::MAX - o) || (o < 0 && secs < i64::MIN - o) {
                utc_day(secs)
            } else {
                utc_day(secs + o)
            }
        },
        None => utc_day(secs),
    }
}

/// An offset of less than a day moves the calendar day by one at most.
proof fn lemma_offset_day_bound(secs: i64, offset: Option<i64>)
    requires
        offset matches Some(o) ==> -SECS_IN_DAY < o < SECS_IN_DAY,
    ensures
        utc_day_spec(secs) - 1 <= local_day_spec(secs, offset) <= utc_day_spec(secs) + 1,
{
    match offset {
        Some(o) => {
            if i64::MIN <= secs + o <= i64::MAX {
                let a = secs as int;
                let b = secs + o;
                assert(a / 86400 - 1 <= b / 86400 <= a / 86400 + 1) by (nonlinear_arith)
                    requires
                        -86400 < b - a < 86400,
                ;
            }
        },
        None => {},
    }
}

impl ReviewTime {
    /// The moment `secs` with its local calendar day (see [`local_day`]),
    /// by the machine's time zone; within a day of the UTC day.
    pub fn at(secs: i64) -> (r: ReviewTime)
        ensures
            r.secs == secs,
            utc_day_spec(secs) - 1 <= r.day <= utc_day_spec(secs) + 1,
    {
        let offset = local_offset_secs(secs);
        proof {
            lemma_offset_day_bound(secs, offset);
        }
        ReviewTime { secs, day: local_day(secs, offset) }
    }

    /// The present moment, with its local calendar day.
    pub fn now() -> (r: ReviewTime)
        ensures
            utc_day_spec(r.secs) - 1 <= r.day <= utc_day_spec(r.secs) + 1,
    {
        ReviewTime::at(unix_secs_now())
    }
}

/// The number of the UTC calendar day of a moment, counted from the first day
/// of the common era (the epoch falls on day 719163).
pub open spec fn utc_day_spec(secs: i64) -> int {
    secs as int / SECS_IN_DAY as int + 719163
}

/// The UTC calendar day of a moment.
pub fn utc_day(secs: i64) -> (r: i64)
    ensures
        r == utc_day_spec(secs),
{
    let q = if secs >= 0 {
        secs / SECS_IN_DAY
    } else {
        let d = secs / SECS_IN_DAY;
        if d * SECS_IN_DAY != secs {
            d - 1
        } else {
            d
        }
    };
    proof {
        assert(q == secs as int / SECS_IN_DAY as int) by (nonlinear_arith)
            requires
                secs >= 0 ==> q == secs / SECS_IN_DAY,
                secs < 0 ==> q * SECS_IN_DAY <= secs < (q + 1) * SECS_IN_DAY,
        ;
    }
    q + 719163
}

} // verus!
