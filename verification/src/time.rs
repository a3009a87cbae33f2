//! Instants and calendar days.
//!
//! Every timestamp the store holds is a number of seconds since the Unix
//! epoch, obtained by parsing the ISO-8601 strings the remote source sends.
//! Dates are compared at day granularity: a day is the floor of the instant
//! divided by 86400 seconds.

use vstd::prelude::*;

verus! {

/// Earliest instant an RFC 3339 string can denote: year 0000 with the
/// largest positive offset the grammar admits (+23:59).
pub const TS_MIN: i64 = -62_167_305_540;

/// Latest instant an RFC 3339 string can denote: the end of year 9999 with
/// offset -23:59.
pub const TS_MAX: i64 = 253_402_387_139;

/// A multiple of 86400 lying at or below `TS_MIN`, used to shift instants
/// into non-negative territory before dividing by the length of a day.
pub const TS_SHIFT: i64 = 62_167_305_600;

/// `TS_SHIFT / 86400`.
pub const TS_SHIFT_DAYS: i64 = 719_529;

/// Largest magnitude of a difference of two in-range instants.
pub const DUR_MAX: i64 = 315_569_692_679;

/// Day the metrics history starts at when no metrics exist yet
/// (2010-01-01, as days since the epoch).
pub const METRICS_EPOCH_DAY: i64 = 14_610;

/// The instant an RFC 3339 string denotes, in seconds since the epoch, or
/// `None` when the string does not parse.
pub uninterp spec fn rfc3339_secs(s: Seq<char>) -> Option<i64>;

/// Relies on chrono's `DateTime::parse_from_rfc3339` and
/// `DateTime::timestamp`: the parse accepts exactly the RFC 3339 grammar
/// (four-digit year, offset within +/-23:59), so any instant it yields lies
/// between `TS_MIN` and `TS_MAX`; the result depends on the characters alone.
#[verifier::external_body]
pub(crate) fn parse_rfc3339_secs(s: &str) -> (r: Option<i64>)
    ensures
        r == rfc3339_secs(s@),
        r matches Some(t) ==> TS_MIN <= t <= TS_MAX,
{
    match chrono::DateTime::parse_from_rfc3339(s) {
        Ok(dt) => Some(dt.timestamp()),
        Err(_) => None,
    }
}

/// An in-range instant.
pub open spec fn ts_in_range(t: i64) -> bool {
    TS_MIN <= t <= TS_MAX
}

/// An optional timestamp that is either absent or in range.
pub open spec fn opt_ts_in_range(t: Option<i64>) -> bool {
    t matches Some(v) ==> ts_in_range(v)
}

/// The calendar day an instant falls on, as days since the epoch.
pub open spec fn spec_day_of(t: int) -> int {
    (t + TS_SHIFT) / 86400 - TS_SHIFT_DAYS
}

/// The day an optional instant falls on.
pub open spec fn spec_day_opt(t: Option<i64>) -> Option<int> {
    match t {
        Some(v) => Some(spec_day_of(v as int)),
        None => None,
    }
}

/// Days of in-range instants stay within these bounds.
pub const DAY_MIN: i64 = -719_529;

/// See `DAY_MIN`.
pub const DAY_MAX: i64 = 3_652_426;

pub proof fn lemma_day_of_bounds(t: int)
    requires
        TS_MIN <= t <= TS_MAX,
    ensures
        DAY_MIN <= spec_day_of(t) <= DAY_MAX,
{
}

/// The calendar day of an in-range instant.
pub fn day_of(t: i64) -> (d: i64)
    requires
        ts_in_range(t),
    ensures
        d == spec_day_of(t as int),
        DAY_MIN <= d <= DAY_MAX,
{
    let shifted: u64 = (t + TS_SHIFT) as u64;
    let q: u64 = shifted / 86400;
    (q as i64) - TS_SHIFT_DAYS
}

} // verus!
