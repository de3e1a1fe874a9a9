//! Aggregation windows and the clock.
//!
//! On each aggregator tick the window starts at the wall-clock time
//! truncated to the whole minute and runs one timeframe forward. The
//! truncation is to the minute whatever the timeframe, so longer
//! windows are minute-anchored, not timeframe-anchored; that is the
//! behaviour the deployment has today and it is kept as it is.

use vstd::prelude::*;

verus! {

pub const MILLIS_PER_MINUTE: i64 = 60_000;

/// Start of the historical backfill range, 2024-12-01T00:00:00Z in
/// Unix milliseconds.
pub const BACKFILL_START_MS: i64 = 1_733_011_200_000;

/// Relies on chrono's Utc::now: the current wall-clock time in Unix
/// milliseconds. Nothing is assumed of the value. Note that Utc::now
/// panics when the system clock is set before 1970 — an environment
/// condition no precondition of this library can exclude.
#[verifier::external_body]
pub(crate) fn now_millis() -> (r: i64) {
    chrono::Utc::now().timestamp_millis()
}

/// The aggregation window at time `now_ms` for a timeframe of
/// `duration_minutes`: start truncated to the whole minute, end one
/// timeframe later, half-open.
pub fn window_bounds(now_ms: i64, duration_minutes: i64) -> (r: (i64, i64))
    requires
        0 <= now_ms <= i64::MAX - 86_400_000,
        1 <= duration_minutes <= 1440,
    ensures
        r.0 == now_ms - now_ms % MILLIS_PER_MINUTE,
        r.1 == r.0 + MILLIS_PER_MINUTE * duration_minutes,
        r.0 <= now_ms < r.0 + MILLIS_PER_MINUTE,
        r.0 % MILLIS_PER_MINUTE == 0,
{
    let start = now_ms - now_ms % MILLIS_PER_MINUTE;
    (start, start + MILLIS_PER_MINUTE * duration_minutes)
}

/// The time range of the historical backfill: from the fixed start of
/// the range to the present. Of the clock's answer nothing is promised.
pub fn get_time_range() -> (r: (i64, i64))
    ensures
        r.0 == BACKFILL_START_MS,
{
    (BACKFILL_START_MS, now_millis())
}

} // verus!
