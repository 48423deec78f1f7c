//! Points in time.
//!
//! A point in time is a number of nanoseconds on a clock that never runs backwards. A
//! deadline is such a number too, of a type wide enough for any delay from any point.

use vstd::prelude::*;

verus! {

pub const NANOS_PER_MS: u64 = 1_000_000;

/// The time from `since` to `now`, in nanoseconds.
pub open spec fn between(since: u64, now: u64) -> int {
    if now >= since {
        now - since
    } else {
        0
    }
}

/// The point in time `ms` milliseconds after `now`.
pub open spec fn later(now: u64, ms: u64) -> int {
    now + ms * NANOS_PER_MS
}

/// The time from `since` to `now`, in nanoseconds.
pub fn elapsed(since: u64, now: u64) -> (d: u64)
    ensures
        d == between(since, now),
{
    if now >= since {
        now - since
    } else {
        0
    }
}

/// The point in time `ms` milliseconds after `now`.
pub fn deadline(now: u64, ms: u64) -> (d: u128)
    ensures
        d == later(now, ms),
{
    assert(ms * NANOS_PER_MS <= u64::MAX * NANOS_PER_MS) by (nonlinear_arith)
        requires
            ms <= u64::MAX,
    ;
    now as u128 + ms as u128 * NANOS_PER_MS as u128
}

} // verus!
