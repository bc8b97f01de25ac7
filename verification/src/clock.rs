//! Time as the engine sees it: readings of a monotonic clock, in nanoseconds.

use vstd::prelude::*;

verus! {

/// A reading of a monotonic clock, in nanoseconds since an origin the caller chose.
pub type Timestamp = u64;

/// Nanoseconds in one second.
pub const NANOS_PER_SEC: u64 = 1_000_000_000;

/// Nanoseconds that passed from `from` to `to`; zero when `to` is not later.
pub open spec fn elapsed_nanos(from: Timestamp, to: Timestamp) -> nat {
    if to >= from {
        (to - from) as nat
    } else {
        0
    }
}

/// Whole seconds that passed from `from` to `to`.
pub open spec fn elapsed_secs(from: Timestamp, to: Timestamp) -> nat {
    elapsed_nanos(from, to) / (NANOS_PER_SEC as nat)
}

/// Whole seconds between two readings, rounded down; zero when `to` is not later.
pub fn seconds_between(from: Timestamp, to: Timestamp) -> (secs: u64)
    ensures
        secs == elapsed_secs(from, to),
{
    if to >= from {
        (to - from) / NANOS_PER_SEC
    } else {
        0
    }
}

/// Whether strictly more than `limit_secs` seconds passed from `from` to `to`.
pub open spec fn exceeds(from: Timestamp, to: Timestamp, limit_secs: u64) -> bool {
    elapsed_nanos(from, to) > limit_secs * NANOS_PER_SEC
}

/// Decides whether strictly more than `limit_secs` seconds lie between two readings.
pub fn has_exceeded(from: Timestamp, to: Timestamp, limit_secs: u64) -> (over: bool)
    ensures
        over == exceeds(from, to, limit_secs),
{
    if to >= from {
        let gap: u128 = (to - from) as u128;
        let limit: u128 = (limit_secs as u128) * (NANOS_PER_SEC as u128);
        gap > limit
    } else {
        false
    }
}

} // verus!
