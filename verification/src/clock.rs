//! Instants and waits.
//!
//! An instant is a count of nanoseconds since an origin that the caller fixes
//! for the whole round; a wait is a count of nanoseconds.

use vstd::prelude::*;

verus! {

/// The time that is left from `now` until `instant`; zero where `instant` is
/// not in the future.
pub open spec fn time_until(instant: u64, now: u64) -> u64 {
    if instant > now {
        (instant - now) as u64
    } else {
        0
    }
}

/// How long to wait at `now` so as to go on at `instant`. An instant that has
/// passed gives a wait of zero: the result is never negative.
pub fn wait_until(instant: u64, now: u64) -> (wait: u64)
    ensures
        wait == time_until(instant, now),
        now + wait == if instant > now { instant } else { now },
{
    if instant > now {
        instant - now
    } else {
        0
    }
}

} // verus!
