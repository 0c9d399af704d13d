//! The clock normalizer: converts an arbitrary instant into the start of
//! its calendar day, the unit in which rewards accrue.
//!
//! An instant is a number of nanoseconds since the epoch.

use vstd::prelude::*;

verus! {

/// Nanoseconds in one calendar day.
pub const NANOS_PER_DAY: u64 = 86_400_000_000_000;

/// The start of the calendar day that `t` falls in: the largest multiple
/// of a day that is at most `t`.
pub open spec fn spec_midnight(t: u64) -> u64 {
    (t - (t % NANOS_PER_DAY)) as u64
}

/// The start of the calendar day after the one that `t` falls in.
/// Returned as `int` because near `u64::MAX` it has no machine value.
pub open spec fn spec_next_day(t: u64) -> int {
    spec_midnight(t) + NANOS_PER_DAY
}

/// Rounds `t` down to the start of its calendar day.
pub fn midnight(t: u64) -> (r: u64)
    ensures
        r == spec_midnight(t),
        r <= t,
        r % NANOS_PER_DAY == 0,
{
    proof {
        vstd::arithmetic::div_mod::lemma_fundamental_div_mod(t as int, NANOS_PER_DAY as int);
        vstd::arithmetic::div_mod::lemma_mod_multiples_basic(
            t as int / NANOS_PER_DAY as int,
            NANOS_PER_DAY as int,
        );
    }
    t - (t % NANOS_PER_DAY)
}

/// The first instant of the day after the one that `t` falls in.
pub fn next_day(t: u64) -> (r: u64)
    requires
        t <= u64::MAX - NANOS_PER_DAY,
    ensures
        r == spec_next_day(t),
{
    midnight(t) + NANOS_PER_DAY
}

} // verus!
