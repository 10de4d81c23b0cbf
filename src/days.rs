//! UTC day arithmetic on instants held as seconds since the Unix epoch.

use vstd::prelude::*;

verus! {

/// Seconds in one UTC calendar day.
pub const SECONDS_PER_DAY: i64 = 86400;

/// The UTC calendar day holding the instant `t`, numbered from the epoch's day
/// (floor division, so instants before the epoch land on negative days).
pub open spec fn day_of(t: int) -> int {
    t / 86400
}

/// Whole UTC calendar days from the day of `t` to the day of `now`
/// (0 = same day, 1 = the day before, negative = a later day).
pub open spec fn days_between(now: int, t: int) -> int {
    day_of(now) - day_of(t)
}

/// The UTC day number of an instant.
pub fn day_number(t: i64) -> (d: i64)
    ensures
        d == day_of(t as int),
{
    if t >= 0 {
        ((t as u64) / 86400) as i64
    } else {
        let m: u64 = (-(t + 1)) as u64;
        let q: u64 = m / 86400;
        proof {
            let r = m as int % 86400;
            assert(m as int == 86400 * q + r);
            assert(t as int == 86400 * (-(q as int) - 1) + (86399 - r));
        }
        -(q as i64) - 1
    }
}

/// Whole UTC calendar days from the day of `t` to the day of `now`.
pub fn days_ago(now: i64, t: i64) -> (d: i64)
    ensures
        d == days_between(now as int, t as int),
{
    day_number(now) - day_number(t)
}

} // verus!
