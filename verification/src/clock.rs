//! Day arithmetic on wall-clock milliseconds.

use vstd::prelude::*;

use crate::pet::now_unix_millis;

verus! {

/// One day in milliseconds.
pub const DAY_MS: u64 = 86400000;

/// The first millisecond of the day `day_delta` days after the instant
/// `now_ms`, or nothing if that instant is not representable.
pub open spec fn spec_start_of_day_ms(now_ms: int, day_delta: int) -> Option<u64> {
    let t = now_ms + day_delta * (DAY_MS as int);
    if t > u64::MAX {
        None
    } else {
        Some((t - t % (DAY_MS as int)) as u64)
    }
}

/// Rounds the instant `day_delta` days after `now_ms` down to midnight.
pub fn start_of_day_ms(now_ms: u64, day_delta: u64) -> (r: Option<u64>)
    ensures
        r == spec_start_of_day_ms(now_ms as int, day_delta as int),
{
    match day_delta.checked_mul(DAY_MS) {
        Some(delta) => match now_ms.checked_add(delta) {
            Some(t) => Some(t - t % DAY_MS),
            None => None,
        },
        None => {
            proof {
                assert(day_delta * (DAY_MS as int) > u64::MAX);
            }
            None
        },
    }
}

/// Midnight of the day `day_delta` days from now, in milliseconds since
/// the epoch; nothing if that overflows. The clock comes from the
/// environment, so only the rounding is promised.
pub fn get_start_of_day_ms_time(day_delta: u64) -> (r: Option<u64>)
    ensures
        r matches Some(t) ==> t % DAY_MS == 0,
{
    let now = now_unix_millis();
    start_of_day_ms(now, day_delta)
}

} // verus!
