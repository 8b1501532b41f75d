//! Points in time and the time between them.
use std::time::{Duration, Instant};
use vstd::prelude::*;

verus! {

/// A point in time.
#[verifier::external_type_specification]
#[verifier::external_body]
pub struct ExInstant(std::time::Instant);

/// The time from `earlier` to `later`.
pub uninterp spec fn time_between(later: Instant, earlier: Instant) -> Duration;

/// A length of time in whole milliseconds.
pub uninterp spec fn whole_millis(d: Duration) -> u128;

/// `Instant::now`: nothing is claimed of the point in time.
pub assume_specification[ std::time::Instant::now ]() -> (r: Instant)
;

/// `Instant::duration_since`: a function of the two points in time.
pub assume_specification[ std::time::Instant::duration_since ](
    later: &Instant,
    earlier: Instant,
) -> (r: Duration)
    ensures
        r == time_between(*later, earlier),
;

/// `Duration::as_millis`: a function of the length of time.
pub assume_specification[ std::time::Duration::as_millis ](d: &Duration) -> (r: u128)
    ensures
        r == whole_millis(*d),
;

/// At least `ttl_ms` milliseconds lie between `ts` and `now`.
pub open spec fn has_expired(now: Instant, ts: Instant, ttl_ms: u64) -> bool {
    whole_millis(time_between(now, ts)) >= ttl_ms
}

pub fn is_expired(now: Instant, ts: Instant, ttl_ms: u64) -> (r: bool)
    ensures
        r == has_expired(now, ts, ttl_ms),
{
    now.duration_since(ts).as_millis() >= ttl_ms as u128
}

} // verus!
