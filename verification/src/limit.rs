//! The quota of the rate limiter that guards the synthesis route.

use vstd::prelude::*;

verus! {

/// The number of requests that one client is admitted per hour.
pub const RATE_LIMIT_PER_HOUR: u32 = 100;

/// The guard of the synthesis route.
pub struct RateLimitGuard;

impl RateLimitGuard {
    /// The number of requests per hour that the limiter admits from one
    /// client, the same for every method and route. It is never zero.
    pub fn quota() -> (per_hour: u32)
        ensures
            per_hour == RATE_LIMIT_PER_HOUR,
            per_hour > 0,
    {
        RATE_LIMIT_PER_HOUR
    }

    /// Whether an admitted response carries the headers that describe the
    /// remaining quota: always.
    pub fn limit_info_allow() -> (allowed: bool)
        ensures
            allowed,
    {
        true
    }
}

} // verus!
