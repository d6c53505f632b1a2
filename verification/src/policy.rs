//! What a client does about redirects and failures.

use vstd::prelude::*;
use crate::time::{Duration, Instant};
use crate::timeout::representable;

verus! {

/// How many redirect responses are followed.
#[derive(Clone, Copy, Debug, PartialEq, Eq, Structural)]
pub struct RedirectPolicy {
    /// The most redirects; none are followed without a limit.
    pub limit: Option<usize>,
}

impl RedirectPolicy {
    /// Returns a redirect response without following it.
    pub fn none() -> (r: Self)
        ensures
            r == (RedirectPolicy { limit: None }),
    {
        RedirectPolicy { limit: None }
    }

    /// Follows up to `maximum` redirects.
    pub fn limited(maximum: usize) -> (r: Self)
        requires
            maximum > 0,
        ensures
            r == (RedirectPolicy { limit: Some(maximum) }),
    {
        RedirectPolicy { limit: Some(maximum) }
    }
}

/// How a failed connection setup is retried.
#[derive(Clone, Copy, Debug, PartialEq, Eq, Structural)]
pub struct ConnectionRetries {
    pub maximum: usize,
    /// The delay before each.
    pub delay: Duration,
}

/// Which failures are retried.
#[derive(Clone, Copy, Debug, PartialEq, Eq, Structural)]
pub struct RetryPolicy {
    pub connection_failures: Option<ConnectionRetries>,
    /// The longest `Retry-After` that is waited for.
    pub retry_after_limit: Option<Duration>,
}

impl RetryPolicy {
    /// Whether the clock can represent the delay and the limit from `now`.
    pub open spec fn valid(self, now: Instant) -> bool {
        &&& self.connection_failures matches Some(retries) ==> now.reaches(
            retries.delay,
        )
        &&& representable(self.retry_after_limit, now)
    }

    /// Retries nothing.
    pub fn none() -> (r: Self)
        ensures
            r == (RetryPolicy { connection_failures: None, retry_after_limit: None }),
    {
        RetryPolicy { connection_failures: None, retry_after_limit: None }
    }

    /// Retries a failed connection setup up to `maximum` times, each after
    /// `delay`.
    pub fn connection_failures(maximum: usize, delay: Duration) -> (r: Self)
        requires
            maximum > 0,
        ensures
            r == (RetryPolicy {
                connection_failures: Some(ConnectionRetries { maximum, delay }),
                retry_after_limit: None,
            }),
    {
        RetryPolicy { connection_failures: Some(ConnectionRetries { maximum, delay }), retry_after_limit: None }
    }

    /// Returns whether the clock can represent the delay and the limit from
    /// `now`.
    pub fn validate(self, now: Instant) -> (r: bool)
        ensures
            r == self.valid(now),
    {
        match self.connection_failures {
            Some(retries) => {
                if now.checked_add(retries.delay).is_none() {
                    return false;
                }
            },
            None => {},
        }
        match self.retry_after_limit {
            Some(limit) => now.checked_add(limit).is_some(),
            None => true,
        }
    }
}

} // verus!
