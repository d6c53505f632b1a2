//! Caller policy for using a learned HTTP/3 alternative.

use vstd::prelude::*;
use vstd::arithmetic::power2::{
    lemma2_to64, lemma_pow2_pos, lemma_pow2_strictly_increases, lemma_pow2_unfold, pow2,
};
use vstd::math::min;
use crate::error::{BuildError, BuildErrorKind};
use crate::time::{Duration, Instant};

verus! {

/// How a negotiated HTTPS request uses a fresh learned `h3` alternative.
///
/// The default, [`AltSvcPolicy::sequential`], uses the alternative alone: its
/// setup failure is terminal for the request and evicts the advertisement.
/// [`AltSvcPolicy::race`] instead races alternative connection setup against
/// origin connection setup. Racing chooses a connection, never a request
/// replay: the request is sent once, on the winner, and both candidates keep
/// the request's origin identity and route.
#[derive(Clone, Copy, Debug, PartialEq, Eq, Structural)]
pub struct AltSvcPolicy {
    pub race: Option<AltSvcRace>,
}

impl Default for AltSvcPolicy {
    fn default() -> (r: Self)
        ensures
            r.race is None,
    {
        Self::sequential()
    }
}

impl AltSvcPolicy {
    /// Uses the alternative alone; setup failure is terminal and evicts it.
    pub fn sequential() -> (r: Self)
        ensures
            r.race is None,
    {
        AltSvcPolicy { race: None }
    }

    /// Races alternative setup against delayed origin setup.
    pub fn race(race: AltSvcRace) -> (r: Self)
        ensures
            r.race == Some(race),
    {
        AltSvcPolicy { race: Some(race) }
    }

    /// Returns the racing parameters, or `None` for sequential use.
    pub fn race_settings(self) -> (r: Option<AltSvcRace>)
        ensures
            r == self.race,
    {
        self.race
    }

    /// Whether the clock can represent the origin delay from `now`.
    pub open spec fn valid(self, now: Instant) -> bool {
        self.race matches Some(race) ==> now.reaches(race.origin_delay)
    }

    /// Refuses an origin delay that the clock cannot represent from `now`.
    pub fn validate(self, now: Instant) -> (r: Result<(), BuildError>)
        ensures
            r is Ok <==> self.valid(now),
            r matches Err(error) ==> error.kind == BuildErrorKind::InvalidPolicy && error.message@
                == "Alt-Svc origin delay is not representable"@,
    {
        match self.race {
            Some(race) => if now.checked_add(race.origin_delay).is_none() {
                Err(BuildError::invalid_policy("Alt-Svc origin delay is not representable"))
            } else {
                Ok(())
            },
            None => Ok(()),
        }
    }
}

/// Parameters for racing a learned HTTP/3 alternative against the origin.
///
/// QUIC setup to the alternative starts first. Origin H1/H2 setup starts
/// after `origin_delay`, or at once when the alternative fails first or the
/// origin already has a reusable pooled HTTP/2 connection. The first
/// candidate to finish setup carries the request.
///
/// An alternative that fails while the origin succeeds is marked broken for
/// [`AltSvcBrokenBackoff`] and is not raced again until that period ends.
/// When both candidates fail, nothing is marked.
#[derive(Clone, Copy, Debug, PartialEq, Eq, Structural)]
pub struct AltSvcRace {
    pub origin_delay: Duration,
    pub broken_backoff: AltSvcBrokenBackoff,
}

impl AltSvcRace {
    /// Creates racing parameters; a zero delay starts both candidates
    /// together.
    pub fn new(origin_delay: Duration, broken_backoff: AltSvcBrokenBackoff) -> (r: Self)
        ensures
            r == (AltSvcRace { origin_delay, broken_backoff }),
    {
        AltSvcRace { origin_delay, broken_backoff }
    }

    /// Returns how long origin setup waits after alternative setup starts.
    pub fn origin_delay(self) -> (r: Duration)
        ensures
            r == self.origin_delay,
    {
        self.origin_delay
    }

    /// Returns how long a failed alternative stays broken.
    pub fn broken_backoff(self) -> (r: AltSvcBrokenBackoff)
        ensures
            r == self.broken_backoff,
    {
        self.broken_backoff
    }
}

/// How long an alternative stays broken after failing a race.
///
/// The first failure marks the alternative broken for `initial`. Each later
/// failure before a successful alternative connection doubles the period, up
/// to `maximum`. A failure reported while the alternative is already broken
/// counts toward the next period without extending the current one. A
/// successful alternative connection clears the history.
#[derive(Clone, Copy, Debug, PartialEq, Eq, Structural)]
pub struct AltSvcBrokenBackoff {
    pub initial: Duration,
    pub maximum: Duration,
}

impl AltSvcBrokenBackoff {
    /// Whether the first period is positive and within the cap.
    pub open spec fn wf(self) -> bool {
        0 < self.initial.nanos <= self.maximum.nanos
    }

    /// The broken period after `previous` failures, in nanoseconds.
    pub open spec fn period_nanos(self, previous: nat) -> nat {
        let doubled = self.initial.nanos as nat * pow2(previous);
        if doubled < self.maximum.nanos {
            doubled
        } else {
            self.maximum.nanos as nat
        }
    }

    /// Chromium 153's defaults: 300 seconds, doubling, capped at two days.
    pub fn chromium_153() -> (r: Self)
        ensures
            r.wf(),
            r.initial.nanos == 300 * 1_000_000_000,
            r.maximum.nanos == 2 * 24 * 60 * 60 * 1_000_000_000,
    {
        AltSvcBrokenBackoff {
            initial: Duration::from_secs(300),
            maximum: Duration::from_secs(172_800),
        }
    }

    /// Creates a backoff from the first broken period and the cap.
    ///
    /// Fails when `initial` is zero or exceeds `maximum`.
    pub fn new(initial: Duration, maximum: Duration) -> (r: Result<Self, BuildError>)
        ensures
            r is Ok <==> 0 < initial.nanos <= maximum.nanos,
            r matches Ok(backoff) ==> backoff == (AltSvcBrokenBackoff { initial, maximum }),
            r matches Err(error) ==> error.kind == BuildErrorKind::InvalidPolicy && error.message@
                == "Alt-Svc broken backoff needs 0 < initial <= maximum"@,
    {
        if initial.is_zero() || initial.nanos > maximum.nanos {
            return Err(
                BuildError::invalid_policy("Alt-Svc broken backoff needs 0 < initial <= maximum"),
            );
        }
        Ok(AltSvcBrokenBackoff { initial, maximum })
    }

    /// Returns the first broken period.
    pub fn initial(self) -> (r: Duration)
        ensures
            r == self.initial,
    {
        self.initial
    }

    /// Returns the longest broken period.
    pub fn maximum(self) -> (r: Duration)
        ensures
            r == self.maximum,
    {
        self.maximum
    }

    /// Returns the broken period after `previous_failures` earlier failures.
    pub fn period(self, previous_failures: u32) -> (r: Duration)
        ensures
            r.nanos == self.period_nanos(previous_failures as nat),
    {
        let mut period: u128 = self.initial.nanos;
        let mut doubled: u32 = 0;
        proof {
            lemma2_to64();
            assert(self.initial.nanos * pow2(0) == self.initial.nanos);
        }
        if period > self.maximum.nanos {
            proof {
                lemma_pow2_pos(previous_failures as nat);
                assert(self.initial.nanos * pow2(previous_failures as nat) >= self.initial.nanos)
                    by (nonlinear_arith)
                    requires
                        pow2(previous_failures as nat) >= 1,
                ;
            }
            return self.maximum;
        }
        while doubled < previous_failures
            invariant
                doubled <= previous_failures,
                period == self.initial.nanos * pow2(doubled as nat),
                period <= self.maximum.nanos,
            decreases previous_failures - doubled,
        {
            let ghost before = doubled as nat;
            proof {
                lemma_pow2_unfold((before + 1) as nat);
                assert(self.initial.nanos * (2 * pow2(before)) == 2 * (self.initial.nanos * pow2(
                    before,
                ))) by (nonlinear_arith);
            }
            if period > self.maximum.nanos - period {
                proof {
                    lemma_period_grows(self, (before + 1) as nat, previous_failures as nat);
                }
                return self.maximum;
            }
            period = period + period;
            doubled = doubled + 1;
        }
        Duration { nanos: period }
    }
}

proof fn lemma_period_grows(backoff: AltSvcBrokenBackoff, a: nat, b: nat)
    requires
        a <= b,
    ensures
        backoff.initial.nanos * pow2(a) <= backoff.initial.nanos * pow2(b),
{
    if a < b {
        lemma_pow2_strictly_increases(a, b);
    }
    assert(backoff.initial.nanos * pow2(a) <= backoff.initial.nanos * pow2(b)) by (nonlinear_arith)
        requires
            pow2(a) <= pow2(b),
    ;
}

/// The first period is `initial`, each later one is twice the one before it
/// or `maximum` where that is less, and so the periods never shrink.
pub proof fn broken_periods_double_up_to_the_cap(backoff: AltSvcBrokenBackoff, failures: nat)
    requires
        backoff.wf(),
    ensures
        backoff.period_nanos(0) == backoff.initial.nanos,
        backoff.period_nanos(failures + 1) == min(
            2 * backoff.period_nanos(failures) as int,
            backoff.maximum.nanos as int,
        ),
        backoff.initial.nanos <= backoff.period_nanos(failures) <= backoff.period_nanos(
            failures + 1,
        ) <= backoff.maximum.nanos,
{
    lemma2_to64();
    assert(backoff.initial.nanos * pow2(0) == backoff.initial.nanos);
    lemma_pow2_unfold((failures + 1) as nat);
    lemma_period_grows(backoff, 0, failures);
    lemma_period_grows(backoff, failures, failures + 1);
    assert(backoff.initial.nanos as nat * (2 * pow2(failures)) == 2 * (backoff.initial.nanos as nat
        * pow2(failures))) by (nonlinear_arith);
}

} // verus!
