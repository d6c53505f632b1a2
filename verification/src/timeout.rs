//! Time limits of one request and the deadlines that follow from them.

use vstd::prelude::*;
use crate::endpoint::HttpProtocol;
use crate::error::{RequestError, RequestErrorKind};
use crate::time::{Duration, Instant};

verus! {

/// Time limits for one ordinary HTTP request operation.
///
/// Every limit is disabled by default. Phase limits restart for each redirect,
/// connection retry, or bounded internal replay. The total limit is one
/// absolute deadline shared by every attempt, retry delay, and the final
/// response body.
#[derive(Clone, Copy, Debug, PartialEq, Eq, Structural)]
pub struct RequestTimeouts {
    pub pool_admission: Option<Duration>,
    pub connect: Option<Duration>,
    pub response_head: Option<Duration>,
    pub read_idle: Option<Duration>,
    pub total: Option<Duration>,
}

/// Whether the clock can represent `limit` from `now`.
pub open spec fn representable(limit: Option<Duration>, now: Instant) -> bool {
    limit matches Some(length) ==> now.reaches(length)
}

impl Default for RequestTimeouts {
    fn default() -> (r: Self)
        ensures
            r == Self::disabled(),
    {
        Self::new()
    }
}

impl RequestTimeouts {
    /// No limit at all.
    pub open spec fn disabled() -> Self {
        RequestTimeouts {
            pool_admission: None,
            connect: None,
            response_head: None,
            read_idle: None,
            total: None,
        }
    }

    /// Whether the clock can represent every limit from `now`.
    pub open spec fn valid(self, now: Instant) -> bool {
        &&& representable(self.pool_admission, now)
        &&& representable(self.connect, now)
        &&& representable(self.response_head, now)
        &&& representable(self.read_idle, now)
        &&& representable(self.total, now)
    }

    /// The limit of `phase` alone.
    pub open spec fn phase_limit(self, phase: TimeoutPhase) -> Option<Duration> {
        match phase {
            TimeoutPhase::PoolAdmission => self.pool_admission,
            TimeoutPhase::Connect => self.connect,
            TimeoutPhase::ResponseHead => self.response_head,
            TimeoutPhase::WebSocketHandshake => None,
            TimeoutPhase::ReadIdle => None,
            TimeoutPhase::Total => None,
        }
    }

    /// Creates a policy with every timeout disabled.
    pub fn new() -> (r: Self)
        ensures
            r == Self::disabled(),
    {
        RequestTimeouts {
            pool_admission: None,
            connect: None,
            response_head: None,
            read_idle: None,
            total: None,
        }
    }

    /// The limits with this one.
    pub open spec fn with_pool_admission(self, timeout: Duration) -> Self {
        RequestTimeouts { pool_admission: Some(timeout), ..self }
    }

    /// Limits how long a request may wait for local pool admission.
    pub fn pool_admission(self, timeout: Duration) -> (r: Self)
        ensures
            r == self.with_pool_admission(timeout),
    {
        RequestTimeouts { pool_admission: Some(timeout), ..self }
    }

    /// The limits with this one.
    pub open spec fn with_connect(self, timeout: Duration) -> Self {
        RequestTimeouts { connect: Some(timeout), ..self }
    }

    /// Limits connection establishment, including DNS, proxy, TLS, and protocol setup.
    pub fn connect(self, timeout: Duration) -> (r: Self)
        ensures
            r == self.with_connect(timeout),
    {
        RequestTimeouts { connect: Some(timeout), ..self }
    }

    /// The limits with this one.
    pub open spec fn with_response_head(self, timeout: Duration) -> Self {
        RequestTimeouts { response_head: Some(timeout), ..self }
    }

    /// Limits dispatch through receipt of the final response head.
    ///
    /// This phase includes sending the request body, whether owned or
    /// streamed, as well as waiting for response headers.
    pub fn response_head(self, timeout: Duration) -> (r: Self)
        ensures
            r == self.with_response_head(timeout),
    {
        RequestTimeouts { response_head: Some(timeout), ..self }
    }

    /// The limits with this one.
    pub open spec fn with_read_idle(self, timeout: Duration) -> Self {
        RequestTimeouts { read_idle: Some(timeout), ..self }
    }

    /// Limits inactivity between response-body frames.
    pub fn read_idle(self, timeout: Duration) -> (r: Self)
        ensures
            r == self.with_read_idle(timeout),
    {
        RequestTimeouts { read_idle: Some(timeout), ..self }
    }

    /// The limits with this one.
    pub open spec fn with_total(self, timeout: Duration) -> Self {
        RequestTimeouts { total: Some(timeout), ..self }
    }

    /// Limits the complete operation across redirects, replays, and body reads.
    pub fn total(self, timeout: Duration) -> (r: Self)
        ensures
            r == self.with_total(timeout),
    {
        RequestTimeouts { total: Some(timeout), ..self }
    }

    /// Returns the pool-admission limit.
    pub fn pool_admission_duration(self) -> (r: Option<Duration>)
        ensures
            r == self.pool_admission,
    {
        self.pool_admission
    }

    /// Returns the connection-establishment limit.
    pub fn connect_duration(self) -> (r: Option<Duration>)
        ensures
            r == self.connect,
    {
        self.connect
    }

    /// Returns the response-head limit.
    pub fn response_head_duration(self) -> (r: Option<Duration>)
        ensures
            r == self.response_head,
    {
        self.response_head
    }

    /// Returns the response-body inactivity limit.
    pub fn read_idle_duration(self) -> (r: Option<Duration>)
        ensures
            r == self.read_idle,
    {
        self.read_idle
    }

    /// Returns the whole-operation limit.
    pub fn total_duration(self) -> (r: Option<Duration>)
        ensures
            r == self.total,
    {
        self.total
    }

    /// Whether the clock can represent every limit from `now`.
    pub fn validate(self, now: Instant) -> (r: bool)
        ensures
            r == self.valid(now),
    {
        fits(self.pool_admission, now) && fits(self.connect, now) && fits(self.response_head, now)
            && fits(self.read_idle, now) && fits(self.total, now)
    }
}

fn fits(limit: Option<Duration>, now: Instant) -> (r: bool)
    ensures
        r == representable(limit, now),
{
    match limit {
        Some(length) => now.checked_add(length).is_some(),
        None => true,
    }
}

/// Named request phase that exhausted its configured time budget.
#[derive(Clone, Copy, Debug, PartialEq, Eq, Structural)]
pub enum TimeoutPhase {
    /// Waiting for local connection or stream admission.
    PoolAdmission,
    /// DNS, proxy, transport, TLS, or protocol connection setup.
    Connect,
    /// Request dispatch through the final response head.
    ResponseHead,
    /// A WebSocket opening through its final response head.
    WebSocketHandshake,
    /// Waiting for the next response-body frame after read inactivity.
    ReadIdle,
    /// The absolute whole-operation deadline.
    Total,
}

impl TimeoutPhase {
    /// The name of this phase in traces.
    pub open spec fn name(self) -> Seq<char> {
        match self {
            TimeoutPhase::PoolAdmission => "pool_admission"@,
            TimeoutPhase::Connect => "connect"@,
            TimeoutPhase::ResponseHead => "response_head"@,
            TimeoutPhase::WebSocketHandshake => "websocket_handshake"@,
            TimeoutPhase::ReadIdle => "read_idle"@,
            TimeoutPhase::Total => "total"@,
        }
    }

    /// Returns the name of this phase in traces.
    pub fn trace_name(self) -> (r: &'static str)
        ensures
            r@ == self.name(),
    {
        match self {
            TimeoutPhase::PoolAdmission => "pool_admission",
            TimeoutPhase::Connect => "connect",
            TimeoutPhase::ResponseHead => "response_head",
            TimeoutPhase::WebSocketHandshake => "websocket_handshake",
            TimeoutPhase::ReadIdle => "read_idle",
            TimeoutPhase::Total => "total",
        }
    }
}

/// A point of time and the phase whose limit it is.
#[derive(Clone, Copy, Debug, PartialEq, Eq, Structural)]
pub struct Deadline {
    pub at: Instant,
    pub phase: TimeoutPhase,
}

/// The limits of one request and its absolute total deadline.
#[derive(Clone, Copy, Debug, PartialEq, Eq, Structural)]
pub struct TimeoutBudget {
    pub policy: RequestTimeouts,
    pub total_deadline: Option<Instant>,
}

/// The deadline of one phase.
#[derive(Clone, Copy, Debug, PartialEq, Eq, Structural)]
pub struct PhaseTimeout {
    pub deadline: Option<Deadline>,
    pub protocol: Option<HttpProtocol>,
}

/// What an operation under a phase deadline has come to.
#[derive(Clone, Copy, Debug, PartialEq, Eq, Structural)]
pub enum PhasePoll {
    /// The operation has its own result.
    Complete,
    /// The deadline passed first.
    Expired(RequestError),
    Pending,
}

/// How a retry delay ends.
#[derive(Clone, Copy, Debug, PartialEq, Eq, Structural)]
pub enum Delay {
    /// Nothing to wait for.
    Elapsed,
    /// Wait until this point, then go on.
    Until(Instant),
    /// Wait until this point, then fail: the total deadline comes first.
    FailAt(Instant, RequestError),
}

/// The total-deadline failure.
pub open spec fn total_expired(protocol: Option<HttpProtocol>) -> RequestError {
    RequestError {
        kind: RequestErrorKind::Timeout,
        phase: Some(TimeoutPhase::Total),
        protocol,
        http3: None,
    }
}

/// A limit beyond the clock's range.
pub open spec fn invalid_timeout() -> RequestError {
    RequestError::of_kind(RequestErrorKind::InvalidTimeout, None)
}

/// The point `limit` after `now`.
pub open spec fn limit_from(limit: Option<Duration>, now: Instant) -> Option<Instant> {
    match limit {
        Some(length) => Some(now.after(length)),
        None => None,
    }
}

/// The earlier of a phase's own deadline and the total deadline; at a tie the
/// total deadline is the one that counts.
pub open spec fn earlier(
    phase: TimeoutPhase,
    own: Option<Instant>,
    total: Option<Instant>,
) -> Option<Deadline> {
    match (own, total) {
        (None, None) => None,
        (Some(at), None) => Some(Deadline { at, phase }),
        (None, Some(at)) => Some(Deadline { at, phase: TimeoutPhase::Total }),
        (Some(own_at), Some(total_at)) => if total_at.nanos <= own_at.nanos {
            Some(Deadline { at: total_at, phase: TimeoutPhase::Total })
        } else {
            Some(Deadline { at: own_at, phase })
        },
    }
}

fn checked_limit(limit: Option<Duration>, now: Instant) -> (r: Result<Option<Instant>, RequestError>)
    ensures
        r == (if representable(limit, now) {
            Ok(limit_from(limit, now))
        } else {
            Err(invalid_timeout())
        }),
{
    match limit {
        Some(length) => match now.checked_add(length) {
            Some(at) => Ok(Some(at)),
            None => Err(RequestError::new(RequestErrorKind::InvalidTimeout, None)),
        },
        None => Ok(None),
    }
}

impl TimeoutBudget {
    /// The budget of an operation that starts at `now`.
    pub open spec fn started(policy: RequestTimeouts, now: Instant) -> Result<Self, RequestError> {
        if policy.valid(now) {
            Ok(TimeoutBudget { policy, total_deadline: limit_from(policy.total, now) })
        } else {
            Err(invalid_timeout())
        }
    }

    /// The limits of a response body that starts at `now`.
    pub open spec fn body_at(self, protocol: HttpProtocol, now: Instant) -> Result<
        Option<ResponseTimeouts>,
        RequestError,
    > {
        if self.policy.read_idle is None && self.total_deadline is None {
            Ok(None)
        } else if representable(self.policy.read_idle, now) {
            Ok(
                Some(
                    ResponseTimeouts {
                        idle_duration: self.policy.read_idle,
                        idle: limit_from(self.policy.read_idle, now),
                        total: self.total_deadline,
                        protocol,
                    },
                ),
            )
        } else {
            Err(invalid_timeout())
        }
    }

    /// The time left at `now` before the total deadline.
    pub open spec fn remaining_at(self, now: Instant) -> Option<Duration> {
        match self.total_deadline {
            Some(at) => Some(
                Duration {
                    nanos: (if at.nanos >= now.nanos {
                        at.nanos - now.nanos
                    } else {
                        0
                    }) as u128,
                },
            ),
            None => None,
        }
    }

    /// How a delay of `duration` from `now` ends.
    pub open spec fn delayed(
        self,
        duration: Duration,
        protocol: Option<HttpProtocol>,
        now: Instant,
    ) -> Result<Delay, RequestError> {
        if self.total_deadline matches Some(at) && at.nanos <= now.nanos {
            Err(total_expired(protocol))
        } else if duration.nanos == 0 {
            Ok(Delay::Elapsed)
        } else if !now.reaches(duration) {
            Err(invalid_timeout())
        } else if self.total_deadline matches Some(at) && at.nanos <= now.after(duration).nanos {
            Ok(Delay::FailAt(self.total_deadline->0, total_expired(protocol)))
        } else {
            Ok(Delay::Until(now.after(duration)))
        }
    }

    /// Starts the total deadline at `now`.
    pub fn new(policy: RequestTimeouts, now: Instant) -> (r: Result<Self, RequestError>)
        ensures
            r == Self::started(policy, now),
    {
        if !policy.validate(now) {
            return Err(RequestError::new(RequestErrorKind::InvalidTimeout, None));
        }
        match checked_limit(policy.total, now) {
            Ok(total_deadline) => Ok(TimeoutBudget { policy, total_deadline }),
            Err(error) => Err(error),
        }
    }

    /// The deadline of `phase` when it starts at `now`.
    pub open spec fn deadline_at(self, phase: TimeoutPhase, now: Instant) -> Option<Deadline> {
        earlier(phase, limit_from(self.policy.phase_limit(phase), now), self.total_deadline)
    }

    /// Returns the deadline of `phase` when it starts at `now`.
    pub fn deadline(self, phase: TimeoutPhase, now: Instant) -> (r: Result<
        Option<Deadline>,
        RequestError,
    >)
        ensures
            r == (if representable(self.policy.phase_limit(phase), now) {
                Ok(self.deadline_at(phase, now))
            } else {
                Err(invalid_timeout())
            }),
            r matches Ok(Some(deadline)) ==> (self.total_deadline matches Some(total)
                ==> deadline.at.nanos <= total.nanos),
    {
        let limit = match phase {
            TimeoutPhase::PoolAdmission => self.policy.pool_admission,
            TimeoutPhase::Connect => self.policy.connect,
            TimeoutPhase::ResponseHead => self.policy.response_head,
            TimeoutPhase::WebSocketHandshake => None,
            TimeoutPhase::ReadIdle => None,
            TimeoutPhase::Total => None,
        };
        let own = match checked_limit(limit, now) {
            Ok(own) => own,
            Err(error) => return Err(error),
        };
        Ok(
            match (own, self.total_deadline) {
                (None, None) => None,
                (Some(at), None) => Some(Deadline { at, phase }),
                (None, Some(at)) => Some(Deadline { at, phase: TimeoutPhase::Total }),
                (Some(own_at), Some(total_at)) => if total_at.nanos <= own_at.nanos {
                    Some(Deadline { at: total_at, phase: TimeoutPhase::Total })
                } else {
                    Some(Deadline { at: own_at, phase })
                },
            },
        )
    }

    /// `phase` when it starts at `now`.
    pub open spec fn phase_at(
        self,
        phase: TimeoutPhase,
        protocol: Option<HttpProtocol>,
        now: Instant,
    ) -> Result<PhaseTimeout, RequestError> {
        if representable(self.policy.phase_limit(phase), now) {
            Ok(PhaseTimeout { deadline: self.deadline_at(phase, now), protocol })
        } else {
            Err(invalid_timeout())
        }
    }

    /// Starts `phase` at `now`.
    pub fn phase(
        self,
        phase: TimeoutPhase,
        protocol: Option<HttpProtocol>,
        now: Instant,
    ) -> (r: Result<PhaseTimeout, RequestError>)
        ensures
            r == self.phase_at(phase, protocol, now),
    {
        match self.deadline(phase, now) {
            Ok(deadline) => Ok(PhaseTimeout { deadline, protocol }),
            Err(error) => Err(error),
        }
    }

    /// Starts the limits of a response body at `now`; none when the policy
    /// sets no read-idle or total limit.
    pub fn response_body(self, protocol: HttpProtocol, now: Instant) -> (r: Result<
        Option<ResponseTimeouts>,
        RequestError,
    >)
        ensures
            r == self.body_at(protocol, now),
    {
        if self.policy.read_idle.is_none() && self.total_deadline.is_none() {
            return Ok(None);
        }
        match checked_limit(self.policy.read_idle, now) {
            Ok(idle) => Ok(
                Some(
                    ResponseTimeouts {
                        idle_duration: self.policy.read_idle,
                        idle,
                        total: self.total_deadline,
                        protocol,
                    },
                ),
            ),
            Err(error) => Err(error),
        }
    }

    /// Returns the time left at `now` before the total deadline, or `None`
    /// when the operation has no total limit. An expired deadline returns
    /// zero.
    pub fn remaining_total(self, now: Instant) -> (r: Option<Duration>)
        ensures
            r == self.remaining_at(now),
    {
        match self.total_deadline {
            Some(at) => Some(at.saturating_duration_since(now)),
            None => None,
        }
    }

    /// Decides how a delay of `duration` from `now` ends: an expired total
    /// deadline fails at once, one that comes no later than the delay's end
    /// fails when it comes.
    pub fn delay(
        self,
        duration: Duration,
        protocol: Option<HttpProtocol>,
        now: Instant,
    ) -> (r: Result<Delay, RequestError>)
        ensures
            r == self.delayed(duration, protocol, now),
    {
        match self.total_deadline {
            Some(at) => if at.nanos <= now.nanos {
                return Err(RequestError::timeout(TimeoutPhase::Total, protocol));
            },
            None => {},
        }
        if duration.is_zero() {
            return Ok(Delay::Elapsed);
        }
        let end = match now.checked_add(duration) {
            Some(end) => end,
            None => return Err(RequestError::new(RequestErrorKind::InvalidTimeout, None)),
        };
        match self.total_deadline {
            Some(at) => if at.nanos <= end.nanos {
                return Ok(
                    Delay::FailAt(at, RequestError::timeout(TimeoutPhase::Total, protocol)),
                );
            },
            None => {},
        }
        Ok(Delay::Until(end))
    }
}

impl PhaseTimeout {
    /// What one poll at `now` comes to.
    pub open spec fn polled(self, ready: bool, now: Instant) -> PhasePoll {
        if ready {
            PhasePoll::Complete
        } else {
            match self.deadline {
                Some(deadline) => if deadline.at.nanos <= now.nanos {
                    PhasePoll::Expired(
                        RequestError {
                            kind: RequestErrorKind::Timeout,
                            phase: Some(deadline.phase),
                            protocol: self.protocol,
                            http3: None,
                        },
                    )
                } else {
                    PhasePoll::Pending
                },
                None => PhasePoll::Pending,
            }
        }
    }

    /// Decides one poll at `now`: a ready operation wins even when the
    /// deadline has passed too.
    pub fn poll(self, ready: bool, now: Instant) -> (r: PhasePoll)
        ensures
            r == self.polled(ready, now),
    {
        if ready {
            return PhasePoll::Complete;
        }
        match self.deadline {
            Some(deadline) => if deadline.at.nanos <= now.nanos {
                PhasePoll::Expired(RequestError::timeout(deadline.phase, self.protocol))
            } else {
                PhasePoll::Pending
            },
            None => PhasePoll::Pending,
        }
    }
}

/// The running limits of a response body.
#[derive(Clone, Copy, Debug, PartialEq, Eq, Structural)]
pub struct ResponseTimeouts {
    pub idle_duration: Option<Duration>,
    pub idle: Option<Instant>,
    pub total: Option<Instant>,
    pub protocol: HttpProtocol,
}

/// Whether a deadline has passed at `now`.
pub open spec fn passed(deadline: Option<Instant>, now: Instant) -> bool {
    deadline matches Some(at) && at.nanos <= now.nanos
}

impl ResponseTimeouts {
    /// The limit that has passed at `now`.
    pub open spec fn expired_at(self, now: Instant) -> Option<RequestError> {
        if passed(self.total, now) {
            Some(total_expired(Some(self.protocol)))
        } else if passed(self.idle, now) {
            Some(
                RequestError {
                    kind: RequestErrorKind::Timeout,
                    phase: Some(TimeoutPhase::ReadIdle),
                    protocol: Some(self.protocol),
                    http3: None,
                },
            )
        } else {
            None
        }
    }

    /// The limits after a body frame arrived at `now`.
    pub open spec fn active_at(self, now: Instant) -> (Self, Result<(), RequestError>) {
        if !representable(self.idle_duration, now) {
            (self, Err(invalid_timeout()))
        } else if self.idle_duration is Some && self.idle is Some {
            (ResponseTimeouts { idle: limit_from(self.idle_duration, now), ..self }, Ok(()))
        } else {
            (self, Ok(()))
        }
    }

    /// Returns the limit that has passed at `now`; the total limit comes
    /// before the idle one.
    pub fn poll_expired(&self, now: Instant) -> (r: Option<RequestError>)
        ensures
            r == self.expired_at(now),
    {
        match self.total {
            Some(at) => if at.nanos <= now.nanos {
                return Some(RequestError::timeout(TimeoutPhase::Total, Some(self.protocol)));
            },
            None => {},
        }
        match self.idle {
            Some(at) => if at.nanos <= now.nanos {
                return Some(RequestError::timeout(TimeoutPhase::ReadIdle, Some(self.protocol)));
            },
            None => {},
        }
        None
    }

    /// Restarts the idle limit at `now`, after a body frame arrived.
    pub fn record_activity(&mut self, now: Instant) -> (r: Result<(), RequestError>)
        ensures
            (*final(self), r) == old(self).active_at(now),
    {
        match checked_limit(self.idle_duration, now) {
            Ok(Some(at)) => {
                if self.idle.is_some() {
                    self.idle = Some(at);
                }
                Ok(())
            },
            Ok(None) => Ok(()),
            Err(error) => Err(error),
        }
    }
}

/// What a request that ran out of time fails with.
pub open spec fn out_of_time(error: RequestError, phase: TimeoutPhase) -> bool {
    error.kind == RequestErrorKind::Timeout && error.phase == Some(phase)
}

/// However often a phase restarts, it never outlives the total deadline: a
/// pending operation has failed by the time the total deadline has passed.
pub proof fn total_deadline_bounds_every_phase(
    budget: TimeoutBudget,
    phase: TimeoutPhase,
    started: Instant,
    now: Instant,
)
    requires
        passed(budget.total_deadline, now),
    ensures
        budget.deadline_at(phase, started) matches Some(deadline) && deadline.at.nanos <= now.nanos,
{
}

/// Whether `limit`, where there is one, has run out at `now` when it started
/// at `start`.
pub open spec fn run_out(limit: Option<Duration>, start: Instant, now: Instant) -> bool {
    limit matches Some(length) && start.nanos + length.nanos <= now.nanos
}

/// What becomes of a pending operation at `now`: it fails in the phase whose
/// limit ran out, by `own` or, at the latest, by `total`, and in no other.
pub open spec fn limited(
    poll: PhasePoll,
    protocol: Option<HttpProtocol>,
    phase: TimeoutPhase,
    own: bool,
    total: bool,
) -> bool {
    match poll {
        PhasePoll::Complete => false,
        PhasePoll::Pending => !own && !total,
        PhasePoll::Expired(error) => {
            &&& own || total
            &&& out_of_time(error, phase) || out_of_time(error, TimeoutPhase::Total)
            &&& !total ==> out_of_time(error, phase)
            &&& !own ==> out_of_time(error, TimeoutPhase::Total)
            &&& error.protocol == protocol
        },
    }
}

/// Whether `limit`, counted from `start`, lies beyond what the clock can
/// represent.
pub open spec fn beyond_the_clock(limit: Option<Duration>, start: Instant) -> bool {
    limit matches Some(length) && start.nanos + length.nanos
        > 9_223_372_036_854_775_807_999_999_999
}

/// A phase that starts at `start` with a limit of its own, or cannot start
/// because the clock does not reach that far.
pub open spec fn limited_phase(
    running: Result<PhaseTimeout, RequestError>,
    protocol: Option<HttpProtocol>,
    phase: TimeoutPhase,
    limit: Option<Duration>,
    start: Instant,
    total: bool,
    now: Instant,
) -> bool {
    match running {
        Ok(running) => limited(
            running.polled(false, now),
            protocol,
            phase,
            run_out(limit, start, now),
            total,
        ),
        Err(error) => error.kind == RequestErrorKind::InvalidTimeout && beyond_the_clock(
            limit,
            start,
        ),
    }
}

/// A phase of a request ends by its own limit, measured from its own start,
/// or by the total limit, measured from the start of the request, whichever
/// comes first: pool admission by `pool_admission`, connection setup by
/// `connect`, the response head by `response_head`. It is pending before that
/// and has failed from then on. The other phases have the total limit only.
pub proof fn each_phase_has_its_own_limit(
    policy: RequestTimeouts,
    protocol: Option<HttpProtocol>,
    start: Instant,
    phase_start: Instant,
    now: Instant,
)
    requires
        TimeoutBudget::started(policy, start) is Ok,
    ensures
        ({
            let budget = TimeoutBudget::started(policy, start)->Ok_0;
            let total = run_out(policy.total, start, now);
            &&& limited_phase(
                budget.phase_at(TimeoutPhase::PoolAdmission, protocol, phase_start),
                protocol,
                TimeoutPhase::PoolAdmission,
                policy.pool_admission,
                phase_start,
                total,
                now,
            )
            &&& limited_phase(
                budget.phase_at(TimeoutPhase::Connect, protocol, phase_start),
                protocol,
                TimeoutPhase::Connect,
                policy.connect,
                phase_start,
                total,
                now,
            )
            &&& limited_phase(
                budget.phase_at(TimeoutPhase::ResponseHead, protocol, phase_start),
                protocol,
                TimeoutPhase::ResponseHead,
                policy.response_head,
                phase_start,
                total,
                now,
            )
            &&& forall|phase: TimeoutPhase|
                phase != TimeoutPhase::PoolAdmission && phase != TimeoutPhase::Connect && phase
                    != TimeoutPhase::ResponseHead ==> limited_phase(
                    #[trigger] budget.phase_at(phase, protocol, phase_start),
                    protocol,
                    phase,
                    None,
                    phase_start,
                    total,
                    now,
                )
        }),
{
}

/// Without an earlier total deadline the deadline of a phase is exactly its
/// limit after its start; an earlier or equal total deadline takes its place,
/// and the failure is then the total limit's.
pub proof fn a_phase_ends_at_the_earlier_deadline(
    budget: TimeoutBudget,
    protocol: Option<HttpProtocol>,
    now: Instant,
    length: Duration,
)
    requires
        now.nanos + length.nanos <= 9_223_372_036_854_775_807_999_999_999,
    ensures
        ({
            let ends = |phase: TimeoutPhase|
                match budget.phase_at(phase, protocol, now) {
                    Ok(running) => match (running.deadline, budget.total_deadline) {
                        (Some(deadline), Some(total)) => if total.nanos <= now.nanos + length.nanos {
                            deadline.at == total && deadline.phase == TimeoutPhase::Total
                        } else {
                            deadline.at.nanos == now.nanos + length.nanos && deadline.phase == phase
                        },
                        (Some(deadline), None) => deadline.at.nanos == now.nanos + length.nanos
                            && deadline.phase == phase,
                        (None, _) => false,
                    },
                    Err(_) => false,
                };
            &&& budget.policy.pool_admission == Some(length) ==> ends(TimeoutPhase::PoolAdmission)
            &&& budget.policy.connect == Some(length) ==> ends(TimeoutPhase::Connect)
            &&& budget.policy.response_head == Some(length) ==> ends(TimeoutPhase::ResponseHead)
        }),
{
}

/// A request is refused exactly when one of its limits lies beyond what the
/// clock can represent, with the reason that says so.
pub proof fn a_limit_beyond_the_clock_is_refused(policy: RequestTimeouts, now: Instant)
    ensures
        ({
            let beyond = |limit: Option<Duration>| beyond_the_clock(limit, now);
            match TimeoutBudget::started(policy, now) {
                Ok(budget) => budget.policy == policy && !beyond(policy.pool_admission) && !beyond(
                    policy.connect,
                ) && !beyond(policy.response_head) && !beyond(policy.read_idle) && !beyond(
                    policy.total,
                ),
                Err(error) => error.kind == RequestErrorKind::InvalidTimeout && (beyond(
                    policy.pool_admission,
                ) || beyond(policy.connect) || beyond(policy.response_head) || beyond(
                    policy.read_idle,
                ) || beyond(policy.total)),
            }
        }),
{
}

/// An operation that is ready completes, however late it is.
pub proof fn a_ready_operation_completes(phase: PhaseTimeout, now: Instant)
    ensures
        phase.polled(true, now) == PhasePoll::Complete,
{
}

/// A response body fails once nothing has arrived for the read-idle limit,
/// counted from its last frame, or once the total limit has run out, counted
/// from the start of the request; until then it does not. Without either
/// limit it is not timed.
pub proof fn a_response_body_is_limited_by_idleness_and_in_total(
    policy: RequestTimeouts,
    protocol: HttpProtocol,
    start: Instant,
    body_start: Instant,
    frame: Instant,
    now: Instant,
)
    requires
        TimeoutBudget::started(policy, start) is Ok,
    ensures
        ({
            let budget = TimeoutBudget::started(policy, start)->Ok_0;
            let idle = |from: Instant, error: Option<RequestError>|
                {
                    let total = run_out(policy.total, start, now);
                    let idle = run_out(policy.read_idle, from, now);
                    match error {
                        None => !total && !idle,
                        Some(error) => {
                            &&& total ==> out_of_time(error, TimeoutPhase::Total)
                            &&& !total ==> idle && out_of_time(error, TimeoutPhase::ReadIdle)
                            &&& error.protocol == Some(protocol)
                        },
                    }
                };
            match budget.body_at(protocol, body_start) {
                Ok(None) => policy.read_idle is None && policy.total is None,
                Ok(Some(limits)) => {
                    &&& policy.read_idle is Some || policy.total is Some
                    &&& idle(body_start, limits.expired_at(now))
                    &&& limits.active_at(frame).1 is Ok ==> idle(
                        frame,
                        limits.active_at(frame).0.expired_at(now),
                    )
                    &&& limits.active_at(frame).1 is Err ==> beyond_the_clock(policy.read_idle, frame)
                },
                Err(_) => beyond_the_clock(policy.read_idle, body_start),
            }
        }),
{
}

/// Frames that keep arriving restart the idle limit each time: the last one
/// alone counts.
pub proof fn the_last_frame_restarts_the_idle_limit(
    limits: ResponseTimeouts,
    first: Instant,
    second: Instant,
)
    requires
        limits.active_at(first).1 is Ok,
    ensures
        limits.active_at(first).0.active_at(second).1 == limits.active_at(second).1,
        limits.active_at(second).1 is Ok ==> limits.active_at(first).0.active_at(second).0
            == limits.active_at(second).0,
{
}

/// The time left and the time gone by make up the total limit; past the
/// deadline nothing is left.
pub proof fn time_left_and_time_gone_make_the_total(
    policy: RequestTimeouts,
    start: Instant,
    now: Instant,
)
    requires
        TimeoutBudget::started(policy, start) is Ok,
        start.nanos <= now.nanos,
    ensures
        match (policy.total, TimeoutBudget::started(policy, start)->Ok_0.remaining_at(now)) {
            (Some(total), Some(left)) => if now.nanos - start.nanos <= total.nanos {
                left.nanos + (now.nanos - start.nanos) == total.nanos
            } else {
                left.nanos == 0
            },
            (None, None) => true,
            _ => false,
        },
{
}

/// A retry delay ends after its length unless the total deadline comes first
/// or at the same time: it fails then, and at once where the deadline has
/// passed already. No delay takes no time.
pub proof fn a_delay_ends_with_the_total_deadline(
    budget: TimeoutBudget,
    duration: Duration,
    protocol: Option<HttpProtocol>,
    now: Instant,
)
    ensures
        match budget.delayed(duration, protocol, now) {
            Ok(Delay::Elapsed) => {
                &&& duration.nanos == 0
                &&& budget.total_deadline matches Some(total) ==> total.nanos > now.nanos
            },
            Ok(Delay::Until(at)) => {
                &&& duration.nanos > 0
                &&& at.nanos == now.nanos + duration.nanos
                &&& budget.total_deadline matches Some(total) ==> total.nanos > at.nanos
            },
            Ok(Delay::FailAt(at, error)) => {
                &&& budget.total_deadline == Some(at)
                &&& now.nanos < at.nanos <= now.nanos + duration.nanos
                &&& out_of_time(error, TimeoutPhase::Total)
                &&& error.protocol == protocol
            },
            Err(error) => if budget.total_deadline matches Some(total) && total.nanos <= now.nanos {
                out_of_time(error, TimeoutPhase::Total) && error.protocol == protocol
            } else {
                error.kind == RequestErrorKind::InvalidTimeout && now.nanos + duration.nanos
                    > 9_223_372_036_854_775_807_999_999_999
            },
        },
{
}

/// The phases have the names that traces show, each its own.
pub proof fn phases_are_told_apart_by_name(phase: TimeoutPhase, other: TimeoutPhase)
    ensures
        phase.name() == other.name() ==> phase == other,
        phase.name() == (match phase {
            TimeoutPhase::PoolAdmission => "pool_admission"@,
            TimeoutPhase::Connect => "connect"@,
            TimeoutPhase::ResponseHead => "response_head"@,
            TimeoutPhase::WebSocketHandshake => "websocket_handshake"@,
            TimeoutPhase::ReadIdle => "read_idle"@,
            TimeoutPhase::Total => "total"@,
        }),
{
    reveal_strlit("pool_admission");
    reveal_strlit("connect");
    reveal_strlit("response_head");
    reveal_strlit("websocket_handshake");
    reveal_strlit("read_idle");
    reveal_strlit("total");
    assert("pool_admission"@.len() == 14 && "connect"@.len() == 7 && "response_head"@.len() == 13);
    assert("websocket_handshake"@.len() == 19 && "read_idle"@.len() == 9 && "total"@.len() == 5);
}

/// Each method sets the limit that it is named after, and no other.
pub proof fn each_limit_is_set_by_its_own_method(limits: RequestTimeouts, length: Duration)
    ensures
        limits.with_pool_admission(length) == (RequestTimeouts {
            pool_admission: Some(length),
            ..limits
        }),
        limits.with_connect(length) == (RequestTimeouts { connect: Some(length), ..limits }),
        limits.with_response_head(length) == (RequestTimeouts {
            response_head: Some(length),
            ..limits
        }),
        limits.with_read_idle(length) == (RequestTimeouts { read_idle: Some(length), ..limits }),
        limits.with_total(length) == (RequestTimeouts { total: Some(length), ..limits }),
{
}

} // verus!
