//! Negotiated HTTP/1.1-or-HTTP/2 connections, grouped by origin and route.
//!
//! Each pool key keeps up to `max_http2_connections` reusable HTTP/2
//! connections, one by default, which carry all of the key's HTTP/2 requests,
//! and up to `max_http1_active` connections that are HTTP/1.1 or still in
//! setup. A request reuses an HTTP/2 connection when one has room, then the
//! most recently used idle HTTP/1.1 connection, and otherwise opens a
//! connection whose protocol ALPN chooses.
//!
//! Concurrent requests to a key that has never selected HTTP/2 open
//! connections in parallel, up to the HTTP/1.1 bound. Once a connection to
//! the key has selected HTTP/2, a request that finds another connection to
//! the key in setup waits for that setup to finish instead of opening one of
//! its own.

use vstd::prelude::*;
use crate::endpoint::{Endpoint, HttpProtocol, Route};
use crate::error::{RequestError, RequestErrorKind};
use crate::lru::{lookup, position, touched};
use crate::pool::admission::{Admission, AdmissionRegistry};
use crate::pool::entries::{Entered, Entries};
use crate::pool::http2_connections::Http2Spread;
use crate::pool::http2_keys::Http2Keys;
use crate::pool::key::{key_of, KeyMode, PoolKey, PoolKeyView};
use crate::pool::negotiated::{Acquired, BeforeAdmission, ConnectionsView, EntryConnections};
use crate::time::{Duration, Instant};
use crate::timeout::{invalid_timeout, PhasePoll, PhaseTimeout, TimeoutBudget, TimeoutPhase};

verus! {

/// The limits of the pool.
#[derive(Clone, Copy, Debug, PartialEq, Eq, Structural)]
pub struct NegotiatedLimits {
    pub capacity: usize,
    pub max_http1_active: usize,
    pub max_http1_pending: usize,
    pub max_http2_active: usize,
    pub max_http2_pending: usize,
    pub max_http2_connections: usize,
    /// Longest wait for a setup in flight to a key that selected HTTP/2
    /// before.
    pub setup_wait_limit: Option<Duration>,
}

/// The larger of two bounds.
pub open spec fn higher(a: usize, b: usize) -> usize {
    if a < b {
        b
    } else {
        a
    }
}

fn max_of(a: usize, b: usize) -> (r: usize)
    ensures
        r == higher(a, b),
{
    if a < b {
        b
    } else {
        a
    }
}

impl NegotiatedLimits {
    /// Every bound is positive.
    pub open spec fn wf(self) -> bool {
        &&& self.capacity > 0
        &&& self.max_http1_active > 0
        &&& self.max_http1_pending > 0
        &&& self.max_http2_active > 0
        &&& self.max_http2_pending > 0
        &&& self.max_http2_connections > 0
    }

    /// The bounds on requests that hold no protocol-specific admission yet.
    pub open spec fn selection(self) -> (usize, usize) {
        (
            higher(self.max_http1_active, self.max_http2_active),
            higher(self.max_http1_pending, self.max_http2_pending),
        )
    }

    /// Bounds requests that hold no protocol-specific admission yet.
    ///
    /// ALPN has not chosen a protocol at this point, so the bound takes the
    /// larger active and waiting limit of the two protocols. Every request
    /// that the selected protocol could run or queue is therefore admitted.
    pub fn selection_limits(&self) -> (r: (usize, usize))
        ensures
            r == self.selection(),
    {
        (
            max_of(self.max_http1_active, self.max_http2_active),
            max_of(self.max_http1_pending, self.max_http2_pending),
        )
    }
}

/// The pool's entries, admissions and memory.
#[derive(Debug)]
pub struct Http1Or2Pool {
    pub limits: NegotiatedLimits,
    pub entries: Entries,
    pub selection_admissions: AdmissionRegistry<PoolKey>,
    pub http1_admissions: AdmissionRegistry<PoolKey>,
    pub http2_admissions: AdmissionRegistry<PoolKey>,
    pub http2_keys: Http2Keys,
}

/// The entry of a request, with its connections if the request made it.
#[derive(Debug)]
pub struct NegotiatedEntry {
    pub entered: Entered,
    pub connections: Option<EntryConnections>,
}

impl Http1Or2Pool {
    /// The bounds of entries and admissions are kept.
    pub open spec fn wf(&self) -> bool {
        &&& self.limits.wf()
        &&& self.entries.wf()
        &&& self.entries.bound() == self.limits.capacity
        &&& self.selection_admissions.wf()
        &&& self.selection_admissions.bounds() == self.limits.selection()
        &&& self.http1_admissions.wf()
        &&& self.http1_admissions.bounds() == (
            self.limits.max_http1_active,
            self.limits.max_http1_pending,
        )
        &&& self.http2_admissions.wf()
        &&& self.http2_admissions.bounds() == (
            self.limits.max_http2_active,
            self.limits.max_http2_pending,
        )
        &&& self.http2_keys.wf()
    }

    /// A pool that keeps as many entries as both protocols allow, with one
    /// HTTP/2 connection per key and no limit on waiting for a setup.
    pub fn new(
        http1_capacity: usize,
        max_http1_active: usize,
        max_http1_pending: usize,
        http2_capacity: usize,
        max_http2_active: usize,
        max_http2_pending: usize,
    ) -> (r: Self)
        requires
            http1_capacity > 0,
            max_http1_active > 0,
            max_http1_pending > 0,
            http2_capacity > 0,
            max_http2_active > 0,
            max_http2_pending > 0,
        ensures
            r.wf(),
            r.limits == (NegotiatedLimits {
                capacity: if http1_capacity < http2_capacity {
                    http1_capacity
                } else {
                    http2_capacity
                },
                max_http1_active,
                max_http1_pending,
                max_http2_active,
                max_http2_pending,
                max_http2_connections: 1,
                setup_wait_limit: None,
            }),
            r.entries@.len() == 0,
            r.entries.next() == 0,
            r.http2_keys@.len() == 0,
    {
        let limits = NegotiatedLimits {
            capacity: if http1_capacity < http2_capacity {
                http1_capacity
            } else {
                http2_capacity
            },
            max_http1_active,
            max_http1_pending,
            max_http2_active,
            max_http2_pending,
            max_http2_connections: 1,
            setup_wait_limit: None,
        };
        let (active, pending): (usize, usize) = limits.selection_limits();
        Http1Or2Pool {
            limits,
            entries: Entries::new(limits.capacity),
            selection_admissions: AdmissionRegistry::new(active, pending),
            http1_admissions: AdmissionRegistry::new(max_http1_active, max_http1_pending),
            http2_admissions: AdmissionRegistry::new(max_http2_active, max_http2_pending),
            http2_keys: Http2Keys::new(),
        }
    }

    /// Lets each pool key keep up to `maximum` HTTP/2 connections.
    pub fn with_max_http2_connections(self, maximum: usize) -> (r: Self)
        requires
            self.wf(),
            maximum > 0,
        ensures
            r.wf(),
            r.limits == (NegotiatedLimits { max_http2_connections: maximum, ..self.limits }),
            r.entries == self.entries,
            r.selection_admissions == self.selection_admissions,
            r.http1_admissions == self.http1_admissions,
            r.http2_admissions == self.http2_admissions,
            r.http2_keys == self.http2_keys,
    {
        let limits = NegotiatedLimits { max_http2_connections: maximum, ..self.limits };
        Http1Or2Pool { limits, ..self }
    }

    /// Bounds how long a request waits for another request's setup to a key
    /// that selected HTTP/2 before; `None` waits until it finishes.
    pub fn with_setup_wait_limit(self, limit: Option<Duration>) -> (r: Self)
        requires
            self.wf(),
        ensures
            r.wf(),
            r.limits == (NegotiatedLimits { setup_wait_limit: limit, ..self.limits }),
            r.entries == self.entries,
            r.selection_admissions == self.selection_admissions,
            r.http1_admissions == self.http1_admissions,
            r.http2_admissions == self.http2_admissions,
            r.http2_keys == self.http2_keys,
    {
        let limits = NegotiatedLimits { setup_wait_limit: limit, ..self.limits };
        Http1Or2Pool { limits, ..self }
    }

    /// The connections of a new entry.
    pub open spec fn fresh_connections(&self, selected_http2: bool) -> ConnectionsView {
        ConnectionsView {
            max_http1: self.limits.max_http1_active,
            http2: Seq::empty(),
            spread: Http2Spread {
                max_connections: self.limits.max_http2_connections,
                local_streams: self.limits.max_http2_active,
                learned_peer_limit: None,
            },
            http1_idle: Seq::empty(),
            http1_leased: 0,
            connecting: 0,
            selected_http2,
        }
    }

    /// Returns the entry of an origin over a route. A new entry knows whether
    /// the key selected HTTP/2 before.
    pub fn entry(&mut self, endpoint: &Endpoint, route: &Route) -> (r: NegotiatedEntry)
        requires
            old(self).wf(),
            old(self).entries.next() < u64::MAX,
        ensures
            final(self).wf(),
            final(self).limits == old(self).limits,
            final(self).selection_admissions == old(self).selection_admissions,
            final(self).http1_admissions == old(self).http1_admissions,
            final(self).http2_admissions == old(self).http2_admissions,
            final(self).entries@ == old(self).entries.after(
                key_of(endpoint, route, KeyMode::Negotiated),
            ),
            r.entered == old(self).entries.entered(key_of(endpoint, route, KeyMode::Negotiated)),
            final(self).entries.next() == old(self).entries.next() + (if r.entered.created {
                1int
            } else {
                0
            }),
            r.entered.created <==> r.connections is Some,
            match r.connections {
                Some(connections) => connections@ == old(self).fresh_connections(
                    position(old(self).http2_keys@, key_of(endpoint, route, KeyMode::Negotiated))
                        is Some,
                ) && connections@.wf() && final(self).http2_keys@ == touched(
                    old(self).http2_keys@,
                    key_of(endpoint, route, KeyMode::Negotiated),
                ),
                None => final(self).http2_keys == old(self).http2_keys,
            },
    {
        let key = PoolKey::new(endpoint, route, KeyMode::Negotiated);
        let copy = key.clone();
        let entered = self.entries.enter(key);
        let connections = if entered.created {
            let selected = self.http2_keys.contains(&copy);
            Some(
                EntryConnections::new(
                    self.limits.max_http1_active,
                    Http2Spread::new(self.limits.max_http2_connections, self.limits.max_http2_active),
                    selected,
                ),
            )
        } else {
            None
        };
        NegotiatedEntry { entered, connections }
    }

    /// Returns the entry of an origin over a route if there is one, without
    /// making one or changing which leaves first.
    pub fn existing(&self, endpoint: &Endpoint, route: &Route) -> (r: Option<u64>)
        ensures
            r == lookup(self.entries@, key_of(endpoint, route, KeyMode::Negotiated)),
    {
        self.entries.peek(&PoolKey::new(endpoint, route, KeyMode::Negotiated))
    }

    /// Returns whether the origin has a reusable HTTP/2 connection, even one
    /// with no room for another stream. `current` is the one that its entry
    /// names.
    ///
    /// An entry whose only connections are being set up, or are HTTP/1.1,
    /// counts as unavailable.
    pub fn has_available_http2(&self, endpoint: &Endpoint, route: &Route, current: Option<u64>) -> (r:
        bool)
        ensures
            r == (lookup(self.entries@, key_of(endpoint, route, KeyMode::Negotiated)) is Some
                && current is Some),
    {
        self.existing(endpoint, route).is_some() && current.is_some()
    }

    /// The admission of a key for a protocol.
    pub open spec fn admission_at(&self, key: PoolKeyView, protocol: HttpProtocol) -> Result<
        Admission,
        RequestError,
    > {
        match protocol {
            HttpProtocol::Http1 => Ok(self.http1_admissions.at(key)),
            HttpProtocol::Http2 => Ok(self.http2_admissions.at(key)),
            HttpProtocol::Http3 => Err(
                RequestError::of_kind(RequestErrorKind::ProtocolUnavailable, Some(protocol)),
            ),
        }
    }

    /// Returns the admission of one protocol for a key. HTTP/3 has none here.
    pub fn admission(&self, key: &PoolKey, protocol: HttpProtocol) -> (r: Result<
        Admission,
        RequestError,
    >)
        requires
            self.wf(),
        ensures
            r == self.admission_at(key@, protocol),
    {
        match protocol {
            HttpProtocol::Http1 => Ok(self.http1_admissions.get(key)),
            HttpProtocol::Http2 => Ok(self.http2_admissions.get(key)),
            HttpProtocol::Http3 => Err(
                RequestError::new(RequestErrorKind::ProtocolUnavailable, Some(protocol)),
            ),
        }
    }
}

/// A request on its way to a connection.
///
/// The selection admission stays held across setup retry delays and until the
/// selected protocol admits the request, so the request is always counted by
/// one bounded admission; its connection slot is given back during a delay.
#[derive(Clone, Copy, Debug, PartialEq, Eq, Structural)]
pub struct Acquisition {
    /// Skip idle HTTP/1.1 connections.
    pub force_new_connection: bool,
    /// The setup wait limit passed; the request opens a connection of its own
    /// instead of waiting again.
    pub setup_wait_expired: bool,
    /// The deadline of this setup attempt, once it started. It covers waiting
    /// for another request's setup and this request's own.
    pub connect: Option<PhaseTimeout>,
    /// Whether the request holds a connection slot.
    pub slot: bool,
    /// Whether the request holds the selection admission.
    pub selection: bool,
}

/// What a request does next.
#[derive(Clone, Copy, Debug, PartialEq, Eq, Structural)]
pub enum AcquireStep {
    /// Look at the key's connections.
    Look,
    /// Wait for HTTP/2 admission, then open a stream.
    AdmitHttp2,
    /// Wait for a setup in flight, at most the setup wait limit.
    AwaitHttp2Setup,
    /// Wait for any setup in flight.
    AwaitSetup,
    /// Take a connection slot if there is one.
    TrySlot,
    /// Wait for a connection slot.
    QueueSlot(Option<HttpProtocol>),
    /// Check a connection out, opening one if none is free.
    Attempt,
    /// Decide whether a failed setup is retried, after a delay.
    RetryDelay(RequestError),
    /// Send on a leased HTTP/1.1 connection, holding its slot.
    SendHttp1(u64),
    /// Send on a stream of an HTTP/2 connection, holding HTTP/2 admission.
    SendHttp2(u64),
    /// Fail.
    Fail(RequestError),
}

/// What happened.
#[derive(Clone, Copy, Debug, PartialEq, Eq, Structural)]
pub enum AcquireEvent {
    /// What the key's connections offer.
    Looked(BeforeAdmission),
    /// HTTP/2 admitted the request, and a stream was opened on a connection
    /// if one has room.
    Http2Admitted(Option<u64>),
    /// A setup in flight finished, or the setup wait limit passed.
    Http2SetupAwaited { finished: bool },
    /// A setup in flight finished, or none was in flight.
    SetupAwaited { waited: bool },
    /// A slot was free or not.
    SlotTried { granted: bool },
    /// A slot came free.
    SlotGranted,
    /// A connection was checked out or set up.
    Acquired(Acquired),
    /// The attempt failed.
    AttemptFailed(RequestError),
    /// Whether the failed attempt is retried.
    RetryDecided { error: RequestError, retry: bool },
    /// A wait failed.
    WaitFailed(RequestError),
}

impl Acquisition {
    /// A request that holds the selection admission.
    pub fn new(fresh_http1: bool) -> (r: Self)
        ensures
            r == (Acquisition {
                force_new_connection: fresh_http1,
                setup_wait_expired: false,
                connect: None,
                slot: false,
                selection: true,
            }),
    {
        Acquisition {
            force_new_connection: fresh_http1,
            setup_wait_expired: false,
            connect: None,
            slot: false,
            selection: true,
        }
    }

    /// The state without a slot.
    pub open spec fn without_slot(self) -> Acquisition {
        Acquisition { slot: false, ..self }
    }

    /// The state and the step after an event.
    pub open spec fn after(self, event: AcquireEvent) -> (Acquisition, AcquireStep) {
        match event {
            AcquireEvent::Looked(BeforeAdmission::Http2) => (self, AcquireStep::AdmitHttp2),
            AcquireEvent::Looked(BeforeAdmission::AwaitSetup) => (
                self,
                AcquireStep::AwaitHttp2Setup,
            ),
            AcquireEvent::Looked(BeforeAdmission::Admission(protocol)) => (
                self,
                if protocol is Some {
                    AcquireStep::QueueSlot(protocol)
                } else {
                    AcquireStep::TrySlot
                },
            ),
            AcquireEvent::Http2Admitted(Some(connection)) => (
                Acquisition { selection: false, ..self },
                AcquireStep::SendHttp2(connection),
            ),
            AcquireEvent::Http2Admitted(None) => (self, AcquireStep::Look),
            AcquireEvent::Http2SetupAwaited { finished } => (
                Acquisition {
                    setup_wait_expired: self.setup_wait_expired || !finished,
                    ..self
                },
                AcquireStep::Look,
            ),
            AcquireEvent::SlotTried { granted } => if granted {
                (Acquisition { slot: true, ..self }, AcquireStep::Attempt)
            } else {
                (self, AcquireStep::AwaitSetup)
            },
            AcquireEvent::SetupAwaited { waited } => (
                self,
                if waited {
                    AcquireStep::Look
                } else {
                    AcquireStep::QueueSlot(None)
                },
            ),
            AcquireEvent::SlotGranted => (Acquisition { slot: true, ..self }, AcquireStep::Attempt),
            AcquireEvent::Acquired(Acquired::AwaitSetup) => (
                self.without_slot(),
                AcquireStep::Look,
            ),
            AcquireEvent::Acquired(Acquired::Http1(connection)) => (
                Acquisition { selection: false, ..self },
                AcquireStep::SendHttp1(connection),
            ),
            AcquireEvent::Acquired(Acquired::Http2) => (
                Acquisition { force_new_connection: false, slot: false, ..self },
                AcquireStep::AdmitHttp2,
            ),
            AcquireEvent::Acquired(Acquired::Reserved) => (self, AcquireStep::Attempt),
            AcquireEvent::AttemptFailed(error) => (
                Acquisition { connect: None, slot: false, ..self },
                AcquireStep::RetryDelay(error),
            ),
            AcquireEvent::RetryDecided { error, retry } => if retry {
                (self, AcquireStep::Look)
            } else {
                (Acquisition { selection: false, ..self }, AcquireStep::Fail(error))
            },
            AcquireEvent::WaitFailed(error) => (
                Acquisition { slot: false, selection: false, ..self },
                AcquireStep::Fail(error),
            ),
        }
    }

    /// Takes the next step.
    ///
    /// While ALPN has not chosen a protocol for the key, a request that finds
    /// every slot held by a setup in flight waits for a setup to finish
    /// instead of queueing for a slot: the setup may select HTTP/2, which
    /// serves the request without a slot. Only a key with an HTTP/1.1
    /// connection queues requests at the HTTP/1.1 waiting bound.
    pub fn advance(&mut self, event: AcquireEvent) -> (r: AcquireStep)
        ensures
            (*final(self), r) == old(self).after(event),
    {
        match event {
            AcquireEvent::Looked(BeforeAdmission::Http2) => AcquireStep::AdmitHttp2,
            AcquireEvent::Looked(BeforeAdmission::AwaitSetup) => AcquireStep::AwaitHttp2Setup,
            AcquireEvent::Looked(BeforeAdmission::Admission(protocol)) => {
                if protocol.is_some() {
                    AcquireStep::QueueSlot(protocol)
                } else {
                    AcquireStep::TrySlot
                }
            },
            AcquireEvent::Http2Admitted(stream) => {
                match stream {
                    Some(connection) => {
                        self.selection = false;
                        AcquireStep::SendHttp2(connection)
                    },
                    None => AcquireStep::Look,
                }
            },
            AcquireEvent::Http2SetupAwaited { finished } => {
                if !finished {
                    self.setup_wait_expired = true;
                }
                AcquireStep::Look
            },
            AcquireEvent::SlotTried { granted } => {
                if granted {
                    self.slot = true;
                    AcquireStep::Attempt
                } else {
                    AcquireStep::AwaitSetup
                }
            },
            AcquireEvent::SetupAwaited { waited } => {
                if waited {
                    AcquireStep::Look
                } else {
                    AcquireStep::QueueSlot(None)
                }
            },
            AcquireEvent::SlotGranted => {
                self.slot = true;
                AcquireStep::Attempt
            },
            AcquireEvent::Acquired(Acquired::AwaitSetup) => {
                self.slot = false;
                AcquireStep::Look
            },
            AcquireEvent::Acquired(Acquired::Http1(connection)) => {
                self.selection = false;
                AcquireStep::SendHttp1(connection)
            },
            AcquireEvent::Acquired(Acquired::Http2) => {
                self.slot = false;
                self.force_new_connection = false;
                AcquireStep::AdmitHttp2
            },
            AcquireEvent::Acquired(Acquired::Reserved) => AcquireStep::Attempt,
            AcquireEvent::AttemptFailed(error) => {
                self.slot = false;
                self.connect = None;
                AcquireStep::RetryDelay(error)
            },
            AcquireEvent::RetryDecided { error, retry } => {
                if retry {
                    AcquireStep::Look
                } else {
                    self.selection = false;
                    AcquireStep::Fail(error)
                }
            },
            AcquireEvent::WaitFailed(error) => {
                self.slot = false;
                self.selection = false;
                AcquireStep::Fail(error)
            },
        }
    }

    /// The attempt's connect deadline, which starts on first use.
    pub open spec fn connecting(self, budget: TimeoutBudget, now: Instant) -> Result<
        PhaseTimeout,
        RequestError,
    > {
        match self.connect {
            Some(phase) => Ok(phase),
            None => budget.phase_at(TimeoutPhase::Connect, None, now),
        }
    }

    /// The state once the connect deadline was asked for.
    pub open spec fn with_deadline(self, budget: TimeoutBudget, now: Instant) -> Acquisition {
        Acquisition {
            connect: match self.connecting(budget, now) {
                Ok(phase) => Some(phase),
                Err(_) => None,
            },
            ..self
        }
    }

    /// Returns the attempt's connect deadline, starting it on first use.
    pub fn connect_phase(&mut self, budget: TimeoutBudget, now: Instant) -> (r: Result<
        PhaseTimeout,
        RequestError,
    >)
        ensures
            r == old(self).connecting(budget, now),
            *final(self) == old(self).with_deadline(budget, now),
    {
        match self.connect {
            Some(phase) => {
                return Ok(phase);
            },
            None => {},
        }
        match budget.phase(TimeoutPhase::Connect, None, now) {
            Ok(phase) => {
                self.connect = Some(phase);
                Ok(phase)
            },
            Err(error) => Err(error),
        }
    }

    /// The wait for a setup in flight that starts at `now`.
    pub open spec fn waits(
        self,
        limit: Option<Duration>,
        budget: TimeoutBudget,
        now: Instant,
    ) -> Result<SetupWait, RequestError> {
        match (self.connecting(budget, now), limit) {
            (Err(error), _) => Err(error),
            (Ok(connect), None) => Ok(SetupWait { connect, limit: None }),
            (Ok(connect), Some(limit)) => if now.reaches(limit) {
                Ok(SetupWait { connect, limit: Some(now.after(limit)) })
            } else {
                Err(invalid_timeout())
            },
        }
    }

    /// Starts to wait under the attempt's connect deadline, and at most the
    /// setup wait limit, for a setup in flight to a key that selected HTTP/2
    /// before. The wait of a key without a protocol has no limit of its own.
    pub fn await_http2_setup(
        &mut self,
        limit: Option<Duration>,
        budget: TimeoutBudget,
        now: Instant,
    ) -> (r: Result<SetupWait, RequestError>)
        ensures
            r == old(self).waits(limit, budget, now),
            *final(self) == old(self).with_deadline(budget, now),
    {
        let connect = match self.connect_phase(budget, now) {
            Ok(phase) => phase,
            Err(error) => {
                return Err(error);
            },
        };
        match limit {
            None => Ok(SetupWait { connect, limit: None }),
            Some(limit) => match now.checked_add(limit) {
                Some(at) => Ok(SetupWait { connect, limit: Some(at) }),
                None => Err(RequestError::new(RequestErrorKind::InvalidTimeout, None)),
            },
        }
    }
}

/// A wait for a setup in flight.
#[derive(Clone, Copy, Debug, PartialEq, Eq, Structural)]
pub struct SetupWait {
    /// The attempt's connect deadline.
    pub connect: PhaseTimeout,
    /// When the wait ends though the setup has not.
    pub limit: Option<Instant>,
}

/// One look at a wait for a setup in flight.
#[derive(Clone, Copy, Debug, PartialEq, Eq, Structural)]
pub enum SetupPoll {
    /// The setup finished, well or not.
    Finished,
    /// The limit passed first.
    LimitPassed,
    /// The connect deadline passed.
    Failed(RequestError),
    Pending,
}

impl SetupWait {
    /// What a look at `now` finds.
    pub open spec fn polled(self, finished: bool, now: Instant) -> SetupPoll {
        if finished {
            SetupPoll::Finished
        } else if self.limit matches Some(at) && at.nanos <= now.nanos {
            SetupPoll::LimitPassed
        } else if self.connect.deadline matches Some(deadline) && deadline.at.nanos <= now.nanos {
            SetupPoll::Failed(
                RequestError::timed_out(
                    self.connect.deadline->0.phase,
                    self.connect.protocol,
                ),
            )
        } else {
            SetupPoll::Pending
        }
    }

    /// Looks at the wait: a finished setup wins over its limit, and the limit
    /// over the connect deadline.
    pub fn poll(self, finished: bool, now: Instant) -> (r: SetupPoll)
        ensures
            r == self.polled(finished, now),
    {
        if finished {
            return SetupPoll::Finished;
        }
        match self.limit {
            Some(at) => if at.nanos <= now.nanos {
                return SetupPoll::LimitPassed;
            },
            None => {},
        }
        match self.connect.poll(false, now) {
            PhasePoll::Expired(error) => SetupPoll::Failed(error),
            _ => SetupPoll::Pending,
        }
    }
}

/// A setup wait ends at its limit only when one is set; without one and
/// without a connect deadline it lasts until the setup has finished.
pub proof fn a_setup_wait_ends_at_its_limit_only_when_one_is_set(
    wait: SetupWait,
    finished: bool,
    now: Instant,
)
    ensures
        wait.polled(finished, now) == SetupPoll::LimitPassed ==> !finished && wait.limit is Some
            && wait.limit->0.nanos <= now.nanos,
        wait.limit is None && wait.connect.deadline is None && !finished ==> wait.polled(
            finished,
            now,
        ) == SetupPoll::Pending,
{
}

} // verus!
