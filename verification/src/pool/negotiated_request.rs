//! One request whose protocol ALPN chooses, from its checks to its response.

use vstd::prelude::*;
use crate::error::RequestError;
use crate::pool::http1_or_2_pool::{AcquireEvent, AcquireStep, Acquisition};
use crate::pool::http1_pool::Sent;
use crate::pool::http2_failure::Http2Failure;

verus! {

/// A connection of the selected protocol, with that protocol's admission.
#[derive(Clone, Copy, Debug, PartialEq, Eq, Structural)]
pub enum Lease {
    Http1(u64),
    /// A stream of an HTTP/2 connection.
    Http2(u64),
}

/// How a request ended, and what became of its lease. A connection is given
/// back before its admission.
#[derive(Clone, Copy, Debug, PartialEq, Eq, Structural)]
pub enum NegotiatedEnd {
    /// The response is handed out; its body holds the lease and the
    /// admission.
    Delivered(Lease),
    /// The request failed without a lease.
    Refused(RequestError),
    /// The request failed; it gives its lease back. An HTTP/1.1 connection
    /// that is retired serves no other request.
    Broken { error: RequestError, lease: Lease, retire: bool },
}

/// Where a request is.
#[derive(Clone, Copy, Debug, PartialEq, Eq, Structural)]
pub enum NegotiatedPhase {
    /// Its checks run.
    Checking,
    /// It waits for admission before a protocol is selected.
    Selecting,
    /// It looks for a connection.
    Acquiring(Acquisition, AcquireStep),
    /// It waits for a response head.
    Sending(Lease),
    Ended(NegotiatedEnd),
}

/// One request.
#[derive(Clone, Copy, Debug, PartialEq, Eq, Structural)]
pub struct NegotiatedRequest {
    /// Whether it may be repeated after a graceful goodbye.
    pub repeatable: bool,
    /// Whether it was repeated.
    pub repeated: bool,
    /// Whether unprocessed requests are replayed.
    pub replays_unprocessed: bool,
    /// Whether its first attempt skips idle HTTP/1.1 connections.
    pub fresh_http1: bool,
    /// A lease that it brings along, from a race.
    pub leased: Option<Lease>,
    pub phase: NegotiatedPhase,
}

/// What happened to a request.
#[derive(Clone, Copy, Debug)]
pub enum NegotiatedEvent {
    /// Its checks passed or failed.
    Checked(Result<(), RequestError>),
    /// It was admitted before selection, or refused, or waited too long.
    Selection(Result<(), RequestError>),
    /// Something happened while it looked for a connection.
    Acquiring(AcquireEvent),
    /// An HTTP/1.1 request was sent.
    Http1Sent(Sent),
    /// An HTTP/2 response head arrived.
    Http2Responded,
    /// An HTTP/2 stream failed.
    Http2Failed(Http2Failure),
    /// A deadline passed, or the HTTP/2 fields could not be prepared.
    Http2Expired(RequestError),
}

/// The phase after a step of the search for a connection.
pub open spec fn searched(acquisition: Acquisition, step: AcquireStep) -> NegotiatedPhase {
    match step {
        AcquireStep::SendHttp1(connection) => NegotiatedPhase::Sending(Lease::Http1(connection)),
        AcquireStep::SendHttp2(connection) => NegotiatedPhase::Sending(Lease::Http2(connection)),
        AcquireStep::Fail(error) => NegotiatedPhase::Ended(NegotiatedEnd::Refused(error)),
        _ => NegotiatedPhase::Acquiring(acquisition, step),
    }
}

fn phase_after(acquisition: Acquisition, step: AcquireStep) -> (r: NegotiatedPhase)
    ensures
        r == searched(acquisition, step),
{
    match step {
        AcquireStep::SendHttp1(connection) => NegotiatedPhase::Sending(Lease::Http1(connection)),
        AcquireStep::SendHttp2(connection) => NegotiatedPhase::Sending(Lease::Http2(connection)),
        AcquireStep::Fail(error) => NegotiatedPhase::Ended(NegotiatedEnd::Refused(error)),
        _ => NegotiatedPhase::Acquiring(acquisition, step),
    }
}

impl NegotiatedRequest {
    /// Whether an event can happen in the request's phase.
    pub open spec fn expects(self, event: NegotiatedEvent) -> bool {
        match event {
            NegotiatedEvent::Checked(_) => self.phase is Checking,
            NegotiatedEvent::Selection(_) => self.phase is Selecting,
            NegotiatedEvent::Acquiring(_) => self.phase is Acquiring,
            NegotiatedEvent::Http1Sent(_) => self.phase matches NegotiatedPhase::Sending(
                Lease::Http1(_),
            ),
            _ => self.phase matches NegotiatedPhase::Sending(Lease::Http2(_)),
        }
    }

    /// The request in another phase.
    pub open spec fn at(self, phase: NegotiatedPhase) -> NegotiatedRequest {
        NegotiatedRequest { phase, ..self }
    }

    /// The request after an event that its phase expects, and the HTTP/2
    /// connection that takes no other stream.
    pub open spec fn after(self, event: NegotiatedEvent) -> (NegotiatedRequest, Option<u64>) {
        match (event, self.phase) {
            (NegotiatedEvent::Checked(Err(error)), _) => (
                self.at(NegotiatedPhase::Ended(NegotiatedEnd::Refused(error))),
                None,
            ),
            (NegotiatedEvent::Checked(Ok(_)), _) => (
                match self.leased {
                    Some(lease) => NegotiatedRequest {
                        leased: None,
                        phase: NegotiatedPhase::Sending(lease),
                        ..self
                    },
                    None => self.at(NegotiatedPhase::Selecting),
                },
                None,
            ),
            (NegotiatedEvent::Selection(Err(error)), _) => (
                self.at(NegotiatedPhase::Ended(NegotiatedEnd::Refused(error))),
                None,
            ),
            (NegotiatedEvent::Selection(Ok(_)), _) => (
                NegotiatedRequest {
                    fresh_http1: false,
                    phase: NegotiatedPhase::Acquiring(
                        Acquisition {
                            force_new_connection: self.fresh_http1,
                            setup_wait_expired: false,
                            connect: None,
                            slot: false,
                            selection: true,
                        },
                        AcquireStep::Look,
                    ),
                    ..self
                },
                None,
            ),
            (NegotiatedEvent::Acquiring(event), NegotiatedPhase::Acquiring(acquisition, _)) => {
                let (next, step) = acquisition.after(event);
                (self.at(searched(next, step)), None)
            },
            (NegotiatedEvent::Http1Sent(sent), NegotiatedPhase::Sending(lease)) => (
                self.at(
                    NegotiatedPhase::Ended(
                        match sent {
                            Sent::Response(_) => NegotiatedEnd::Delivered(lease),
                            Sent::Failed(error) => NegotiatedEnd::Broken {
                                error,
                                lease,
                                retire: false,
                            },
                            Sent::TimedOut(error) => NegotiatedEnd::Broken {
                                error,
                                lease,
                                retire: true,
                            },
                        },
                    ),
                ),
                None,
            ),
            (NegotiatedEvent::Http2Responded, NegotiatedPhase::Sending(lease)) => (
                self.at(NegotiatedPhase::Ended(NegotiatedEnd::Delivered(lease))),
                None,
            ),
            (
                NegotiatedEvent::Http2Failed(failure),
                NegotiatedPhase::Sending(Lease::Http2(connection)),
            ) => {
                let outcome = failure.outcome(
                    self.replays_unprocessed,
                    self.repeatable,
                    self.repeated,
                );
                (
                    if outcome.replay {
                        NegotiatedRequest {
                            repeated: true,
                            phase: NegotiatedPhase::Selecting,
                            ..self
                        }
                    } else {
                        self.at(
                            NegotiatedPhase::Ended(
                                NegotiatedEnd::Broken {
                                    error: failure.error,
                                    lease: Lease::Http2(connection),
                                    retire: false,
                                },
                            ),
                        )
                    },
                    if outcome.invalidate {
                        Some(connection)
                    } else {
                        None
                    },
                )
            },
            (NegotiatedEvent::Http2Expired(error), NegotiatedPhase::Sending(lease)) => (
                self.at(
                    NegotiatedPhase::Ended(NegotiatedEnd::Broken { error, lease, retire: false }),
                ),
                None,
            ),
            _ => (self, None),
        }
    }

    /// A request whose checks run. One with a lease from a race was admitted
    /// already.
    pub fn new(
        repeatable: bool,
        replays_unprocessed: bool,
        fresh_http1: bool,
        leased: Option<Lease>,
    ) -> (r: Self)
        ensures
            r == (NegotiatedRequest {
                repeatable,
                repeated: false,
                replays_unprocessed,
                fresh_http1,
                leased,
                phase: NegotiatedPhase::Checking,
            }),
    {
        NegotiatedRequest {
            repeatable,
            repeated: false,
            replays_unprocessed,
            fresh_http1,
            leased,
            phase: NegotiatedPhase::Checking,
        }
    }

    /// Takes the request on after an event; its new phase says what to do.
    /// Returns the HTTP/2 connection that takes no other stream.
    ///
    /// The protocol's admission is released with a refused stream; the
    /// replacement is admitted and negotiated anew, and may select either
    /// protocol.
    pub fn advance(&mut self, event: NegotiatedEvent) -> (r: Option<u64>)
        requires
            old(self).expects(event),
        ensures
            (*final(self), r) == old(self).after(event),
    {
        match event {
            NegotiatedEvent::Checked(checked) => {
                match checked {
                    Err(error) => {
                        self.phase = NegotiatedPhase::Ended(NegotiatedEnd::Refused(error));
                    },
                    Ok(_) => match self.leased {
                        Some(lease) => {
                            self.leased = None;
                            self.phase = NegotiatedPhase::Sending(lease);
                        },
                        None => {
                            self.phase = NegotiatedPhase::Selecting;
                        },
                    },
                }
                None
            },
            NegotiatedEvent::Selection(admitted) => {
                match admitted {
                    Err(error) => {
                        self.phase = NegotiatedPhase::Ended(NegotiatedEnd::Refused(error));
                    },
                    Ok(_) => {
                        let acquisition = Acquisition::new(self.fresh_http1);
                        self.fresh_http1 = false;
                        self.phase = NegotiatedPhase::Acquiring(acquisition, AcquireStep::Look);
                    },
                }
                None
            },
            NegotiatedEvent::Acquiring(event) => {
                if let NegotiatedPhase::Acquiring(acquisition, _) = self.phase {
                    let mut next = acquisition;
                    let step = next.advance(event);
                    self.phase = phase_after(next, step);
                }
                None
            },
            NegotiatedEvent::Http1Sent(sent) => {
                if let NegotiatedPhase::Sending(lease) = self.phase {
                    self.phase = NegotiatedPhase::Ended(
                        match sent {
                            Sent::Response(_) => NegotiatedEnd::Delivered(lease),
                            Sent::Failed(error) => NegotiatedEnd::Broken {
                                error,
                                lease,
                                retire: false,
                            },
                            Sent::TimedOut(error) => NegotiatedEnd::Broken {
                                error,
                                lease,
                                retire: true,
                            },
                        },
                    );
                }
                None
            },
            NegotiatedEvent::Http2Responded => {
                if let NegotiatedPhase::Sending(lease) = self.phase {
                    self.phase = NegotiatedPhase::Ended(NegotiatedEnd::Delivered(lease));
                }
                None
            },
            NegotiatedEvent::Http2Failed(failure) => {
                let outcome = failure.after(
                    self.replays_unprocessed,
                    self.repeatable,
                    self.repeated,
                );
                let mut lost: Option<u64> = None;
                if let NegotiatedPhase::Sending(Lease::Http2(connection)) = self.phase {
                    if outcome.invalidate {
                        lost = Some(connection);
                    }
                    if outcome.replay {
                        self.repeated = true;
                        self.phase = NegotiatedPhase::Selecting;
                    } else {
                        self.phase = NegotiatedPhase::Ended(
                            NegotiatedEnd::Broken {
                                error: failure.error,
                                lease: Lease::Http2(connection),
                                retire: false,
                            },
                        );
                    }
                }
                lost
            },
            NegotiatedEvent::Http2Expired(error) => {
                if let NegotiatedPhase::Sending(lease) = self.phase {
                    self.phase = NegotiatedPhase::Ended(
                        NegotiatedEnd::Broken { error, lease, retire: false },
                    );
                }
                None
            },
        }
    }
}

/// A negotiated request is sent again at most once, and only after its
/// HTTP/2 stream was refused without being processed.
pub proof fn a_negotiated_request_is_replayed_once(
    request: NegotiatedRequest,
    event: NegotiatedEvent,
)
    requires
        request.expects(event),
        request.phase is Sending,
        request.after(event).0.phase is Selecting,
    ensures
        request.repeatable,
        !request.repeated,
        request.after(event).0.repeated,
        event matches NegotiatedEvent::Http2Failed(failure) && failure.graceful(),
        request.after(event).1 is Some,
{
}

/// A fresh connection is asked for by the first attempt only.
pub proof fn a_fresh_connection_is_asked_for_once(
    request: NegotiatedRequest,
    event: NegotiatedEvent,
)
    requires
        request.expects(event),
    ensures
        event is Selection && request.after(event).0.phase is Acquiring
            ==> !request.after(event).0.fresh_http1,
        !request.fresh_http1 ==> !request.after(event).0.fresh_http1,
{
}

} // verus!
