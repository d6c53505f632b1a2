//! One exact HTTP/1.1 request, from its checks to its response.

use vstd::prelude::*;
use crate::endpoint::{HttpProtocol, RequestHeader, Route, RouteView};
use crate::error::RequestError;
use crate::pool::http1_pool::{
    after_drain, after_idle_check, after_send, begin, emptied, step_after_drain, step_after_send,
    waiting, ChallengedConnection, HeldConnection, Http1Start, Http1Step, Sent,
};
use crate::pool::key::Http1ConnectionMode;
use crate::pool::plan::unsupported;

verus! {

/// How a request ended, and what became of its connection and its permit. A
/// connection is always given back before the permit, so the next admitted
/// request finds it idle.
#[derive(Clone, Copy, Debug, PartialEq, Eq, Structural)]
pub enum Http1End {
    /// The response is handed out. Its body holds the connection and the
    /// permit until it completes or is dropped.
    Delivered { held: HeldConnection, retire: bool },
    /// The response is handed out. The connection and the permit wait for the
    /// replay.
    Kept(HeldConnection),
    /// The request failed before it had a permit.
    Refused(RequestError),
    /// The request failed; it gives the permit back.
    Failed(RequestError),
    /// The request failed; it gives its connection back, and the permit.
    Broken { error: RequestError, held: HeldConnection, retire: bool },
}

/// Where a request is.
#[derive(Clone, Copy, Debug, PartialEq, Eq, Structural)]
pub enum Http1Phase {
    /// Its checks run.
    Checking,
    /// It waits for its key's admission, after giving back a connection that
    /// it held and does not want.
    Admission { given_back: Option<HeldConnection> },
    /// It holds a permit and takes or opens a connection, with setup retries.
    Acquiring,
    /// It holds a permit and a connection, and waits for a response head.
    Sending(HeldConnection),
    /// It reads the body of a challenge.
    Draining(HeldConnection),
    /// It asks whether the challenged connection is still idle.
    CheckingIdle(HeldConnection),
    Ended(Http1End),
}

/// One request.
#[derive(Debug)]
pub struct Http1Request {
    pub mode: Http1ConnectionMode,
    pub route: Route,
    /// Whether proxies can be reached over TLS.
    pub https_proxy: bool,
    /// The request needs a connection that has carried no earlier one.
    pub fresh_connection: bool,
    /// The caller's slot for a challenged connection.
    pub challenged: Option<ChallengedConnection>,
    pub phase: Http1Phase,
}

/// What happened to a request.
#[derive(Debug)]
pub enum Http1Event {
    /// Its checks passed or failed.
    Checked(Result<(), RequestError>),
    /// Its key admitted it, or refused it, or let it wait too long.
    Admission(Result<(), RequestError>),
    /// It has a connection, or none after every retry.
    Acquired(Result<HeldConnection, RequestError>),
    Sent(Sent),
    /// A challenge's body was read; these are the fields of its response.
    Drained(Result<bool, RequestError>, Vec<RequestHeader>),
    IdleChecked(bool),
}

/// What a request holds, without its route's storage.
pub struct Http1RequestView {
    pub mode: Http1ConnectionMode,
    pub route: RouteView,
    pub https_proxy: bool,
    pub fresh_connection: bool,
    pub challenged: Option<ChallengedConnection>,
    pub phase: Http1Phase,
}

impl View for Http1Request {
    type V = Http1RequestView;

    open spec fn view(&self) -> Http1RequestView {
        Http1RequestView {
            mode: self.mode,
            route: self.route@,
            https_proxy: self.https_proxy,
            fresh_connection: self.fresh_connection,
            challenged: self.challenged,
            phase: self.phase,
        }
    }
}

/// The phase that a step over a held connection leads to.
pub open spec fn stepped(step: Http1Step, held: HeldConnection) -> Http1Phase {
    match step {
        Http1Step::Deliver { retire } => Http1Phase::Ended(Http1End::Delivered { held, retire }),
        Http1Step::Drain => Http1Phase::Draining(held),
        Http1Step::CheckIdle => Http1Phase::CheckingIdle(held),
        Http1Step::Hold => Http1Phase::Ended(Http1End::Kept(held)),
        Http1Step::Fail { error, retire } => Http1Phase::Ended(
            Http1End::Broken { error, held, retire },
        ),
    }
}

fn phase_of(step: Http1Step, held: HeldConnection) -> (r: Http1Phase)
    ensures
        r == stepped(step, held),
{
    match step {
        Http1Step::Deliver { retire } => Http1Phase::Ended(Http1End::Delivered { held, retire }),
        Http1Step::Drain => Http1Phase::Draining(held),
        Http1Step::CheckIdle => Http1Phase::CheckingIdle(held),
        Http1Step::Hold => Http1Phase::Ended(Http1End::Kept(held)),
        Http1Step::Fail { error, retire } => Http1Phase::Ended(
            Http1End::Broken { error, held, retire },
        ),
    }
}

impl Http1RequestView {
    /// Whether an event can happen in the request's phase.
    pub open spec fn expects(self, event: Http1Event) -> bool {
        match event {
            Http1Event::Checked(_) => self.phase is Checking,
            Http1Event::Admission(_) => self.phase is Admission,
            Http1Event::Acquired(_) => self.phase is Acquiring,
            Http1Event::Sent(_) => self.phase is Sending,
            Http1Event::Drained(_, _) => self.phase is Draining,
            Http1Event::IdleChecked(_) => self.phase is CheckingIdle,
        }
    }

    /// The request in another phase.
    pub open spec fn at(self, phase: Http1Phase) -> Http1RequestView {
        Http1RequestView { phase, ..self }
    }

    /// The request after its checks.
    pub open spec fn started(self, checked: Result<(), RequestError>) -> Http1RequestView {
        match checked {
            Err(error) => self.at(Http1Phase::Ended(Http1End::Refused(error))),
            Ok(_) => if Route::proxy_tls(self.route) && !self.https_proxy {
                self.at(
                    Http1Phase::Ended(
                        Http1End::Refused(unsupported(Some(HttpProtocol::Http1))),
                    ),
                )
            } else {
                Http1RequestView {
                    challenged: emptied(self.challenged),
                    phase: match waiting(self.challenged) {
                        Some(held) => if self.fresh_connection {
                            Http1Phase::Admission { given_back: Some(held) }
                        } else {
                            Http1Phase::Sending(held)
                        },
                        None => Http1Phase::Admission { given_back: None },
                    },
                    ..self
                }
            },
        }
    }

    /// The request after an event that its phase expects.
    pub open spec fn after(self, event: Http1Event) -> Http1RequestView {
        match (event, self.phase) {
            (Http1Event::Checked(checked), _) => self.started(checked),
            (Http1Event::Admission(Ok(_)), _) => self.at(Http1Phase::Acquiring),
            (Http1Event::Admission(Err(error)), _) => self.at(
                Http1Phase::Ended(Http1End::Refused(error)),
            ),
            (Http1Event::Acquired(Ok(held)), _) => self.at(Http1Phase::Sending(held)),
            (Http1Event::Acquired(Err(error)), _) => self.at(
                Http1Phase::Ended(Http1End::Failed(error)),
            ),
            (Http1Event::Sent(sent), Http1Phase::Sending(held)) => self.at(
                stepped(step_after_send(sent, self.mode, self.route, self.challenged), held),
            ),
            (Http1Event::Drained(drained, headers), Http1Phase::Draining(held)) => self.at(
                stepped(step_after_drain(drained, headers@), held),
            ),
            (Http1Event::IdleChecked(idle), Http1Phase::CheckingIdle(held)) => match self.challenged {
                Some(slot) => if idle {
                    Http1RequestView {
                        challenged: Some(ChallengedConnection { held: Some(held), ..slot }),
                        phase: Http1Phase::Ended(Http1End::Kept(held)),
                        ..self
                    }
                } else {
                    self.at(
                        Http1Phase::Ended(Http1End::Delivered { held, retire: true }),
                    )
                },
                None => self.at(Http1Phase::Ended(Http1End::Delivered { held, retire: true })),
            },
            _ => self,
        }
    }

    /// The connection that the request holds now.
    pub open spec fn holds(self) -> Option<HeldConnection> {
        match self.phase {
            Http1Phase::Sending(held) => Some(held),
            Http1Phase::Draining(held) => Some(held),
            Http1Phase::CheckingIdle(held) => Some(held),
            _ => None,
        }
    }
}

impl Http1Request {
    /// A request whose checks run.
    pub fn new(
        mode: Http1ConnectionMode,
        route: Route,
        https_proxy: bool,
        fresh_connection: bool,
        challenged: Option<ChallengedConnection>,
    ) -> (r: Self)
        ensures
            r@ == (Http1RequestView {
                mode,
                route: route@,
                https_proxy,
                fresh_connection,
                challenged,
                phase: Http1Phase::Checking,
            }),
    {
        Http1Request {
            mode,
            route,
            https_proxy,
            fresh_connection,
            challenged,
            phase: Http1Phase::Checking,
        }
    }

    /// Takes the request on after an event; its new phase says what to do.
    pub fn advance(&mut self, event: Http1Event)
        requires
            old(self)@.expects(event),
        ensures
            final(self)@ == old(self)@.after(event),
    {
        match event {
            Http1Event::Checked(checked) => {
                let start = begin(
                    checked,
                    &self.route,
                    self.https_proxy,
                    &mut self.challenged,
                    self.fresh_connection,
                );
                self.phase = match start {
                    Err(error) => Http1Phase::Ended(Http1End::Refused(error)),
                    Ok(Http1Start::Replay(held)) => Http1Phase::Sending(held),
                    Ok(Http1Start::Admission(given_back)) => Http1Phase::Admission { given_back },
                };
            },
            Http1Event::Admission(admitted) => {
                self.phase = match admitted {
                    Ok(_) => Http1Phase::Acquiring,
                    Err(error) => Http1Phase::Ended(Http1End::Refused(error)),
                };
            },
            Http1Event::Acquired(acquired) => {
                self.phase = match acquired {
                    Ok(held) => Http1Phase::Sending(held),
                    Err(error) => Http1Phase::Ended(Http1End::Failed(error)),
                };
            },
            Http1Event::Sent(sent) => {
                if let Http1Phase::Sending(held) = self.phase {
                    let step = after_send(sent, self.mode, &self.route, &self.challenged);
                    self.phase = phase_of(step, held);
                }
            },
            Http1Event::Drained(drained, headers) => {
                if let Http1Phase::Draining(held) = self.phase {
                    let step = after_drain(drained, &headers);
                    self.phase = phase_of(step, held);
                }
            },
            Http1Event::IdleChecked(idle) => {
                if let Http1Phase::CheckingIdle(held) = self.phase {
                    let step = after_idle_check(idle, held, &mut self.challenged);
                    self.phase = phase_of(step, held);
                }
            },
        }
    }
}

/// Where a connection is after an end.
pub open spec fn ends_with(end: Http1End, held: HeldConnection) -> bool {
    match end {
        Http1End::Delivered { held: at, .. } => at == held,
        Http1End::Kept(at) => at == held,
        Http1End::Broken { held: at, .. } => at == held,
        _ => false,
    }
}

/// A connection that a request holds is never lost: after every event the
/// request still holds it, or its end says where it went.
pub proof fn a_held_connection_is_accounted_for(
    request: Http1RequestView,
    event: Http1Event,
    held: HeldConnection,
)
    requires
        request.holds() == Some(held),
        request.expects(event),
    ensures
        request.after(event).holds() == Some(held) || (request.after(
            event,
        ).phase matches Http1Phase::Ended(end) && ends_with(end, held)),
{
}

/// A request never sends before its checks passed and, unless it replays on a
/// challenged connection, its key admitted it.
pub proof fn a_request_is_checked_and_admitted_before_it_is_sent(
    request: Http1RequestView,
    event: Http1Event,
)
    requires
        request.expects(event),
        request.holds() is None,
        request.after(event).holds() is Some,
    ensures
        event is Acquired || (event matches Http1Event::Checked(Ok(_)) && request.after(
            event,
        ).holds() == waiting(request.challenged) && !request.fresh_connection),
{
}

/// A connection that timed out serves no other request, and one whose request
/// failed goes back to the idle ones.
pub proof fn a_timed_out_connection_is_retired(
    request: Http1RequestView,
    held: HeldConnection,
    error: RequestError,
)
    requires
        request.phase == Http1Phase::Sending(held),
    ensures
        request.after(Http1Event::Sent(Sent::TimedOut(error))).phase == Http1Phase::Ended(
            Http1End::Broken { error, held, retire: true },
        ),
        request.after(Http1Event::Sent(Sent::Failed(error))).phase == Http1Phase::Ended(
            Http1End::Broken { error, held, retire: false },
        ),
{
}

} // verus!
