//! One exact HTTP/2 request, from its checks to its response.

use vstd::prelude::*;
use crate::endpoint::{HttpProtocol, Route, RouteView};
use crate::error::RequestError;
use crate::pool::http2_failure::Http2Failure;
use crate::pool::http2_pool::{admissible, begin};
use crate::pool::key::Http2ConnectionMode;
use crate::pool::plan::unsupported;

verus! {

/// Where a request is.
#[derive(Clone, Copy, Debug, PartialEq, Eq, Structural)]
pub enum Http2Phase {
    /// Its checks run.
    Checking,
    /// It waits for its key's admission.
    Admission,
    /// It holds a permit and takes or opens a connection, with setup retries.
    Acquiring,
    /// It holds a permit and a stream of this connection, and waits for a
    /// response head.
    Sending(u64),
    /// The response is handed out; its body holds the permit and the stream.
    Delivered(u64),
    /// The request failed before it had a permit.
    Refused(RequestError),
    /// The request failed; it gives the permit back.
    Failed(RequestError),
}

/// One request.
#[derive(Clone, Copy, Debug, PartialEq, Eq, Structural)]
pub struct Http2Request {
    /// Whether it may be repeated after a graceful goodbye.
    pub repeatable: bool,
    /// Whether it was repeated.
    pub repeated: bool,
    /// Whether unprocessed requests are replayed.
    pub replays_unprocessed: bool,
    pub phase: Http2Phase,
}

/// What happened to a request.
#[derive(Clone, Copy, Debug)]
pub enum Http2Event {
    /// Its key admitted it, or refused it, or let it wait too long.
    Admission(Result<(), RequestError>),
    /// It has a stream, or none after every retry.
    Acquired(Result<u64, RequestError>),
    /// A response head arrived.
    Responded,
    /// The stream failed.
    StreamFailed(Http2Failure),
    /// A deadline passed, or the fields could not be prepared.
    Expired(RequestError),
}

impl Http2Request {
    /// Whether an event can happen in the request's phase.
    pub open spec fn expects(self, event: Http2Event) -> bool {
        match event {
            Http2Event::Admission(_) => self.phase is Admission,
            Http2Event::Acquired(_) => self.phase is Acquiring,
            _ => self.phase is Sending,
        }
    }

    /// The request in another phase.
    pub open spec fn at(self, phase: Http2Phase) -> Http2Request {
        Http2Request { phase, ..self }
    }

    /// The request after its checks.
    pub open spec fn started(
        self,
        checked: Result<(), RequestError>,
        mode: Http2ConnectionMode,
        route: RouteView,
        https_proxy: bool,
    ) -> Http2Request {
        match checked {
            Err(error) => self.at(Http2Phase::Refused(error)),
            Ok(_) => if admissible(mode, route, https_proxy) {
                self.at(Http2Phase::Admission)
            } else {
                self.at(Http2Phase::Refused(unsupported(Some(HttpProtocol::Http2))))
            },
        }
    }

    /// The request after an event that its phase expects, and the connection
    /// that takes no other stream.
    pub open spec fn after(self, event: Http2Event) -> (Http2Request, Option<u64>) {
        match (event, self.phase) {
            (Http2Event::Admission(Ok(_)), _) => (self.at(Http2Phase::Acquiring), None),
            (Http2Event::Admission(Err(error)), _) => (self.at(Http2Phase::Refused(error)), None),
            (Http2Event::Acquired(Ok(connection)), _) => (
                self.at(Http2Phase::Sending(connection)),
                None,
            ),
            (Http2Event::Acquired(Err(error)), _) => (self.at(Http2Phase::Failed(error)), None),
            (Http2Event::Responded, Http2Phase::Sending(connection)) => (
                self.at(Http2Phase::Delivered(connection)),
                None,
            ),
            (Http2Event::StreamFailed(failure), Http2Phase::Sending(connection)) => {
                let outcome = failure.outcome(
                    self.replays_unprocessed,
                    self.repeatable,
                    self.repeated,
                );
                (
                    if outcome.replay {
                        Http2Request { repeated: true, phase: Http2Phase::Acquiring, ..self }
                    } else {
                        self.at(Http2Phase::Failed(failure.error))
                    },
                    if outcome.invalidate {
                        Some(connection)
                    } else {
                        None
                    },
                )
            },
            (Http2Event::Expired(error), _) => (self.at(Http2Phase::Failed(error)), None),
            _ => (self, None),
        }
    }

    /// A request whose checks run.
    pub fn new(repeatable: bool, replays_unprocessed: bool) -> (r: Self)
        ensures
            r == (Http2Request {
                repeatable,
                repeated: false,
                replays_unprocessed,
                phase: Http2Phase::Checking,
            }),
    {
        Http2Request {
            repeatable,
            repeated: false,
            replays_unprocessed,
            phase: Http2Phase::Checking,
        }
    }

    /// Takes the request on after its checks.
    pub fn start(
        &mut self,
        checked: Result<(), RequestError>,
        mode: Http2ConnectionMode,
        route: &Route,
        https_proxy: bool,
    )
        ensures
            *final(self) == old(self).started(checked, mode, route@, https_proxy),
    {
        self.phase = match begin(checked, mode, route, https_proxy) {
            Ok(_) => Http2Phase::Admission,
            Err(error) => Http2Phase::Refused(error),
        };
    }

    /// Takes the request on after an event; its new phase says what to do.
    /// Returns the connection that takes no other stream.
    pub fn advance(&mut self, event: Http2Event) -> (r: Option<u64>)
        requires
            old(self).expects(event),
        ensures
            (*final(self), r) == old(self).after(event),
    {
        match event {
            Http2Event::Admission(admitted) => {
                self.phase = match admitted {
                    Ok(_) => Http2Phase::Acquiring,
                    Err(error) => Http2Phase::Refused(error),
                };
                None
            },
            Http2Event::Acquired(acquired) => {
                self.phase = match acquired {
                    Ok(connection) => Http2Phase::Sending(connection),
                    Err(error) => Http2Phase::Failed(error),
                };
                None
            },
            Http2Event::Responded => {
                if let Http2Phase::Sending(connection) = self.phase {
                    self.phase = Http2Phase::Delivered(connection);
                }
                None
            },
            Http2Event::StreamFailed(failure) => {
                let outcome = failure.after(
                    self.replays_unprocessed,
                    self.repeatable,
                    self.repeated,
                );
                let mut lost: Option<u64> = None;
                if let Http2Phase::Sending(connection) = self.phase {
                    if outcome.invalidate {
                        lost = Some(connection);
                    }
                    if outcome.replay {
                        self.repeated = true;
                        self.phase = Http2Phase::Acquiring;
                    } else {
                        self.phase = Http2Phase::Failed(failure.error);
                    }
                }
                lost
            },
            Http2Event::Expired(error) => {
                self.phase = Http2Phase::Failed(error);
                None
            },
        }
    }
}

/// A request is sent again at most once, keeps its permit meanwhile, and
/// never on the connection that said goodbye.
pub proof fn an_http2_request_is_replayed_once(request: Http2Request, failure: Http2Failure)
    requires
        request.phase is Sending,
    ensures
        ({
            let (next, lost) = request.after(Http2Event::StreamFailed(failure));
            &&& next.phase is Acquiring ==> !request.repeated && next.repeated && lost is Some
            &&& request.repeated ==> next.phase == Http2Phase::Failed(failure.error)
        }),
{
}

/// A request that may not be repeated fails with its stream.
pub proof fn an_unrepeatable_request_fails_with_its_stream(
    request: Http2Request,
    failure: Http2Failure,
)
    requires
        request.phase is Sending,
        !request.repeatable,
    ensures
        request.after(Http2Event::StreamFailed(failure)).0.phase == Http2Phase::Failed(
            failure.error,
        ),
{
}

} // verus!
