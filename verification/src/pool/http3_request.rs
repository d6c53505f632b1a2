//! One HTTP/3 request, from its checks to its response.

use vstd::prelude::*;
use crate::endpoint::HttpProtocol;
use crate::error::RequestError;
use crate::pool::http3_pool::{attempt_limit_reached, retires_connection};
use crate::timeout::TimeoutPhase;

verus! {

/// One attempt to get a connection to a transport location.
#[derive(Clone, Copy, Debug, PartialEq, Eq, Structural)]
pub enum Http3Setup {
    /// It waits for the location's turn.
    AwaitingTurn,
    /// It has the turn and looks at the connection that is kept for the
    /// location. From here on it may perform network I/O.
    Looking,
    /// It has the turn and connects.
    Connecting,
    /// A kept connection is used; the turn ends.
    Reused(u64),
    /// A new connection is kept; the turn ends.
    Opened(u64),
    /// It failed; the turn ends.
    Failed(RequestError),
}

/// What happened to an attempt.
#[derive(Clone, Copy, Debug)]
pub enum SetupEvent {
    /// It is its turn.
    TurnGranted,
    /// The connection kept for the location that can be reused, if any.
    Found(Option<u64>),
    /// The connection was made, or not.
    Connected(Result<u64, RequestError>),
    /// The attempt reached its own limit.
    LimitReached,
}

impl Http3Setup {
    /// Whether an event can happen now.
    pub open spec fn expects(self, event: SetupEvent) -> bool {
        match event {
            SetupEvent::TurnGranted => self is AwaitingTurn,
            SetupEvent::Found(_) => self is Looking,
            _ => self is Connecting,
        }
    }

    /// The attempt after an event.
    pub open spec fn after(self, event: SetupEvent) -> Http3Setup {
        match event {
            SetupEvent::TurnGranted => Http3Setup::Looking,
            SetupEvent::Found(Some(connection)) => Http3Setup::Reused(connection),
            SetupEvent::Found(None) => Http3Setup::Connecting,
            SetupEvent::Connected(Ok(connection)) => Http3Setup::Opened(connection),
            SetupEvent::Connected(Err(error)) => Http3Setup::Failed(error),
            SetupEvent::LimitReached => Http3Setup::Failed(
                RequestError::timed_out(TimeoutPhase::Connect, Some(HttpProtocol::Http3)),
            ),
        }
    }

    /// Takes the attempt on after an event.
    pub fn advance(&mut self, event: SetupEvent)
        requires
            old(self).expects(event),
        ensures
            *final(self) == old(self).after(event),
    {
        *self = match event {
            SetupEvent::TurnGranted => Http3Setup::Looking,
            SetupEvent::Found(found) => match found {
                Some(connection) => Http3Setup::Reused(connection),
                None => Http3Setup::Connecting,
            },
            SetupEvent::Connected(connected) => match connected {
                Ok(connection) => Http3Setup::Opened(connection),
                Err(error) => Http3Setup::Failed(error),
            },
            SetupEvent::LimitReached => Http3Setup::Failed(attempt_limit_reached()),
        };
    }
}

/// Where a request is.
#[derive(Clone, Copy, Debug, PartialEq, Eq, Structural)]
pub enum Http3Phase {
    /// Its checks run.
    Checking,
    /// It waits for its key's admission.
    Admission,
    /// It holds a permit and gets a connection, with setup retries.
    Acquiring,
    /// It waits for a response head.
    Sending(u64),
    /// The response is handed out; its body holds the permit.
    Delivered(u64),
    /// The request failed before it had a permit.
    Refused(RequestError),
    /// The request failed; it gives the permit back.
    Failed(RequestError),
}

/// One request.
#[derive(Clone, Copy, Debug, PartialEq, Eq, Structural)]
pub struct Http3Request {
    /// Whether unprocessed requests are replayed.
    pub replays_unprocessed: bool,
    pub phase: Http3Phase,
}

/// What happened to a request.
#[derive(Clone, Copy, Debug)]
pub enum Http3Event {
    /// Its checks passed or failed.
    Checked(Result<(), RequestError>),
    /// Its key admitted it, or refused it, or let it wait too long.
    Admission(Result<(), RequestError>),
    /// It has a connection, or none after every retry.
    Acquired(Result<u64, RequestError>),
    /// A response head arrived.
    Responded,
    /// The request failed on its connection, which can be reused or not, and
    /// was processed or not.
    StreamFailed { error: RequestError, reusable: bool, unprocessed: bool },
    /// A deadline passed, or the fields could not be prepared.
    Expired(RequestError),
}

impl Http3Request {
    /// Whether an event can happen in the request's phase.
    pub open spec fn expects(self, event: Http3Event) -> bool {
        match event {
            Http3Event::Checked(_) => self.phase is Checking,
            Http3Event::Admission(_) => self.phase is Admission,
            Http3Event::Acquired(_) => self.phase is Acquiring,
            _ => self.phase is Sending,
        }
    }

    /// The request in another phase.
    pub open spec fn at(self, phase: Http3Phase) -> Http3Request {
        Http3Request { phase, ..self }
    }

    /// The request after an event that its phase expects, and the connection
    /// that takes no other request.
    pub open spec fn after(self, event: Http3Event) -> (Http3Request, Option<u64>) {
        match (event, self.phase) {
            (Http3Event::Checked(Ok(_)), _) => (self.at(Http3Phase::Admission), None),
            (Http3Event::Checked(Err(error)), _) => (self.at(Http3Phase::Refused(error)), None),
            (Http3Event::Admission(Ok(_)), _) => (self.at(Http3Phase::Acquiring), None),
            (Http3Event::Admission(Err(error)), _) => (self.at(Http3Phase::Refused(error)), None),
            (Http3Event::Acquired(Ok(connection)), _) => (
                self.at(Http3Phase::Sending(connection)),
                None,
            ),
            (Http3Event::Acquired(Err(error)), _) => (self.at(Http3Phase::Failed(error)), None),
            (Http3Event::Responded, Http3Phase::Sending(connection)) => (
                self.at(Http3Phase::Delivered(connection)),
                None,
            ),
            (
                Http3Event::StreamFailed { error, reusable, unprocessed },
                Http3Phase::Sending(connection),
            ) => (
                self.at(Http3Phase::Failed(error)),
                if !reusable || (self.replays_unprocessed && unprocessed) {
                    Some(connection)
                } else {
                    None
                },
            ),
            (Http3Event::Expired(error), _) => (self.at(Http3Phase::Failed(error)), None),
            _ => (self, None),
        }
    }

    /// A request whose checks run.
    pub fn new(replays_unprocessed: bool) -> (r: Self)
        ensures
            r == (Http3Request { replays_unprocessed, phase: Http3Phase::Checking }),
    {
        Http3Request { replays_unprocessed, phase: Http3Phase::Checking }
    }

    /// A request that comes with a lease and was admitted already: once its
    /// checks pass, it is sent.
    pub fn on_lease(
        checked: Result<(), RequestError>,
        connection: u64,
        replays_unprocessed: bool,
    ) -> (r: Self)
        ensures
            r == (Http3Request {
                replays_unprocessed,
                phase: match checked {
                    Ok(_) => Http3Phase::Sending(connection),
                    Err(error) => Http3Phase::Failed(error),
                },
            }),
    {
        let phase = match checked {
            Ok(_) => Http3Phase::Sending(connection),
            Err(error) => Http3Phase::Failed(error),
        };
        Http3Request { replays_unprocessed, phase }
    }

    /// Takes the request on after an event; its new phase says what to do.
    /// Returns the connection that takes no other request.
    pub fn advance(&mut self, event: Http3Event) -> (r: Option<u64>)
        requires
            old(self).expects(event),
        ensures
            (*final(self), r) == old(self).after(event),
    {
        match event {
            Http3Event::Checked(checked) => {
                self.phase = match checked {
                    Ok(_) => Http3Phase::Admission,
                    Err(error) => Http3Phase::Refused(error),
                };
                None
            },
            Http3Event::Admission(admitted) => {
                self.phase = match admitted {
                    Ok(_) => Http3Phase::Acquiring,
                    Err(error) => Http3Phase::Refused(error),
                };
                None
            },
            Http3Event::Acquired(acquired) => {
                self.phase = match acquired {
                    Ok(connection) => Http3Phase::Sending(connection),
                    Err(error) => Http3Phase::Failed(error),
                };
                None
            },
            Http3Event::Responded => {
                if let Http3Phase::Sending(connection) = self.phase {
                    self.phase = Http3Phase::Delivered(connection);
                }
                None
            },
            Http3Event::StreamFailed { error, reusable, unprocessed } => {
                let mut lost: Option<u64> = None;
                if let Http3Phase::Sending(connection) = self.phase {
                    if retires_connection(reusable, self.replays_unprocessed, unprocessed) {
                        lost = Some(connection);
                    }
                    self.phase = Http3Phase::Failed(error);
                }
                lost
            },
            Http3Event::Expired(error) => {
                self.phase = Http3Phase::Failed(error);
                None
            },
        }
    }
}

/// A setup performs no I/O before it has its location's turn, and a kept
/// connection that can be reused is never replaced.
pub proof fn a_setup_connects_only_in_its_turn(setup: Http3Setup, event: SetupEvent)
    requires
        setup.expects(event),
    ensures
        setup.after(event) is Connecting ==> event == SetupEvent::Found(None),
        setup is AwaitingTurn ==> setup.after(event) is Looking,
        forall|connection: u64|
            setup is Looking ==> (#[trigger] setup.after(SetupEvent::Found(Some(connection))))
                == Http3Setup::Reused(connection),
{
}

} // verus!
