//! Exact HTTP/1.1 connections, grouped by origin and route.
//!
//! Each pool key keeps up to `max_active` connections, idle ones included.
//! A request first passes the key's admission, which lets at most
//! `max_active` requests through and queues the rest in arrival order. It
//! then takes the most recently used idle connection, or opens one when none
//! is idle.

use vstd::prelude::*;
use crate::endpoint::{Endpoint, HttpProtocol, RequestHeader, Route, RouteView};
use crate::error::{RequestError, RequestErrorKind};
use crate::pool::admission::AdmissionRegistry;
use crate::pool::entries::{Entered, Entries};
use crate::pool::key::{key_of, Http1ConnectionMode, KeyMode, PoolKey};
use crate::pool::plan::unsupported;
use crate::text::{
    char_lists, lowercase, same_text, split, split_text, to_lowercase, trim_text, trimmed_text,
    visible, visible_text,
};
use crate::timeout::TimeoutPhase;

verus! {

/// The pool's entries and admissions.
#[derive(Debug)]
pub struct Http1Pool {
    pub entries: Entries,
    pub admissions: AdmissionRegistry<PoolKey>,
    pub max_active: usize,
    pub max_pending: usize,
}

impl Http1Pool {
    /// The bounds of entries and admissions are kept.
    pub open spec fn wf(&self) -> bool {
        &&& self.entries.wf()
        &&& self.admissions.wf()
        &&& self.admissions.bounds() == (self.max_active, self.max_pending)
        &&& self.max_active > 0
        &&& self.max_pending > 0
    }

    /// A pool of up to `capacity` entries.
    pub fn new(capacity: usize, max_active: usize, max_pending: usize) -> (r: Self)
        requires
            capacity > 0,
            max_active > 0,
            max_pending > 0,
        ensures
            r.wf(),
            r.entries.bound() == capacity,
            r.entries@.len() == 0,
            r.entries.next() == 0,
            r.max_active == max_active,
            r.max_pending == max_pending,
    {
        Http1Pool {
            entries: Entries::new(capacity),
            admissions: AdmissionRegistry::new(max_active, max_pending),
            max_active,
            max_pending,
        }
    }

    /// Returns the most entries kept.
    pub fn capacity(&self) -> (r: usize)
        ensures
            r == self.entries.bound(),
    {
        self.entries.capacity()
    }

    /// Returns the most requests of one key that run at once.
    pub fn max_active(&self) -> (r: usize)
        ensures
            r == self.max_active,
    {
        self.max_active
    }

    /// Returns the most requests of one key that wait.
    pub fn max_pending(&self) -> (r: usize)
        ensures
            r == self.max_pending,
    {
        self.max_pending
    }

    /// Returns the entry of an origin over a route.
    pub fn entry(&mut self, endpoint: &Endpoint, route: &Route, mode: Http1ConnectionMode) -> (r:
        Entered)
        requires
            old(self).wf(),
            old(self).entries.next() < u64::MAX,
        ensures
            final(self).wf(),
            final(self).admissions == old(self).admissions,
            final(self).entries@ == old(self).entries.after(
                key_of(endpoint, route, KeyMode::Http1(mode)),
            ),
            r == old(self).entries.entered(key_of(endpoint, route, KeyMode::Http1(mode))),
            final(self).entries.bound() == old(self).entries.bound(),
            final(self).entries.next() == old(self).entries.next() + (if r.created {
                1int
            } else {
                0
            }),
    {
        self.entries.enter(PoolKey::new(endpoint, route, KeyMode::Http1(mode)))
    }
}

/// A check that a request passes before any I/O.
#[derive(Clone, Copy, Debug, PartialEq, Eq, Structural)]
pub enum RequestCheck {
    /// As it goes to the origin.
    Origin,
    /// As it goes to a forwarding proxy.
    Forward,
    /// As it would be replayed to the proxy with the route's credentials.
    ForwardWithCredentials,
}

/// The checks of a request. An anonymous attempt may be replayed with the
/// route's credentials after a challenge; that request is checked up front
/// too.
pub open spec fn checks(
    mode: Http1ConnectionMode,
    route: RouteView,
    forward_authorization: bool,
) -> Seq<RequestCheck> {
    if mode != Http1ConnectionMode::Forward {
        seq![RequestCheck::Origin]
    } else if !forward_authorization && Route::proxy_credentials(route) {
        seq![RequestCheck::Forward, RequestCheck::ForwardWithCredentials]
    } else {
        seq![RequestCheck::Forward]
    }
}

/// Returns the checks that a request passes before any I/O, in order.
pub fn request_checks(
    mode: Http1ConnectionMode,
    route: &Route,
    forward_authorization: bool,
) -> (r: Vec<RequestCheck>)
    ensures
        r@ == checks(mode, route@, forward_authorization),
{
    let mut list: Vec<RequestCheck> = Vec::new();
    if mode != Http1ConnectionMode::Forward {
        list.push(RequestCheck::Origin);
    } else {
        list.push(RequestCheck::Forward);
        if !forward_authorization && route.has_proxy_credentials() {
            list.push(RequestCheck::ForwardWithCredentials);
        }
    }
    assert(list@ =~= checks(mode, route@, forward_authorization));
    list
}

/// A connection that waits for a replay, and the entry it belongs to.
#[derive(Clone, Copy, Debug, PartialEq, Eq, Structural)]
pub struct HeldConnection {
    pub entry: u64,
    pub connection: u64,
}

/// A forward-proxy connection kept after a `407`, for the credentialed replay
/// of the same request.
///
/// The connection keeps its admission permit while it waits, so the replay
/// neither queues again nor finds the connection taken by another request.
#[derive(Clone, Copy, Debug, PartialEq, Eq, Structural)]
pub struct ChallengedConnection {
    pub held: Option<HeldConnection>,
    pub replayed: bool,
}

impl ChallengedConnection {
    /// No connection waits.
    pub fn new() -> (r: Self)
        ensures
            r == (ChallengedConnection { held: None, replayed: false }),
    {
        ChallengedConnection { held: None, replayed: false }
    }

    /// Whether a challenged connection waits for the replay.
    pub fn is_held(&self) -> (r: bool)
        ensures
            r == (self.held is Some),
    {
        self.held.is_some()
    }

    /// Marks the next attempt as the proxy-authentication replay, whose `407`
    /// is final, so the pool keeps no connection for it.
    pub fn begin_replay(&mut self)
        ensures
            *final(self) == (ChallengedConnection { replayed: true, ..*old(self) }),
    {
        self.replayed = true;
    }
}

/// Where a request starts.
#[derive(Clone, Copy, Debug, PartialEq, Eq, Structural)]
pub enum Http1Start {
    /// On the connection that was challenged.
    Replay(HeldConnection),
    /// At the key's admission, after giving back a held connection that is
    /// not wanted.
    Admission(Option<HeldConnection>),
}

/// The connection that waits for a replay, if any.
pub open spec fn waiting(challenged: Option<ChallengedConnection>) -> Option<HeldConnection> {
    match challenged {
        Some(slot) => slot.held,
        None => None,
    }
}

/// The slot without its connection.
pub open spec fn emptied(challenged: Option<ChallengedConnection>) -> Option<ChallengedConnection> {
    match challenged {
        Some(slot) => Some(ChallengedConnection { held: None, ..slot }),
        None => None,
    }
}

/// Starts a request that was checked: over a challenged connection, unless a
/// fresh one is wanted, else at the key's admission. A proxy reached over TLS
/// needs a connector for it.
pub fn begin(
    checked: Result<(), RequestError>,
    route: &Route,
    https_proxy: bool,
    challenged: &mut Option<ChallengedConnection>,
    fresh_connection: bool,
) -> (r: Result<Http1Start, RequestError>)
    ensures
        match checked {
            Err(error) => r == Err::<Http1Start, RequestError>(error) && *final(challenged)
                == *old(challenged),
            Ok(_) => if Route::proxy_tls(route@) && !https_proxy {
                r == Err::<Http1Start, RequestError>(unsupported(Some(HttpProtocol::Http1)))
                    && *final(challenged) == *old(challenged)
            } else {
                &&& *final(challenged) == emptied(*old(challenged))
                &&& r == Ok::<Http1Start, RequestError>(
                    match waiting(*old(challenged)) {
                        Some(held) => if fresh_connection {
                            Http1Start::Admission(Some(held))
                        } else {
                            Http1Start::Replay(held)
                        },
                        None => Http1Start::Admission(None),
                    },
                )
            },
        },
{
    match checked {
        Err(error) => {
            return Err(error);
        },
        Ok(_) => {},
    }
    if route.proxy_uses_tls() && !https_proxy {
        return Err(RequestError::new(RequestErrorKind::UnsupportedRoute, Some(HttpProtocol::Http1)));
    }
    let mut held: Option<HeldConnection> = None;
    match *challenged {
        Some(slot) => {
            held = slot.held;
            *challenged = Some(ChallengedConnection { held: None, replayed: slot.replayed });
        },
        None => {},
    }
    match held {
        Some(held) => if fresh_connection {
            Ok(Http1Start::Admission(Some(held)))
        } else {
            Ok(Http1Start::Replay(held))
        },
        None => Ok(Http1Start::Admission(None)),
    }
}

/// What sending a request led to.
#[derive(Clone, Copy, Debug, PartialEq, Eq, Structural)]
pub enum Sent {
    /// A response head with this status.
    Response(u16),
    /// The connection failed.
    Failed(RequestError),
    /// A deadline passed.
    TimedOut(RequestError),
}

/// What to do with a response or a failure, and with its connection.
#[derive(Clone, Copy, Debug, PartialEq, Eq, Structural)]
pub enum Http1Step {
    /// Hand the response out; its body holds the connection, which serves no
    /// other request when it is retired.
    Deliver { retire: bool },
    /// Read the body of the challenge to its end.
    Drain,
    /// Ask whether the connection is still open and idle.
    CheckIdle,
    /// Hand the response out; the connection waits for the replay.
    Hold,
    /// Give the connection back and fail.
    Fail { error: RequestError, retire: bool },
}

/// The status of a proxy that asks for credentials.
pub const PROXY_AUTHENTICATION_REQUIRED: u16 = 407;

/// Whether a response is a challenge that the route's credentials answer.
pub open spec fn is_challenge(mode: Http1ConnectionMode, route: RouteView, status: u16) -> bool {
    &&& mode == Http1ConnectionMode::Forward
    &&& Route::proxy_credentials(route)
    &&& status == PROXY_AUTHENTICATION_REQUIRED
}

/// Whether the caller's slot can still take a challenged connection.
pub open spec fn takes_challenge(challenged: Option<ChallengedConnection>) -> bool {
    challenged matches Some(slot) && !slot.replayed
}

/// The step after a request was sent.
pub open spec fn step_after_send(
    sent: Sent,
    mode: Http1ConnectionMode,
    route: RouteView,
    challenged: Option<ChallengedConnection>,
) -> Http1Step {
    match sent {
        Sent::Response(status) => if !is_challenge(mode, route, status) {
            Http1Step::Deliver { retire: false }
        } else if takes_challenge(challenged) {
            Http1Step::Drain
        } else {
            Http1Step::Deliver { retire: true }
        },
        Sent::Failed(error) => Http1Step::Fail { error, retire: false },
        Sent::TimedOut(error) => Http1Step::Fail { error, retire: true },
    }
}

/// Decides what follows a sent request. A challenge that is not answered on
/// its own connection retires it: a zero-length `407` may already have
/// released its transport as reusable, and the retry must reconnect.
pub fn after_send(
    sent: Sent,
    mode: Http1ConnectionMode,
    route: &Route,
    challenged: &Option<ChallengedConnection>,
) -> (r: Http1Step)
    ensures
        r == step_after_send(sent, mode, route@, *challenged),
{
    match sent {
        Sent::Response(status) => {
            if mode == Http1ConnectionMode::Forward && route.has_proxy_credentials() && status
                == PROXY_AUTHENTICATION_REQUIRED {
                match challenged {
                    Some(slot) => if !slot.replayed {
                        Http1Step::Drain
                    } else {
                        Http1Step::Deliver { retire: true }
                    },
                    None => Http1Step::Deliver { retire: true },
                }
            } else {
                Http1Step::Deliver { retire: false }
            }
        },
        Sent::Failed(error) => Http1Step::Fail { error, retire: false },
        Sent::TimedOut(error) => Http1Step::Fail { error, retire: true },
    }
}

/// One read of a challenge's body.
#[derive(Clone, Copy, Debug, PartialEq, Eq, Structural)]
pub enum ChallengeRead {
    /// The body ended.
    End,
    /// The body failed.
    Failed,
    /// So many bytes of data.
    Data(usize),
    /// A frame without data.
    Other,
    /// No frame came in time.
    Idle,
}

/// A challenge's body as it is read.
#[derive(Clone, Copy, Debug, PartialEq, Eq, Structural)]
pub struct ChallengeDrain {
    pub received: usize,
    /// The most bytes that are read.
    pub max: usize,
}

impl ChallengeDrain {
    /// The bytes received after one more read, saturating.
    pub open spec fn plus(self, length: usize) -> usize {
        if self.received + length > usize::MAX {
            usize::MAX
        } else {
            (self.received + length) as usize
        }
    }

    /// What one read decides: whether the body ended, or a failure, or
    /// nothing yet.
    pub open spec fn decided(self, read: ChallengeRead) -> Option<Result<bool, RequestError>> {
        match read {
            ChallengeRead::End => Some(Ok(true)),
            ChallengeRead::Failed => Some(Ok(false)),
            ChallengeRead::Data(length) => if self.plus(length) > self.max {
                Some(Ok(false))
            } else {
                None
            },
            ChallengeRead::Other => None,
            ChallengeRead::Idle => Some(
                Err(RequestError::timed_out(TimeoutPhase::ReadIdle, Some(HttpProtocol::Http1))),
            ),
        }
    }

    /// Nothing read yet, up to `max` bytes.
    pub fn new(max: usize) -> (r: Self)
        ensures
            r == (ChallengeDrain { received: 0, max }),
    {
        ChallengeDrain { received: 0, max }
    }

    /// Counts one read. A body that ends leaves its connection at the start
    /// of the next response. A frame that takes too long fails the request.
    pub fn read(&mut self, read: ChallengeRead) -> (r: Option<Result<bool, RequestError>>)
        ensures
            r == old(self).decided(read),
            final(self).max == old(self).max,
            final(self).received == (match read {
                ChallengeRead::Data(length) => old(self).plus(length),
                _ => old(self).received,
            }),
    {
        match read {
            ChallengeRead::End => Some(Ok(true)),
            ChallengeRead::Failed => Some(Ok(false)),
            ChallengeRead::Data(length) => {
                self.received = if length > usize::MAX - self.received {
                    usize::MAX
                } else {
                    self.received + length
                };
                if self.received > self.max {
                    Some(Ok(false))
                } else {
                    None
                }
            },
            ChallengeRead::Other => None,
            ChallengeRead::Idle => Some(
                Err(RequestError::timeout(TimeoutPhase::ReadIdle, Some(HttpProtocol::Http1))),
            ),
        }
    }
}

/// Whether a header is `Connection` or `Proxy-Connection` with a `close`
/// token in it. Names are in lower case.
pub open spec fn closes(header: RequestHeader) -> bool {
    &&& header.name@ == "connection"@ || header.name@ == "proxy-connection"@
    &&& visible(header.value@) matches Some(text) && names_close(text)
}

/// Whether one of the comma-separated tokens is `close`, in any case.
pub open spec fn names_close(text: Seq<char>) -> bool {
    exists|i: int|
        0 <= i < split(text, ',').len() && lowercase(trimmed_text(#[trigger] split(text, ',')[i]))
            == "close"@
}

fn has_close(text: &str) -> (r: bool)
    ensures
        r == names_close(text@),
{
    let parts = split_text(text, ',');
    let ghost all = split(text@, ',');
    let mut i: usize = 0;
    while i < parts.len()
        invariant
            i <= parts@.len(),
            char_lists(parts@) == all,
            all == split(text@, ','),
            forall|j: int| 0 <= j < i ==> lowercase(trimmed_text(#[trigger] all[j])) != "close"@,
        decreases parts@.len() - i,
    {
        assert(all[i as int] == parts@[i as int]@);
        let token = to_lowercase(trim_text(&parts[i]).as_str());
        if same_text(token.as_str(), "close") {
            return true;
        }
        i += 1;
    }
    false
}

/// Reports a `close` token in `Connection` or `Proxy-Connection`.
///
/// Both browsers close a connection whose response names `close` in either
/// field; the transport checks only `Connection`.
pub fn has_close_token(headers: &Vec<RequestHeader>) -> (r: bool)
    ensures
        r == exists|i: int| 0 <= i < headers@.len() && closes(#[trigger] headers@[i]),
{
    let mut i: usize = 0;
    while i < headers.len()
        invariant
            i <= headers@.len(),
            forall|j: int| 0 <= j < i ==> !closes(#[trigger] headers@[j]),
        decreases headers@.len() - i,
    {
        let name = headers[i].name.as_str();
        if same_text(name, "connection") || same_text(name, "proxy-connection") {
            match visible_text(headers[i].value.as_slice()) {
                Some(text) => {
                    if has_close(text.as_str()) {
                        assert(closes(headers@[i as int]));
                        return true;
                    }
                },
                None => {},
            }
        }
        i += 1;
    }
    false
}

/// The step after a challenge's body was read.
pub open spec fn step_after_drain(
    drained: Result<bool, RequestError>,
    headers: Seq<RequestHeader>,
) -> Http1Step {
    match drained {
        Err(error) => Http1Step::Fail { error, retire: true },
        Ok(ended) => if ended && !(exists|i: int|
            0 <= i < headers.len() && closes(#[trigger] headers[i])) {
            Http1Step::CheckIdle
        } else {
            Http1Step::Deliver { retire: true }
        },
    }
}

/// Decides what follows a challenge whose body was read.
pub fn after_drain(drained: Result<bool, RequestError>, headers: &Vec<RequestHeader>) -> (r:
    Http1Step)
    ensures
        r == step_after_drain(drained, headers@),
{
    match drained {
        Err(error) => Http1Step::Fail { error, retire: true },
        Ok(ended) => {
            if ended && !has_close_token(headers) {
                Http1Step::CheckIdle
            } else {
                Http1Step::Deliver { retire: true }
            }
        },
    }
}

/// Keeps a challenged connection for the replay if it is still idle, so no
/// other request can use it in between.
pub fn after_idle_check(
    idle: bool,
    connection: HeldConnection,
    challenged: &mut Option<ChallengedConnection>,
) -> (r: Http1Step)
    ensures
        idle && (*old(challenged)) is Some ==> r == Http1Step::Hold && *final(challenged) == Some(
            ChallengedConnection {
                held: Some(connection),
                replayed: (*old(challenged))->0.replayed,
            },
        ),
        !(idle && (*old(challenged)) is Some) ==> r == (Http1Step::Deliver { retire: true })
            && *final(challenged) == *old(challenged),
{
    match *challenged {
        Some(slot) => {
            if idle {
                *challenged = Some(
                    ChallengedConnection { held: Some(connection), replayed: slot.replayed },
                );
                Http1Step::Hold
            } else {
                Http1Step::Deliver { retire: true }
            }
        },
        None => Http1Step::Deliver { retire: true },
    }
}

/// A replay's challenge is final: its connection is retired and not kept.
pub proof fn a_replay_is_not_challenged_again(
    status: u16,
    mode: Http1ConnectionMode,
    route: RouteView,
    slot: ChallengedConnection,
)
    requires
        slot.replayed,
        is_challenge(mode, route, status),
    ensures
        step_after_send(Sent::Response(status), mode, route, Some(slot)) == (Http1Step::Deliver {
            retire: true,
        }),
{
}

/// A challenged connection never goes back to the idle ones: it is held for
/// the replay or retired.
pub proof fn a_challenged_connection_is_held_or_retired(
    status: u16,
    mode: Http1ConnectionMode,
    route: RouteView,
    challenged: Option<ChallengedConnection>,
    drained: Result<bool, RequestError>,
    headers: Seq<RequestHeader>,
)
    requires
        is_challenge(mode, route, status),
    ensures
        step_after_send(Sent::Response(status), mode, route, challenged) != (Http1Step::Deliver {
            retire: false,
        }),
        step_after_drain(drained, headers) != (Http1Step::Deliver { retire: false }),
        forall|error: RequestError|
            step_after_drain(drained, headers) != (#[trigger] failed(error, false)),
{
}

/// A failure.
pub open spec fn failed(error: RequestError, retire: bool) -> Http1Step {
    Http1Step::Fail { error, retire }
}

} // verus!
