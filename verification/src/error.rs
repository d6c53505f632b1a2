//! Why a client could not be built or a request failed.

use vstd::prelude::*;
use crate::endpoint::HttpProtocol;
use crate::timeout::TimeoutPhase;

verus! {

/// The category of a [`BuildError`].
#[derive(Clone, Copy, Debug, PartialEq, Eq, Structural)]
pub enum BuildErrorKind {
    /// A policy value is invalid or needs a protocol the transport lacks.
    InvalidPolicy,
}

/// Why a client could not be built.
#[derive(Clone, Copy, Debug)]
pub struct BuildError {
    pub kind: BuildErrorKind,
    pub message: &'static str,
}

impl BuildError {
    /// An invalid policy, with its reason.
    pub fn invalid_policy(message: &'static str) -> (r: Self)
        ensures
            r.kind == BuildErrorKind::InvalidPolicy,
            r.message@ == message@,
    {
        Self { kind: BuildErrorKind::InvalidPolicy, message }
    }

    /// Returns the category.
    pub fn kind(&self) -> (r: BuildErrorKind)
        ensures
            r == self.kind,
    {
        self.kind
    }
}

/// The category of a [`RequestError`].
#[derive(Clone, Copy, Debug, PartialEq, Eq, Structural)]
pub enum RequestErrorKind {
    InvalidUri,
    InvalidAuthority,
    InvalidTarget,
    InvalidHeader,
    AuthorityHeader,
    UnsupportedScheme,
    UnsupportedRoute,
    ProtocolUnavailable,
    RequestTemplate,
    RequestBody,
    InvalidTimeout,
    Timeout,
    RuntimeUnavailable,
    Capacity,
    Resolve,
    Connect,
    Proxy,
    Tls,
    Http1,
    Http2,
    Http3,
    Redirect,
    ContentDecoding,
    ResponseBodyLimit,
}

/// Where an HTTP/3 connector failed.
#[derive(Clone, Copy, Debug, PartialEq, Eq, Structural)]
pub enum Http3ConnectorErrorKind {
    Configuration,
    Resolve,
    Endpoint,
    Connect,
    Connection,
    Handshake,
    Protocol,
    Request,
}

/// Why a request failed.
#[derive(Clone, Copy, Debug, PartialEq, Eq, Structural)]
pub struct RequestError {
    pub kind: RequestErrorKind,
    /// The phase whose limit was reached, for a timeout.
    pub phase: Option<TimeoutPhase>,
    /// The protocol the failure belongs to, where one was chosen.
    pub protocol: Option<HttpProtocol>,
    /// Where the HTTP/3 connector failed, when it is the source.
    pub http3: Option<Http3ConnectorErrorKind>,
}

impl RequestError {
    /// A failure of `kind` with nothing more to say of it.
    pub open spec fn of_kind(kind: RequestErrorKind, protocol: Option<HttpProtocol>) -> Self {
        RequestError { kind, phase: None, protocol, http3: None }
    }

    /// A failure of `kind`.
    pub fn new(kind: RequestErrorKind, protocol: Option<HttpProtocol>) -> (r: Self)
        ensures
            r == Self::of_kind(kind, protocol),
    {
        RequestError { kind, phase: None, protocol, http3: None }
    }

    /// The error of a limit that was reached in `phase`.
    pub open spec fn timed_out(phase: TimeoutPhase, protocol: Option<HttpProtocol>) -> Self {
        RequestError { kind: RequestErrorKind::Timeout, phase: Some(phase), protocol, http3: None }
    }

    /// A limit that was reached in `phase`.
    pub fn timeout(phase: TimeoutPhase, protocol: Option<HttpProtocol>) -> (r: Self)
        ensures
            r == Self::timed_out(phase, protocol),
    {
        RequestError { kind: RequestErrorKind::Timeout, phase: Some(phase), protocol, http3: None }
    }

    /// Returns the category.
    pub fn kind(&self) -> (r: RequestErrorKind)
        ensures
            r == self.kind,
    {
        self.kind
    }

    /// Returns the phase whose limit was reached.
    pub fn timeout_phase(&self) -> (r: Option<TimeoutPhase>)
        ensures
            r == self.phase,
    {
        self.phase
    }
}

} // verus!
