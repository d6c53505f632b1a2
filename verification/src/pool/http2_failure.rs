//! What a failed HTTP/2 stream says of its connection.

use vstd::prelude::*;
use crate::error::RequestError;

verus! {

/// The kind of an HTTP/2 failure.
#[derive(Clone, Copy, Debug, PartialEq, Eq, Structural)]
pub enum Http2FailureKind {
    /// The peer reset the stream.
    StreamReset,
    /// The connection failed, or the peer said goodbye.
    ConnectionError,
    /// Another protocol failure.
    Protocol,
    /// Not a protocol failure.
    Other,
}

/// A failed HTTP/2 stream.
#[derive(Clone, Copy, Debug, PartialEq, Eq, Structural)]
pub struct Http2Failure {
    pub kind: Http2FailureKind,
    /// The error code of the peer.
    pub reason_code: Option<u32>,
    /// Whether the peer says that it did not process the request.
    pub unprocessed: bool,
    /// What the request fails with.
    pub error: RequestError,
}

/// What follows a failed stream.
#[derive(Clone, Copy, Debug, PartialEq, Eq, Structural)]
pub struct AfterFailure {
    /// The connection takes no other stream.
    pub invalidate: bool,
    /// The request is repeated on a replacement connection.
    pub replay: bool,
}

impl Http2Failure {
    /// Whether the failure is one of the whole connection.
    pub open spec fn invalidates(self) -> bool {
        self.kind == Http2FailureKind::ConnectionError || self.kind == Http2FailureKind::Protocol
    }

    /// Whether the peer refused the stream with `GOAWAY(NO_ERROR)` before
    /// processing it.
    pub open spec fn graceful(self) -> bool {
        self.kind == Http2FailureKind::ConnectionError && self.reason_code == Some(0u32)
    }

    /// What follows: a failed connection, and one that refused a stream when
    /// unprocessed requests are replayed, take no other stream; a request that
    /// may repeat does so once after a graceful goodbye.
    pub open spec fn outcome(
        self,
        retire_unprocessed: bool,
        repeatable: bool,
        repeated: bool,
    ) -> AfterFailure {
        AfterFailure {
            invalidate: self.invalidates() || (retire_unprocessed && self.unprocessed),
            replay: repeatable && !repeated && self.graceful(),
        }
    }

    /// Returns whether the peer said goodbye without an error.
    pub fn is_graceful_goaway(&self) -> (r: bool)
        ensures
            r == self.graceful(),
    {
        let zero = match self.reason_code {
            Some(code) => code == 0,
            None => false,
        };
        self.kind == Http2FailureKind::ConnectionError && zero
    }

    /// Returns what follows a failed stream.
    pub fn after(&self, retire_unprocessed: bool, repeatable: bool, repeated: bool) -> (r:
        AfterFailure)
        ensures
            r == self.outcome(retire_unprocessed, repeatable, repeated),
    {
        let invalidates = self.kind == Http2FailureKind::ConnectionError || self.kind
            == Http2FailureKind::Protocol;
        AfterFailure {
            invalidate: invalidates || (retire_unprocessed && self.unprocessed),
            replay: repeatable && !repeated && self.is_graceful_goaway(),
        }
    }
}

/// Whether a request may be repeated after a graceful goodbye: only a GET
/// without a body and without trailers.
pub open spec fn may_repeat(is_get: bool, has_body: bool, trailers: nat) -> bool {
    is_get && !has_body && trailers == 0
}

/// Returns whether a request may be repeated after a graceful goodbye.
pub fn repeatable(is_get: bool, has_body: bool, trailers: usize) -> (r: bool)
    ensures
        r == may_repeat(is_get, has_body, trailers as nat),
{
    is_get && !has_body && trailers == 0
}

/// A request is repeated at most once, and never one with a body.
pub proof fn a_request_is_repeated_at_most_once(
    failure: Http2Failure,
    retire_unprocessed: bool,
    is_get: bool,
    has_body: bool,
    trailers: nat,
)
    ensures
        !failure.outcome(retire_unprocessed, may_repeat(is_get, has_body, trailers), true).replay,
        has_body ==> !failure.outcome(
            retire_unprocessed,
            may_repeat(is_get, has_body, trailers),
            false,
        ).replay,
{
}

/// A replay never finds the connection that said goodbye.
pub proof fn a_replay_uses_another_connection(
    failure: Http2Failure,
    retire_unprocessed: bool,
    repeatable: bool,
    repeated: bool,
)
    ensures
        failure.outcome(retire_unprocessed, repeatable, repeated).replay ==> failure.outcome(
            retire_unprocessed,
            repeatable,
            repeated,
        ).invalidate,
{
}

} // verus!
