//! Limits, events and failures of event streams.

use vstd::prelude::*;
use crate::error::RequestError;

verus! {

pub const DEFAULT_MAX_LINE_BYTES: usize = 65_536;

pub const DEFAULT_MAX_EVENT_BYTES: usize = 1_048_576;

/// Memory limits applied while decoding one server-sent event stream.
///
/// A line or event block over its limit fails with
/// [`SseErrorKind::LineTooLong`] or [`SseErrorKind::EventTooLarge`] and
/// releases the response body.
#[derive(Clone, Copy, Debug, PartialEq, Eq, Structural)]
pub struct SseLimits {
    pub max_line_bytes: usize,
    pub max_event_bytes: usize,
}

impl SseLimits {
    /// Creates limits from a maximum line length and aggregate event-block size.
    ///
    /// Both limits count encoded bytes and exclude line terminators. Any value
    /// is accepted; a zero limit rejects the first nonempty line or event
    /// block, respectively.
    pub fn new(max_line_bytes: usize, max_event_bytes: usize) -> (r: Self)
        ensures
            r == (SseLimits { max_line_bytes, max_event_bytes }),
    {
        SseLimits { max_line_bytes, max_event_bytes }
    }

    /// Returns the maximum encoded bytes accepted before a line ending.
    pub fn max_line_bytes(self) -> (r: usize)
        ensures
            r == self.max_line_bytes,
    {
        self.max_line_bytes
    }

    /// Returns the maximum aggregate encoded bytes in one event block.
    pub fn max_event_bytes(self) -> (r: usize)
        ensures
            r == self.max_event_bytes,
    {
        self.max_event_bytes
    }
}

impl Default for SseLimits {
    fn default() -> (r: Self)
        ensures
            r == (SseLimits {
                max_line_bytes: DEFAULT_MAX_LINE_BYTES,
                max_event_bytes: DEFAULT_MAX_EVENT_BYTES,
            }),
    {
        SseLimits::new(DEFAULT_MAX_LINE_BYTES, DEFAULT_MAX_EVENT_BYTES)
    }
}

/// One event dispatched from a `text/event-stream` response.
#[derive(Clone, Debug, PartialEq, Eq)]
pub struct SseEvent {
    pub data: String,
    pub event: String,
    pub id: String,
}

/// What an [`SseEvent`] holds.
pub struct EventView {
    pub data: Seq<char>,
    pub event: Seq<char>,
    pub id: Seq<char>,
}

impl View for SseEvent {
    type V = EventView;

    open spec fn view(&self) -> EventView {
        EventView { data: self.data@, event: self.event@, id: self.id@ }
    }
}

impl SseEvent {
    /// Returns the event data, with multiple `data` fields joined by newlines.
    pub fn data(&self) -> (r: &str)
        ensures
            r@ == self.data@,
    {
        self.data.as_str()
    }

    /// Returns the event type, or `message` when the stream omitted one.
    pub fn event(&self) -> (r: &str)
        ensures
            r@ == self.event@,
    {
        self.event.as_str()
    }

    /// Returns the stream's persistent last-event ID at dispatch time.
    pub fn id(&self) -> (r: &str)
        ensures
            r@ == self.id@,
    {
        self.id.as_str()
    }
}

/// Stable category of SSE response or decoding failure.
#[derive(Clone, Copy, Debug, PartialEq, Eq, Structural)]
#[non_exhaustive]
pub enum SseErrorKind {
    /// The request could not be prepared or sent.
    Request,
    /// The caller supplied a literal field reserved for SSE reconnect state
    /// or an invalid `Last-Event-ID` placeholder.
    InvalidRequestHeader,
    /// The reconnect delay cannot be represented by the runtime clock.
    InvalidReconnectDelay,
    /// The idle timeout cannot be represented by the runtime clock.
    InvalidIdleTimeout,
    /// The response status was not 200 OK.
    UnexpectedStatus,
    /// The response did not have a `text/event-stream` content type.
    InvalidContentType,
    /// The response applies a content encoding that this decoder cannot accept.
    UnsupportedContentEncoding,
    /// A line exceeded [`SseLimits::max_line_bytes`].
    LineTooLong,
    /// An event block exceeded [`SseLimits::max_event_bytes`].
    EventTooLarge,
    /// Reading the underlying HTTP response body failed.
    Body,
    /// The response body produced no DATA before the configured deadline.
    IdleTimeout,
    /// The configured reconnect-attempt budget was exhausted.
    ReconnectLimit,
}

/// Error returned while validating or decoding an SSE response.
#[derive(Clone, Copy, Debug)]
pub struct SseError {
    pub kind: SseErrorKind,
    pub message: &'static str,
    pub source: Option<RequestError>,
}

/// What an [`SseError`] holds.
pub struct SseErrorView {
    pub kind: SseErrorKind,
    pub message: Seq<char>,
    pub source: Option<RequestError>,
}

impl View for SseError {
    type V = SseErrorView;

    open spec fn view(&self) -> SseErrorView {
        SseErrorView { kind: self.kind, message: self.message@, source: self.source }
    }
}

/// A failure without a source.
pub open spec fn failure(kind: SseErrorKind, message: Seq<char>) -> SseErrorView {
    SseErrorView { kind, message, source: None }
}

/// A failed response body.
pub open spec fn body_failure(source: RequestError) -> SseErrorView {
    SseErrorView {
        kind: SseErrorKind::Body,
        message: "SSE response body failed"@,
        source: Some(source),
    }
}

/// A failed request.
pub open spec fn request_failure(source: RequestError) -> SseErrorView {
    SseErrorView {
        kind: SseErrorKind::Request,
        message: "SSE request failed"@,
        source: Some(source),
    }
}

/// An exhausted reconnect budget.
pub open spec fn limit_failure(source: Option<RequestError>) -> SseErrorView {
    SseErrorView {
        kind: SseErrorKind::ReconnectLimit,
        message: "SSE reconnect limit was reached"@,
        source,
    }
}

/// A body that produced nothing in time.
pub open spec fn idle_failure() -> SseErrorView {
    failure(SseErrorKind::IdleTimeout, "SSE response body reached its idle timeout"@)
}

/// An idle timeout beyond the clock.
pub open spec fn idle_range_failure() -> SseErrorView {
    failure(
        SseErrorKind::InvalidIdleTimeout,
        "SSE idle timeout exceeds the runtime clock range"@,
    )
}

/// A reconnect delay beyond the clock.
pub open spec fn delay_range_failure() -> SseErrorView {
    failure(
        SseErrorKind::InvalidReconnectDelay,
        "SSE reconnect delay exceeds the runtime clock range"@,
    )
}

impl SseError {
    /// A failure without a source.
    pub fn without_source(kind: SseErrorKind, message: &'static str) -> (r: Self)
        ensures
            r@ == failure(kind, message@),
    {
        SseError { kind, message, source: None }
    }

    /// A failed response body.
    pub fn body(source: RequestError) -> (r: Self)
        ensures
            r@ == body_failure(source),
    {
        SseError {
            kind: SseErrorKind::Body,
            message: "SSE response body failed",
            source: Some(source),
        }
    }

    /// A failed request.
    pub fn request(source: RequestError) -> (r: Self)
        ensures
            r@ == request_failure(source),
    {
        SseError {
            kind: SseErrorKind::Request,
            message: "SSE request failed",
            source: Some(source),
        }
    }

    /// A committed event ID that no field can carry.
    pub fn unrepresentable_last_event_id() -> (r: Self)
        ensures
            r@ == failure(
                SseErrorKind::Request,
                "committed SSE event ID cannot be sent as a Last-Event-ID field value"@,
            ),
    {
        SseError::without_source(
            SseErrorKind::Request,
            "committed SSE event ID cannot be sent as a Last-Event-ID field value",
        )
    }

    /// A request field that the caller may not supply.
    pub fn invalid_request_header(message: &'static str) -> (r: Self)
        ensures
            r@ == failure(SseErrorKind::InvalidRequestHeader, message@),
    {
        SseError::without_source(SseErrorKind::InvalidRequestHeader, message)
    }

    /// A reconnect delay beyond the clock.
    pub fn invalid_reconnect_delay() -> (r: Self)
        ensures
            r@ == delay_range_failure(),
    {
        SseError::without_source(
            SseErrorKind::InvalidReconnectDelay,
            "SSE reconnect delay exceeds the runtime clock range",
        )
    }

    /// An idle timeout beyond the clock.
    pub fn invalid_idle_timeout() -> (r: Self)
        ensures
            r@ == idle_range_failure(),
    {
        SseError::without_source(
            SseErrorKind::InvalidIdleTimeout,
            "SSE idle timeout exceeds the runtime clock range",
        )
    }

    /// A body that produced nothing in time.
    pub fn idle_timeout() -> (r: Self)
        ensures
            r@ == idle_failure(),
    {
        SseError::without_source(
            SseErrorKind::IdleTimeout,
            "SSE response body reached its idle timeout",
        )
    }

    /// An exhausted reconnect budget.
    pub fn reconnect_limit(source: Option<RequestError>) -> (r: Self)
        ensures
            r@ == limit_failure(source),
    {
        SseError {
            kind: SseErrorKind::ReconnectLimit,
            message: "SSE reconnect limit was reached",
            source,
        }
    }

    /// Returns the stable failure category.
    pub fn kind(&self) -> (r: SseErrorKind)
        ensures
            r == self.kind,
    {
        self.kind
    }

    /// Returns what this error says, without its source.
    pub fn message(&self) -> (r: &'static str)
        ensures
            r@ == self.message@,
    {
        self.message
    }
}

} // verus!
