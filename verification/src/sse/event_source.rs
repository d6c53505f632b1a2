//! An event source that reconnects.

use vstd::prelude::*;
use vstd::utf8::encode_utf8;
use crate::endpoint::{headers_view, HttpProtocol, RequestHeader};
use crate::error::RequestError;
use crate::sse::request::{
    effective_retry, is_reconnectable, reconnectable, resolve_template, resolved, retry_after,
    template_items, SseHeader, SseHeaderView, SseRequestBuilder,
};
use crate::sse::response::{head_refusal, HeadView, ResponseHead};
use crate::sse::stream::{
    fresh_decoder, idle_from, Frame, FrameStep, Reading, Received, SseStream, StreamStep,
    StreamView,
};
use crate::sse::types::{
    delay_range_failure, failure, idle_failure, idle_range_failure, limit_failure, request_failure,
    EventView, SseError, SseErrorKind, SseErrorView, SseEvent, SseLimits,
};
use crate::time::{Duration, Instant};

verus! {

/// Why an earlier connection of a source ended.
#[derive(Clone, Copy, Debug)]
pub enum ReconnectFailure {
    Request(RequestError),
    IdleTimeout,
}

/// The state of an event source.
pub struct SourceView {
    pub stream: Option<StreamView>,
    pub limits: SseLimits,
    pub idle_timeout: Option<Duration>,
    pub last_event_id: Seq<char>,
    pub retry_delay: Duration,
    pub minimum_retry: Option<Duration>,
    pub max_reconnects: usize,
    pub reconnects: usize,
    /// When the next attempt starts, once that is known.
    pub reconnect_at: Option<Instant>,
    /// An attempt is under way.
    pub connecting: bool,
    pub last_failure: Option<ReconnectFailure>,
    pub closed: bool,
}

/// What a source does next.
pub enum SourceReading {
    Event(EventView),
    Closed,
    Failed(SseErrorView),
    /// Waits for a frame of the response body until a deadline.
    WaitFrame(Option<Instant>),
    /// Waits until the next attempt starts.
    WaitUntil(Instant),
    /// Waits for the response of the attempt under way.
    WaitResponse,
}

/// Whether a text can be the value of a field.
pub open spec fn is_field_value(text: Seq<char>) -> bool {
    forall|i: int|
        0 <= i < encode_utf8(text).len() ==> (32 <= #[trigger] encode_utf8(text)[i] && encode_utf8(
            text,
        )[i] != 127) || encode_utf8(text)[i] == 9
}

/// Calls `http::HeaderValue::from_bytes`, which takes exactly the bytes from
/// 32 on, save 127, and the tab.
#[verifier::external_body]
fn fits_field_value(text: &str) -> (r: bool)
    ensures
        r == is_field_value(text@),
{
    http::HeaderValue::from_bytes(text.as_bytes()).is_ok()
}

impl SourceView {
    /// The state with what the stream has learned.
    pub open spec fn synced(self) -> SourceView {
        match self.stream {
            Some(stream) => SourceView {
                last_event_id: stream.decoder.last_event_id,
                retry_delay: match stream.decoder.retry_delay {
                    Some(delay) => delay,
                    None => self.retry_delay,
                },
                ..self
            },
            None => self,
        }
    }

    /// The state of a source that has stopped for good.
    pub open spec fn stopped(self) -> SourceView {
        SourceView {
            stream: None,
            reconnect_at: None,
            connecting: false,
            last_failure: None,
            closed: true,
            ..self.synced()
        }
    }

    /// The state once the stream has failed, and the failure that ends the
    /// source, if it does. A failed body and an idle one are reconnected.
    pub open spec fn after_stream_failure(self, error: SseErrorView) -> (
        SourceView,
        Option<SseErrorView>,
    ) {
        match error.kind {
            SseErrorKind::Body => (
                SourceView {
                    stream: None,
                    last_failure: match error.source {
                        Some(source) => Some(ReconnectFailure::Request(source)),
                        None => None,
                    },
                    ..self
                },
                None,
            ),
            SseErrorKind::IdleTimeout => (
                SourceView {
                    stream: None,
                    last_failure: Some(ReconnectFailure::IdleTimeout),
                    ..self
                },
                None,
            ),
            _ => (SourceView { stream: None, closed: true, ..self }, Some(error)),
        }
    }

    /// The state of a source without a stream at `now`, and what it does next.
    pub open spec fn reconnecting(self, now: Instant) -> (SourceView, SourceReading) {
        let delay = retry_after(self.retry_delay, self.minimum_retry);
        if self.connecting {
            (self, SourceReading::WaitResponse)
        } else if self.reconnects >= self.max_reconnects {
            (
                SourceView { closed: true, last_failure: None, ..self },
                SourceReading::Failed(
                    match self.last_failure {
                        Some(ReconnectFailure::IdleTimeout) => idle_failure(),
                        Some(ReconnectFailure::Request(error)) => limit_failure(Some(error)),
                        None => limit_failure(None),
                    },
                ),
            )
        } else {
            match self.reconnect_at {
                Some(at) => (self, SourceReading::WaitUntil(at)),
                None => if now.reaches(delay) {
                    (
                        SourceView { reconnect_at: Some(now.after(delay)), ..self },
                        SourceReading::WaitUntil(now.after(delay)),
                    )
                } else {
                    (
                        SourceView { closed: true, ..self },
                        SourceReading::Failed(delay_range_failure()),
                    )
                },
            }
        }
    }

    /// The state after the source read what it has, and what it does next.
    pub open spec fn read(self, now: Instant) -> (SourceView, SourceReading) {
        if self.closed {
            (self, SourceReading::Closed)
        } else {
            match self.stream {
                None => self.reconnecting(now),
                Some(stream) => {
                    let (next, reading) = stream.read();
                    let synced = SourceView { stream: Some(next), ..self }.synced();
                    match reading {
                        Reading::Event(event) => (synced, SourceReading::Event(event)),
                        Reading::Wait(deadline) => (synced, SourceReading::WaitFrame(deadline)),
                        Reading::Ended => SourceView { stream: None, ..synced }.reconnecting(now),
                        Reading::Failed(error) => {
                            let (after, terminal) = synced.after_stream_failure(error);
                            match terminal {
                                Some(error) => (after, SourceReading::Failed(error)),
                                None => after.reconnecting(now),
                            }
                        },
                    }
                },
            }
        }
    }

    /// The state after a wait for a frame, and the failure that ends the
    /// source, if it does.
    pub open spec fn received(self, frame: Frame, now: Instant) -> (
        SourceView,
        Option<SseErrorView>,
    ) {
        let (next, received) = self.stream->0.received(frame, now);
        let synced = SourceView { stream: Some(next), ..self }.synced();
        match received {
            Received::Continue => (synced, None),
            Received::Ended => (SourceView { stream: None, ..synced }, None),
            Received::Failed(error) => synced.after_stream_failure(error),
        }
    }

    /// The state after the wait for the next attempt, and the failure that
    /// ends the source, if it does. Otherwise the attempt starts.
    pub open spec fn woken(self, timer: Result<(), RequestError>) -> (
        SourceView,
        Option<SseErrorView>,
    ) {
        match timer {
            Err(error) => (SourceView { closed: true, ..self }, Some(request_failure(error))),
            Ok(_) => {
                let counted = SourceView {
                    reconnect_at: None,
                    reconnects: (self.reconnects + 1) as usize,
                    ..self
                };
                if is_field_value(self.last_event_id) {
                    (SourceView { connecting: true, ..counted }, None)
                } else {
                    (
                        SourceView { closed: true, ..counted },
                        Some(
                            failure(
                                SseErrorKind::Request,
                                "committed SSE event ID cannot be sent as a Last-Event-ID field value"@,
                            ),
                        ),
                    )
                }
            },
        }
    }

    /// The state after an attempt failed, and the failure that ends the
    /// source, if it does.
    pub open spec fn refused(self, error: RequestError) -> (SourceView, Option<SseErrorView>) {
        let done = SourceView { connecting: false, ..self };
        if reconnectable(error.kind) {
            (
                SourceView { last_failure: Some(ReconnectFailure::Request(error)), ..done },
                None,
            )
        } else {
            (SourceView { closed: true, ..done }, Some(request_failure(error)))
        }
    }

    /// The state after a response arrived at `now`, and the failure that ends
    /// the source, if it does. A response without content closes it.
    pub open spec fn answered(self, head: HeadView, now: Instant) -> (
        SourceView,
        Option<SseErrorView>,
    ) {
        let done = SourceView { connecting: false, ..self };
        if head.status == 204 {
            (done.stopped(), None)
        } else {
            match opened(
                head,
                self.limits,
                self.last_event_id,
                self.retry_delay,
                self.idle_timeout,
                now,
            ) {
                Ok(stream) => (
                    SourceView { stream: Some(stream), last_failure: None, ..done },
                    None,
                ),
                Err(error) => (SourceView { closed: true, ..done }, Some(error)),
            }
        }
    }
}

/// The stream of a response at `now`, or why it carries none.
pub open spec fn opened(
    head: HeadView,
    limits: SseLimits,
    last_event_id: Seq<char>,
    retry_delay: Duration,
    idle_timeout: Option<Duration>,
    now: Instant,
) -> Result<StreamView, SseErrorView> {
    match head_refusal(head) {
        Some(error) => Err(error),
        None => match idle_from(idle_timeout, now) {
            None => Err(idle_range_failure()),
            Some(idle_deadline) => Ok(
                StreamView {
                    decoder: fresh_decoder(limits, last_event_id, Some(retry_delay)),
                    pending: Seq::empty(),
                    idle_timeout,
                    idle_deadline,
                    finished: false,
                },
            ),
        },
    }
}

/// What a source does next.
#[derive(Debug)]
pub enum SourceStep {
    Event(SseEvent),
    Closed,
    Failed(SseError),
    /// Waits for a frame of the response body until a deadline.
    WaitFrame(Option<Instant>),
    /// Waits until the next attempt starts.
    WaitUntil(Instant),
    /// Waits for the response of the attempt under way.
    WaitResponse,
}

impl View for SourceStep {
    type V = SourceReading;

    open spec fn view(&self) -> SourceReading {
        match self {
            SourceStep::Event(event) => SourceReading::Event(event@),
            SourceStep::Closed => SourceReading::Closed,
            SourceStep::Failed(error) => SourceReading::Failed(error@),
            SourceStep::WaitFrame(deadline) => SourceReading::WaitFrame(*deadline),
            SourceStep::WaitUntil(at) => SourceReading::WaitUntil(*at),
            SourceStep::WaitResponse => SourceReading::WaitResponse,
        }
    }
}

/// The source of a builder before its first response, which came after
/// `reconnects` retries.
pub open spec fn unopened(builder: SseRequestBuilder, reconnects: usize) -> SourceView {
    SourceView {
        stream: None,
        limits: builder.limits,
        idle_timeout: builder.idle_timeout,
        last_event_id: Seq::empty(),
        retry_delay: builder.initial_retry,
        minimum_retry: builder.minimum_retry,
        max_reconnects: builder.max_reconnects,
        reconnects,
        reconnect_at: None,
        connecting: false,
        last_failure: None,
        closed: false,
    }
}

/// What an optional failure says.
pub open spec fn said(error: Option<SseError>) -> Option<SseErrorView> {
    match error {
        Some(error) => Some(error@),
        None => None,
    }
}

/// What may be shown of a source: neither its fields nor what it has read.
#[derive(Clone, Copy, Debug, PartialEq, Eq)]
pub struct RedactedSource {
    pub protocol: HttpProtocol,
    pub limits: SseLimits,
    pub idle_timeout: Option<Duration>,
    pub max_reconnects: usize,
    pub reconnects: usize,
    pub waiting: bool,
    pub connecting: bool,
    pub closed: bool,
}

/// Pull-driven server-sent event source with bounded reconnects.
///
/// It does nothing by itself: [`SseEventSource::next_step`] says what it
/// waits for, and the other methods take what came of the wait.
pub struct SseEventSource {
    protocol: HttpProtocol,
    headers: Vec<SseHeader>,
    stream: Option<SseStream>,
    limits: SseLimits,
    idle_timeout: Option<Duration>,
    last_event_id: String,
    retry_delay: Duration,
    minimum_retry: Option<Duration>,
    max_reconnects: usize,
    reconnects: usize,
    reconnect_at: Option<Instant>,
    connecting: bool,
    last_failure: Option<ReconnectFailure>,
    closed: bool,
}

impl SseEventSource {
    /// The state of the source.
    pub closed spec fn view(&self) -> SourceView {
        SourceView {
            stream: match self.stream {
                Some(stream) => Some(stream@),
                None => None,
            },
            limits: self.limits,
            idle_timeout: self.idle_timeout,
            last_event_id: self.last_event_id@,
            retry_delay: self.retry_delay,
            minimum_retry: self.minimum_retry,
            max_reconnects: self.max_reconnects,
            reconnects: self.reconnects,
            reconnect_at: self.reconnect_at,
            connecting: self.connecting,
            last_failure: self.last_failure,
            closed: self.closed,
        }
    }

    /// The protocol and the template of its requests.
    pub closed spec fn template(&self) -> (HttpProtocol, Seq<SseHeaderView>) {
        (self.protocol, template_items(self.headers@))
    }

    /// The stream is consistent.
    pub closed spec fn wf(&self) -> bool {
        self.stream matches Some(stream) ==> stream.wf()
    }

    /// The source of a builder after its first response, which came at `now`
    /// after `reconnects` retries. A response without content makes a closed
    /// source.
    pub fn open(builder: SseRequestBuilder, head: &ResponseHead, reconnects: usize, now: Instant) -> (r: Result<
        Self,
        SseError,
    >)
        ensures
            ({
                let start = unopened(builder, reconnects);
                match r {
                    Ok(source) => source.wf() && (source@, None::<SseErrorView>) == start.answered(
                        head@,
                        now,
                    ) && source.template() == (builder.protocol, template_items(builder.headers@)),
                    Err(error) => start.answered(head@, now).1 == Some(error@),
                }
            }),
    {
        let id = String::new();
        assert(id@ =~= Seq::empty());
        let mut source = SseEventSource {
            protocol: builder.protocol,
            headers: builder.headers,
            stream: None,
            limits: builder.limits,
            idle_timeout: builder.idle_timeout,
            last_event_id: id,
            retry_delay: builder.initial_retry,
            minimum_retry: builder.minimum_retry,
            max_reconnects: builder.max_reconnects,
            reconnects,
            reconnect_at: None,
            connecting: false,
            last_failure: None,
            closed: false,
        };
        match source.answer(head, now) {
            Some(error) => Err(error),
            None => Ok(source),
        }
    }

    fn sync(&mut self)
        requires
            old(self).wf(),
        ensures
            final(self).wf(),
            final(self)@ == old(self)@.synced(),
            final(self).template() == old(self).template(),
            final(self).stream == old(self).stream,
    {
        match &self.stream {
            Some(stream) => {
                self.last_event_id = stream.last_event_id().to_owned();
                match stream.retry_delay() {
                    Some(delay) => {
                        self.retry_delay = delay;
                    },
                    None => {},
                }
            },
            None => {},
        }
    }

    fn after_failure(&mut self, error: SseError) -> (r: Option<SseError>)
        requires
            old(self).wf(),
        ensures
            final(self).wf(),
            (final(self)@, said(r)) == old(self)@.after_stream_failure(error@),
            final(self).template() == old(self).template(),
            final(self).stream is None,
    {
        self.stream = None;
        match error.kind {
            SseErrorKind::Body => {
                self.last_failure = match error.source {
                    Some(source) => Some(ReconnectFailure::Request(source)),
                    None => None,
                };
                None
            },
            SseErrorKind::IdleTimeout => {
                self.last_failure = Some(ReconnectFailure::IdleTimeout);
                None
            },
            _ => {
                self.closed = true;
                Some(error)
            },
        }
    }

    fn reconnect(&mut self, now: Instant) -> (r: SourceStep)
        requires
            old(self).wf(),
        ensures
            final(self).wf(),
            (final(self)@, r@) == old(self)@.reconnecting(now),
            final(self).template() == old(self).template(),
    {
        if self.connecting {
            return SourceStep::WaitResponse;
        }
        if self.reconnects >= self.max_reconnects {
            self.closed = true;
            let error = match self.last_failure {
                Some(ReconnectFailure::IdleTimeout) => SseError::idle_timeout(),
                Some(ReconnectFailure::Request(error)) => SseError::reconnect_limit(Some(error)),
                None => SseError::reconnect_limit(None),
            };
            self.last_failure = None;
            return SourceStep::Failed(error);
        }
        match self.reconnect_at {
            Some(at) => SourceStep::WaitUntil(at),
            None => match now.checked_add(effective_retry(self.retry_delay, self.minimum_retry)) {
                Some(at) => {
                    self.reconnect_at = Some(at);
                    SourceStep::WaitUntil(at)
                },
                None => {
                    self.closed = true;
                    SourceStep::Failed(SseError::invalid_reconnect_delay())
                },
            },
        }
    }

    /// Reads what has arrived and says what to do next.
    pub fn next_step(&mut self, now: Instant) -> (r: SourceStep)
        requires
            old(self).wf(),
        ensures
            final(self).wf(),
            (final(self)@, r@) == old(self)@.read(now),
            final(self).template() == old(self).template(),
            r is WaitFrame ==> final(self).ready(),
    {
        if self.closed {
            return SourceStep::Closed;
        }
        let step = match &mut self.stream {
            None => {
                return self.reconnect(now);
            },
            Some(stream) => stream.next_step(),
        };
        self.sync();
        match step {
            StreamStep::Event(event) => SourceStep::Event(event),
            StreamStep::Wait(deadline) => SourceStep::WaitFrame(deadline),
            StreamStep::Ended => {
                self.stream = None;
                self.reconnect(now)
            },
            StreamStep::Failed(error) => match self.after_failure(error) {
                Some(error) => SourceStep::Failed(error),
                None => self.reconnect(now),
            },
        }
    }

    /// The source waits for a frame of its response body.
    pub closed spec fn ready(&self) -> bool {
        self.stream matches Some(stream) && stream@.pending.len() == 0 && !stream@.finished
    }

    /// Takes what came of a wait for a frame.
    pub fn receive(&mut self, frame: Frame, now: Instant) -> (r: Option<SseError>)
        requires
            old(self).wf(),
            old(self).ready(),
        ensures
            final(self).wf(),
            (final(self)@, said(r)) == old(self)@.received(frame, now),
            final(self).template() == old(self).template(),
    {
        let step = match &mut self.stream {
            None => {
                return None;
            },
            Some(stream) => stream.receive(frame, now),
        };
        self.sync();
        match step {
            FrameStep::Continue => None,
            FrameStep::Ended => {
                self.stream = None;
                None
            },
            FrameStep::Failed(error) => self.after_failure(error),
        }
    }

    /// Takes what came of the wait for the next attempt. Unless that ends the
    /// source, the attempt starts with the fields of [`Self::request_headers`].
    pub fn wake(&mut self, timer: Result<(), RequestError>) -> (r: Option<SseError>)
        requires
            old(self).wf(),
            old(self)@.reconnects < old(self)@.max_reconnects,
        ensures
            final(self).wf(),
            (final(self)@, said(r)) == old(self)@.woken(timer),
            final(self).template() == old(self).template(),
    {
        match timer {
            Err(error) => {
                self.closed = true;
                return Some(SseError::request(error));
            },
            Ok(_) => {},
        }
        self.reconnect_at = None;
        self.reconnects = self.reconnects + 1;
        if !fits_field_value(self.last_event_id.as_str()) {
            self.closed = true;
            return Some(SseError::unrepresentable_last_event_id());
        }
        self.connecting = true;
        None
    }

    /// Returns the fields of the next attempt.
    pub fn request_headers(&self) -> (r: Vec<RequestHeader>)
        ensures
            headers_view(r@) == resolved(
                self.template().1,
                self.template().0,
                self@.last_event_id,
            ),
    {
        resolve_template(&self.headers, self.protocol, self.last_event_id.as_str())
    }

    /// Takes what came of an attempt: its response, or why it failed. Returns
    /// the failure that ends the source, if it does.
    pub fn respond(&mut self, result: Result<ResponseHead, RequestError>, now: Instant) -> (r: Option<
        SseError,
    >)
        requires
            old(self).wf(),
        ensures
            final(self).wf(),
            (final(self)@, said(r)) == (match result {
                Ok(head) => old(self)@.answered(head@, now),
                Err(error) => old(self)@.refused(error),
            }),
            final(self).template() == old(self).template(),
    {
        match result {
            Ok(head) => self.answer(&head, now),
            Err(error) => {
                self.connecting = false;
                if is_reconnectable(&error) {
                    self.last_failure = Some(ReconnectFailure::Request(error));
                    None
                } else {
                    self.closed = true;
                    Some(SseError::request(error))
                }
            },
        }
    }

    fn answer(&mut self, head: &ResponseHead, now: Instant) -> (r: Option<SseError>)
        requires
            old(self).wf(),
        ensures
            final(self).wf(),
            (final(self)@, said(r)) == old(self)@.answered(head@, now),
            final(self).template() == old(self).template(),
    {
        self.connecting = false;
        if head.status == 204 {
            self.close();
            return None;
        }
        match SseStream::from_response_with_state(
            head,
            self.limits,
            self.last_event_id.clone(),
            self.retry_delay,
            self.idle_timeout,
            now,
        ) {
            Ok(stream) => {
                self.stream = Some(stream);
                self.last_failure = None;
                None
            },
            Err(error) => {
                self.closed = true;
                Some(error)
            },
        }
    }

    /// Stops the source and releases an active response body.
    pub fn close(&mut self)
        requires
            old(self).wf(),
        ensures
            final(self).wf(),
            final(self)@ == old(self)@.stopped(),
            final(self).template() == old(self).template(),
    {
        self.sync();
        self.stream = None;
        self.reconnect_at = None;
        self.connecting = false;
        self.last_failure = None;
        self.closed = true;
    }

    /// Returns the persistent last-event ID observed so far.
    pub fn last_event_id(&self) -> (r: &str)
        ensures
            r@ == self@.synced().last_event_id,
    {
        match &self.stream {
            Some(stream) => stream.last_event_id(),
            None => self.last_event_id.as_str(),
        }
    }

    /// Returns what may be shown of this source.
    pub fn redacted(&self) -> (r: RedactedSource)
        ensures
            r == (RedactedSource {
                protocol: self.template().0,
                limits: self@.limits,
                idle_timeout: self@.idle_timeout,
                max_reconnects: self@.max_reconnects,
                reconnects: self@.reconnects,
                waiting: self@.reconnect_at is Some,
                connecting: self@.connecting,
                closed: self@.closed,
            }),
    {
        RedactedSource {
            protocol: self.protocol,
            limits: self.limits,
            idle_timeout: self.idle_timeout,
            max_reconnects: self.max_reconnects,
            reconnects: self.reconnects,
            waiting: self.reconnect_at.is_some(),
            connecting: self.connecting,
            closed: self.closed,
        }
    }

    /// Returns the current reconnect delay.
    pub fn retry_delay(&self) -> (r: Duration)
        ensures
            r == self@.synced().retry_delay,
    {
        match &self.stream {
            Some(stream) => match stream.retry_delay() {
                Some(delay) => delay,
                None => self.retry_delay,
            },
            None => self.retry_delay,
        }
    }

    /// Returns the number of reconnect requests started so far.
    pub fn reconnects(&self) -> (r: usize)
        ensures
            r == self@.reconnects,
    {
        self.reconnects
    }

    /// Returns the configured response-body idle timeout.
    pub fn idle_timeout(&self) -> (r: Option<Duration>)
        ensures
            r == self@.idle_timeout,
    {
        self.idle_timeout
    }

    /// Returns whether the source has stopped permanently.
    pub fn is_closed(&self) -> (r: bool)
        ensures
            r == self@.closed,
    {
        self.closed
    }
}

} // verus!
