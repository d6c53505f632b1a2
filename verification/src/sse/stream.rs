//! Reading one event stream.

use vstd::prelude::*;
use crate::error::RequestError;
use crate::sse::decoder::{DecodeStep, Decoded, Decoder, DecoderView};
use crate::sse::response::{head_refusal, validate_response, ResponseHead};
use crate::sse::types::{
    body_failure, idle_failure, idle_range_failure, request_failure, EventView, SseError,
    SseErrorView, SseEvent, SseLimits,
};
use crate::time::{Duration, Instant};

verus! {

/// The state of a stream.
pub struct StreamView {
    pub decoder: DecoderView,
    /// The bytes that the decoder has not read yet.
    pub pending: Seq<u8>,
    pub idle_timeout: Option<Duration>,
    pub idle_deadline: Option<Instant>,
    pub finished: bool,
}

/// What a stream does next.
pub enum Reading {
    Event(EventView),
    Failed(SseErrorView),
    Ended,
    /// Waits for a frame of the body until a deadline.
    Wait(Option<Instant>),
}

/// What became of a wait for a frame.
#[derive(Debug)]
pub enum Frame {
    /// A frame with data.
    Data(Vec<u8>),
    /// A frame without data.
    Other,
    /// The body ended.
    End,
    /// The body failed.
    Failed(RequestError),
    /// The deadline passed.
    Idle,
    /// The timer failed.
    TimerFailed(RequestError),
}

/// What a stream makes of a frame.
pub enum Received {
    Continue,
    Ended,
    Failed(SseErrorView),
}

/// The deadline of a wait that starts at `now`; nothing beyond the clock.
pub open spec fn idle_from(timeout: Option<Duration>, now: Instant) -> Option<Option<Instant>> {
    match timeout {
        None => Some(None),
        Some(timeout) => if now.reaches(timeout) {
            Some(Some(now.after(timeout)))
        } else {
            None
        },
    }
}

impl StreamView {
    /// The state once the stream has ended for good.
    pub open spec fn ended(self) -> StreamView {
        StreamView {
            decoder: self.decoder.discarded(),
            pending: Seq::empty(),
            finished: true,
            ..self
        }
    }

    /// The state after the stream read what it has, and what it does next.
    pub open spec fn read(self) -> (StreamView, Reading) {
        if self.finished {
            (self, Reading::Ended)
        } else {
            let (decoder, said, pending) = self.decoder.decoded(self.pending);
            let next = StreamView { decoder, pending, ..self };
            match said {
                Decoded::Event(event) => (next, Reading::Event(event)),
                Decoded::Failed(error) => (next.ended(), Reading::Failed(error)),
                Decoded::More => (next, Reading::Wait(self.idle_deadline)),
            }
        }
    }

    /// The state after data arrived at `now`, and what the stream makes of it.
    pub open spec fn with_data(self, data: Seq<u8>, now: Instant) -> (StreamView, Received) {
        match idle_from(self.idle_timeout, now) {
            Some(deadline) => (
                StreamView {
                    pending: data,
                    idle_deadline: if self.idle_timeout is Some {
                        deadline
                    } else {
                        self.idle_deadline
                    },
                    ..self
                },
                Received::Continue,
            ),
            None => (self.ended(), Received::Failed(idle_range_failure())),
        }
    }

    /// The state after a wait for a frame, and what the stream makes of it.
    pub open spec fn received(self, frame: Frame, now: Instant) -> (StreamView, Received) {
        match frame {
            Frame::Data(data) => self.with_data(data@, now),
            Frame::Other => (self, Received::Continue),
            Frame::End => (self.ended(), Received::Ended),
            Frame::Failed(error) => (self.ended(), Received::Failed(body_failure(error))),
            Frame::Idle => (self.ended(), Received::Failed(idle_failure())),
            Frame::TimerFailed(error) => (self.ended(), Received::Failed(request_failure(error))),
        }
    }
}

/// What a stream does next.
#[derive(Debug)]
pub enum StreamStep {
    Event(SseEvent),
    Failed(SseError),
    Ended,
    /// Waits for a frame of the body until a deadline.
    Wait(Option<Instant>),
}

impl View for StreamStep {
    type V = Reading;

    open spec fn view(&self) -> Reading {
        match self {
            StreamStep::Event(event) => Reading::Event(event@),
            StreamStep::Failed(error) => Reading::Failed(error@),
            StreamStep::Ended => Reading::Ended,
            StreamStep::Wait(deadline) => Reading::Wait(*deadline),
        }
    }
}

/// What a stream makes of a frame.
#[derive(Debug)]
pub enum FrameStep {
    Continue,
    Ended,
    Failed(SseError),
}

impl View for FrameStep {
    type V = Received;

    open spec fn view(&self) -> Received {
        match self {
            FrameStep::Continue => Received::Continue,
            FrameStep::Ended => Received::Ended,
            FrameStep::Failed(error) => Received::Failed(error@),
        }
    }
}

/// The decoder of a fresh stream that resumes after an event.
pub open spec fn fresh_decoder(
    limits: SseLimits,
    last_event_id: Seq<char>,
    retry_delay: Option<Duration>,
) -> DecoderView {
    DecoderView {
        limits,
        line: Seq::empty(),
        skip_lf: false,
        stream_start: true,
        data: Seq::empty(),
        event_type: Seq::empty(),
        id_buffer: last_event_id,
        last_event_id,
        retry_delay,
        event_bytes: 0,
    }
}

/// A fresh stream without an idle timeout.
pub open spec fn fresh_stream(limits: SseLimits) -> StreamView {
    StreamView {
        decoder: fresh_decoder(limits, Seq::empty(), None),
        pending: Seq::empty(),
        idle_timeout: None,
        idle_deadline: None,
        finished: false,
    }
}

/// What may be shown of a stream: nothing that it has read.
#[derive(Clone, Copy, Debug, PartialEq, Eq)]
pub struct RedactedStream {
    pub limits: SseLimits,
    pub idle_timeout: Option<Duration>,
    pub buffered_line_bytes: usize,
    pub buffered_event_bytes: usize,
    pub finished: bool,
}

/// Pull-based decoder over a streaming response body.
///
/// A stream reads one response and never reconnects. It does nothing by
/// itself: [`SseStream::next_step`] says what it waits for, and
/// [`SseStream::receive`] takes what came of the wait.
pub struct SseStream {
    decoder: Decoder,
    idle_timeout: Option<Duration>,
    idle_deadline: Option<Instant>,
    finished: bool,
}

impl SseStream {
    /// The state of the stream.
    pub closed spec fn view(&self) -> StreamView {
        StreamView {
            decoder: self.decoder@,
            pending: self.decoder.pending(),
            idle_timeout: self.idle_timeout,
            idle_deadline: self.idle_deadline,
            finished: self.finished,
        }
    }

    /// The decoder is consistent.
    pub closed spec fn wf(&self) -> bool {
        self.decoder.wf()
    }

    /// Validates a response and reads it with the default limits.
    pub fn from_response(head: &ResponseHead) -> (r: Result<Self, SseError>)
        ensures
            match r {
                Ok(stream) => {
                    &&& head_refusal(head@) is None
                    &&& stream.wf()
                    &&& stream@ == fresh_stream(
                        SseLimits { max_line_bytes: 65_536, max_event_bytes: 1_048_576 },
                    )
                },
                Err(error) => head_refusal(head@) == Some(error@),
            },
    {
        SseStream::from_response_with_limits(head, SseLimits::default())
    }

    /// Validates a response and reads it with caller-supplied limits.
    pub fn from_response_with_limits(head: &ResponseHead, limits: SseLimits) -> (r: Result<
        Self,
        SseError,
    >)
        ensures
            match r {
                Ok(stream) => {
                    &&& head_refusal(head@) is None
                    &&& stream.wf()
                    &&& stream@ == fresh_stream(limits)
                },
                Err(error) => head_refusal(head@) == Some(error@),
            },
    {
        match validate_response(head) {
            Ok(_) => {},
            Err(error) => {
                return Err(error);
            },
        }
        let stream = SseStream {
            decoder: Decoder::new(limits),
            idle_timeout: None,
            idle_deadline: None,
            finished: false,
        };
        assert(stream@.pending =~= Seq::empty());
        Ok(stream)
    }

    /// Validates a response and reads it as the continuation of an earlier
    /// one.
    pub fn from_response_with_state(
        head: &ResponseHead,
        limits: SseLimits,
        last_event_id: String,
        retry_delay: Duration,
        idle_timeout: Option<Duration>,
        now: Instant,
    ) -> (r: Result<Self, SseError>)
        ensures
            match r {
                Ok(stream) => {
                    &&& head_refusal(head@) is None
                    &&& idle_from(idle_timeout, now) is Some
                    &&& stream.wf()
                    &&& stream@ == (StreamView {
                        decoder: fresh_decoder(limits, last_event_id@, Some(retry_delay)),
                        pending: Seq::empty(),
                        idle_timeout,
                        idle_deadline: idle_from(idle_timeout, now)->0,
                        finished: false,
                    })
                },
                Err(error) => Some(error@) == (if head_refusal(head@) is Some {
                    head_refusal(head@)
                } else {
                    Some(idle_range_failure())
                }) && (head_refusal(head@) is Some || idle_from(idle_timeout, now) is None),
            },
    {
        match validate_response(head) {
            Ok(_) => {},
            Err(error) => {
                return Err(error);
            },
        }
        let idle_deadline = match idle_timeout {
            Some(timeout) => match now.checked_add(timeout) {
                Some(deadline) => Some(deadline),
                None => {
                    return Err(SseError::invalid_idle_timeout());
                },
            },
            None => None,
        };
        let stream = SseStream {
            decoder: Decoder::with_state(limits, last_event_id, Some(retry_delay)),
            idle_timeout,
            idle_deadline,
            finished: false,
        };
        assert(stream@.pending =~= Seq::empty());
        Ok(stream)
    }

    /// Reads what has arrived and says what to do next.
    ///
    /// An event without a terminating blank line is discarded at end of body.
    /// Empty-data blocks update persistent ID and retry state but are not
    /// returned as events. After a failure the stream has ended.
    pub fn next_step(&mut self) -> (r: StreamStep)
        requires
            old(self).wf(),
        ensures
            final(self).wf(),
            (final(self)@, r@) == old(self)@.read(),
            r is Wait ==> final(self)@.pending.len() == 0 && !final(self)@.finished,
    {
        if self.finished {
            return StreamStep::Ended;
        }
        proof {
            lemma_decoded_all(self.decoder@, self.decoder.pending());
        }
        match self.decoder.decode_available() {
            DecodeStep::Event(event) => StreamStep::Event(event),
            DecodeStep::Failed(error) => {
                self.finish();
                StreamStep::Failed(error)
            },
            DecodeStep::More => StreamStep::Wait(self.idle_deadline),
        }
    }

    /// Takes what came of a wait for a frame.
    pub fn receive(&mut self, frame: Frame, now: Instant) -> (r: FrameStep)
        requires
            old(self).wf(),
            old(self)@.pending.len() == 0,
            !old(self)@.finished,
        ensures
            final(self).wf(),
            (final(self)@, r@) == old(self)@.received(frame, now),
    {
        match frame {
            Frame::Data(data) => {
                match self.idle_timeout {
                    Some(timeout) => match now.checked_add(timeout) {
                        Some(deadline) => {
                            self.idle_deadline = Some(deadline);
                        },
                        None => {
                            self.finish();
                            return FrameStep::Failed(SseError::invalid_idle_timeout());
                        },
                    },
                    None => {},
                }
                self.decoder.replace_chunk(data);
                FrameStep::Continue
            },
            Frame::Other => FrameStep::Continue,
            Frame::End => {
                self.finish();
                FrameStep::Ended
            },
            Frame::Failed(error) => {
                self.finish();
                FrameStep::Failed(SseError::body(error))
            },
            Frame::Idle => {
                self.finish();
                FrameStep::Failed(SseError::idle_timeout())
            },
            Frame::TimerFailed(error) => {
                self.finish();
                FrameStep::Failed(SseError::request(error))
            },
        }
    }

    fn finish(&mut self)
        ensures
            final(self).wf(),
            final(self)@ == old(self)@.ended(),
    {
        self.finished = true;
        self.decoder.discard_pending();
        assert(self@.pending =~= Seq::empty());
    }

    /// Returns what may be shown of this stream.
    pub fn redacted(&self) -> (r: RedactedStream)
        ensures
            r == (RedactedStream {
                limits: self@.decoder.limits,
                idle_timeout: self@.idle_timeout,
                buffered_line_bytes: self@.decoder.line.len() as usize,
                buffered_event_bytes: self@.decoder.event_bytes,
                finished: self@.finished,
            }),
    {
        let (line, event): (usize, usize) = self.decoder.buffered();
        RedactedStream {
            limits: self.decoder.limits(),
            idle_timeout: self.idle_timeout,
            buffered_line_bytes: line,
            buffered_event_bytes: event,
            finished: self.finished,
        }
    }

    /// Returns the persistent last-event ID observed so far.
    pub fn last_event_id(&self) -> (r: &str)
        ensures
            r@ == self@.decoder.last_event_id,
    {
        self.decoder.last_event_id()
    }

    /// Returns the latest valid `retry` duration observed in the stream.
    pub fn retry_delay(&self) -> (r: Option<Duration>)
        ensures
            r == self@.decoder.retry_delay,
    {
        self.decoder.retry_delay()
    }

    /// Returns the active decoder limits.
    pub fn limits(&self) -> (r: SseLimits)
        ensures
            r == self@.decoder.limits,
    {
        self.decoder.limits()
    }
}

/// Where nothing is said, every byte was read.
pub proof fn lemma_decoded_all(decoder: DecoderView, bytes: Seq<u8>)
    ensures
        decoder.decoded(bytes).1 is More ==> decoder.decoded(bytes).2.len() == 0,
    decreases bytes.len(),
{
    if bytes.len() > 0 {
        let (next, said) = decoder.step(bytes[0]);
        if said is More {
            lemma_decoded_all(next, bytes.skip(1));
        }
    }
}

} // verus!
