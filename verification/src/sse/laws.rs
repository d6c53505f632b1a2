//! What holds of event streams and sources across calls.

use vstd::prelude::*;
use vstd::utf8::encode_utf8;
use crate::ascii::{CR, LF};
use crate::endpoint::HttpProtocol;
use crate::error::RequestError;
use crate::sse::decoder::{Decoded, DecoderView};
use crate::sse::event_source::{SourceReading, SourceView};
use crate::sse::request::{placed_fields, placeholders, resolved, retry_after, SseHeaderView};
use crate::sse::response::HeadView;
use crate::sse::stream::{
    fresh_stream, lemma_decoded_all, Frame, Reading, Received, StreamView,
};
use crate::sse::types::SseLimits;
use crate::time::Instant;

verus! {

/// How the bytes of a stream are cut into chunks makes no difference.
pub proof fn chunks_do_not_matter(decoder: DecoderView, first: Seq<u8>, second: Seq<u8>)
    ensures
        decoder.decoded(first).1 is More ==> decoder.decoded(first + second) == decoder.decoded(
            first,
        ).0.decoded(second),
        !(decoder.decoded(first).1 is More) ==> decoder.decoded(first + second) == (
            decoder.decoded(first).0,
            decoder.decoded(first).1,
            decoder.decoded(first).2 + second,
        ),
    decreases first.len(),
{
    let all = first + second;
    if first.len() == 0 {
        assert(all =~= second);
    } else {
        let (next, said) = decoder.step(first[0]);
        assert(all[0] == first[0]);
        assert(all.skip(1) =~= first.skip(1) + second);
        if said is More {
            chunks_do_not_matter(next, first.skip(1), second);
        }
    }
}

/// The bytes that frames carry.
pub open spec fn body_bytes(frames: Seq<Frame>) -> Seq<u8>
    decreases frames.len(),
{
    if frames.len() == 0 {
        Seq::empty()
    } else {
        (match frames[0] {
            Frame::Data(data) => data@,
            _ => Seq::empty(),
        }) + body_bytes(frames.skip(1))
    }
}

/// Whether frames come from a body that does not fail.
pub open spec fn clean(frames: Seq<Frame>) -> bool {
    forall|i: int|
        0 <= i < frames.len() ==> (#[trigger] frames[i]) is Data || frames[i] is Other
}

/// What a stream reads next from a body that has `frames` left and then ends:
/// the stream and the frames left after it, and the event, the failure or the
/// end that it says.
pub open spec fn next_event(stream: StreamView, frames: Seq<Frame>, now: Instant) -> (
    StreamView,
    Seq<Frame>,
    Reading,
)
    decreases frames.len(),
{
    let (next, said) = stream.read();
    if !(said is Wait) {
        (next, frames, said)
    } else if frames.len() == 0 {
        let (over, _) = next.received(Frame::End, now);
        (over, frames, Reading::Ended)
    } else {
        let (after, step) = next.received(frames[0], now);
        match step {
            Received::Continue => next_event(after, frames.skip(1), now),
            Received::Ended => (after, frames.skip(1), Reading::Ended),
            Received::Failed(error) => (after, frames.skip(1), Reading::Failed(error)),
        }
    }
}

/// What a stream reads in the call after `n` others.
pub open spec fn event_after(stream: StreamView, frames: Seq<Frame>, now: Instant, n: nat) -> (
    StreamView,
    Seq<Frame>,
    Reading,
)
    decreases n,
{
    if n == 0 {
        next_event(stream, frames, now)
    } else {
        let (before, left, _) = event_after(stream, frames, now, (n - 1) as nat);
        next_event(before, left, now)
    }
}

/// Whether two streams with the frames left to them have the same to read:
/// both have ended, or their decoders agree and so do the bytes to come.
spec fn alike(
    a: StreamView,
    a_left: Seq<Frame>,
    b: StreamView,
    b_left: Seq<Frame>,
) -> bool {
    &&& a.idle_timeout is None && b.idle_timeout is None
    &&& a.decoder == b.decoder
    &&& a.finished == b.finished
    &&& clean(a_left) && clean(b_left)
    &&& !a.finished ==> a.pending + body_bytes(a_left) == b.pending + body_bytes(b_left)
}

/// What a stream reads next depends on its decoder and the bytes to come.
proof fn lemma_next_event(stream: StreamView, frames: Seq<Frame>, now: Instant)
    requires
        clean(frames),
        stream.idle_timeout is None,
        !stream.finished,
    ensures
        ({
            let (next, left, said) = next_event(stream, frames, now);
            let (decoder, result, rest) = stream.decoder.decoded(
                stream.pending + body_bytes(frames),
            );
            &&& next.idle_timeout is None
            &&& clean(left)
            &&& match result {
                Decoded::Event(event) => {
                    &&& said == Reading::Event(event)
                    &&& next.decoder == decoder
                    &&& !next.finished
                    &&& next.pending + body_bytes(left) == rest
                },
                Decoded::Failed(error) => {
                    &&& said == Reading::Failed(error)
                    &&& next.decoder == decoder.discarded()
                    &&& next.finished
                },
                Decoded::More => {
                    &&& said == Reading::Ended
                    &&& next.decoder == decoder.discarded()
                    &&& next.finished
                },
            }
        }),
    decreases frames.len(),
{
    let all = body_bytes(frames);
    chunks_do_not_matter(stream.decoder, stream.pending, all);
    lemma_decoded_all(stream.decoder, stream.pending);
    let (next, said) = stream.read();
    if said is Wait {
        if frames.len() == 0 {
            assert(stream.pending + all =~= stream.pending);
        } else {
            let rest = frames.skip(1);
            assert forall|i: int| 0 <= i < rest.len() implies (#[trigger] rest[i]) is Data
                || rest[i] is Other by {
                assert(rest[i] == frames[i + 1]);
            }
            assert(frames[0] is Data || frames[0] is Other);
            let (after, _) = next.received(frames[0], now);
            assert(after.pending + body_bytes(rest) =~= all);
            lemma_next_event(after, rest, now);
        }
    }
}

/// Two fresh streams with equal limits and no idle timeout, over bodies that
/// end cleanly and hold the same bytes, say the same in every call, however
/// the bytes are divided into frames. Their last-event IDs and retry delays
/// agree after each.
pub proof fn the_division_of_a_body_does_not_matter(
    limits: SseLimits,
    first: Seq<Frame>,
    second: Seq<Frame>,
    now: Instant,
    calls: nat,
)
    requires
        clean(first),
        clean(second),
        body_bytes(first) == body_bytes(second),
    ensures
        ({
            let a = event_after(fresh_stream(limits), first, now, calls);
            let b = event_after(fresh_stream(limits), second, now, calls);
            &&& a.2 == b.2
            &&& a.0.decoder.last_event_id == b.0.decoder.last_event_id
            &&& a.0.decoder.retry_delay == b.0.decoder.retry_delay
        }),
{
    lemma_alike(limits, first, second, now, calls);
}

proof fn lemma_alike(
    limits: SseLimits,
    first: Seq<Frame>,
    second: Seq<Frame>,
    now: Instant,
    calls: nat,
)
    requires
        clean(first),
        clean(second),
        body_bytes(first) == body_bytes(second),
    ensures
        ({
            let a = event_after(fresh_stream(limits), first, now, calls);
            let b = event_after(fresh_stream(limits), second, now, calls);
            alike(a.0, a.1, b.0, b.1) && a.2 == b.2
        }),
    decreases calls,
{
    let fresh = fresh_stream(limits);
    if calls == 0 {
        assert(fresh.pending + body_bytes(first) =~= body_bytes(first));
        assert(fresh.pending + body_bytes(second) =~= body_bytes(second));
        lemma_next_event(fresh, first, now);
        lemma_next_event(fresh, second, now);
    } else {
        lemma_alike(limits, first, second, now, (calls - 1) as nat);
        let a = event_after(fresh, first, now, (calls - 1) as nat);
        let b = event_after(fresh, second, now, (calls - 1) as nat);
        if !a.0.finished {
            lemma_next_event(a.0, a.1, now);
            lemma_next_event(b.0, b.1, now);
        }
    }
}

/// Once a stream has ended or failed, every later call says that it has
/// ended.
pub proof fn an_ended_stream_stays_ended(
    stream: StreamView,
    frames: Seq<Frame>,
    now: Instant,
    later: nat,
)
    ensures
        !(next_event(stream, frames, now).2 is Event) ==> event_after(
            stream,
            frames,
            now,
            later + 1,
        ).2 == Reading::Ended,
{
    lemma_ends_finished(stream, frames, now);
    if !(next_event(stream, frames, now).2 is Event) {
        lemma_stays_finished(stream, frames, now, later + 1);
    }
}

proof fn lemma_ends_finished(stream: StreamView, frames: Seq<Frame>, now: Instant)
    ensures
        !(next_event(stream, frames, now).2 is Wait),
        !(next_event(stream, frames, now).2 is Event) ==> next_event(
            stream,
            frames,
            now,
        ).0.finished,
    decreases frames.len(),
{
    let (next, said) = stream.read();
    if said is Wait && frames.len() > 0 {
        let (after, _) = next.received(frames[0], now);
        lemma_ends_finished(after, frames.skip(1), now);
    }
}

proof fn lemma_stays_finished(stream: StreamView, frames: Seq<Frame>, now: Instant, n: nat)
    requires
        next_event(stream, frames, now).0.finished,
    ensures
        event_after(stream, frames, now, n).0.finished,
        n > 0 ==> event_after(stream, frames, now, n).2 == Reading::Ended,
    decreases n,
{
    if n > 0 {
        lemma_stays_finished(stream, frames, now, (n - 1) as nat);
    }
}

/// A decoder that skips a line feed next, or not.
pub open spec fn skipping(decoder: DecoderView, skip_lf: bool) -> DecoderView {
    DecoderView { skip_lf, ..decoder }
}

/// A carriage return, a line feed and both in a row end a line alike.
pub proof fn line_endings_are_alike(decoder: DecoderView)
    requires
        !decoder.skip_lf,
    ensures
        decoder.step(CR).1 == decoder.step(LF).1,
        decoder.step(CR).0.skip_lf,
        skipping(decoder.step(CR).0, false) == decoder.step(LF).0,
        decoder.step(CR).0.step(LF) == (decoder.step(LF).0, Decoded::More),
{
    let (a, b) = (skipping(decoder, true), skipping(decoder, false));
    assert(b == decoder);
    assert(a.unmarked() == b.unmarked());
    assert(a.dispatched() == b.dispatched());
}

/// Whether what a decoder holds keeps within its limits.
pub open spec fn bounded(decoder: DecoderView) -> bool {
    decoder.line.len() <= decoder.limits.max_line_bytes && decoder.event_bytes
        <= decoder.limits.max_event_bytes
}

/// A decoder never holds more of a line or of an event than its limits allow.
pub proof fn decoding_keeps_within_the_limits(decoder: DecoderView, bytes: Seq<u8>)
    requires
        bounded(decoder),
    ensures
        bounded(decoder.decoded(bytes).0),
        decoder.decoded(bytes).0.limits == decoder.limits,
    decreases bytes.len(),
{
    if bytes.len() > 0 {
        let (next, said) = decoder.step(bytes[0]);
        assert(bounded(next) && next.limits == decoder.limits);
        if said is More {
            decoding_keeps_within_the_limits(next, bytes.skip(1));
        }
    }
}

/// An event carries the last-event ID that the stream has from then on.
pub proof fn an_event_commits_its_id(decoder: DecoderView, bytes: Seq<u8>)
    ensures
        decoder.decoded(bytes).1 matches Decoded::Event(event) ==> decoder.decoded(
            bytes,
        ).0.last_event_id == event.id,
    decreases bytes.len(),
{
    if bytes.len() > 0 {
        let (next, said) = decoder.step(bytes[0]);
        if said is More {
            an_event_commits_its_id(next, bytes.skip(1));
        }
    }
}

/// What is thrown away at the end of a body was not dispatched, and the
/// committed ID and retry delay stay.
pub proof fn ending_a_stream_keeps_what_was_committed(decoder: DecoderView)
    ensures
        decoder.discarded().last_event_id == decoder.last_event_id,
        decoder.discarded().retry_delay == decoder.retry_delay,
        decoder.discarded().discarded() == decoder.discarded(),
{
}

/// A source never starts more attempts than its budget allows: reading starts
/// none, and an attempt starts only below the budget.
pub proof fn reconnects_keep_within_the_budget(
    source: SourceView,
    timer: Result<(), RequestError>,
    now: Instant,
)
    requires
        source.reconnects <= source.max_reconnects,
    ensures
        source.read(now).0.reconnects == source.reconnects,
        source.read(now).0.max_reconnects == source.max_reconnects,
        source.read(now).1 is WaitUntil ==> source.reconnects < source.max_reconnects,
        source.reconnects < source.max_reconnects ==> source.woken(timer).0.reconnects
            <= source.max_reconnects,
{
}

/// A source that has stopped stays so.
pub proof fn a_closed_source_stays_closed(source: SourceView, now: Instant)
    requires
        source.closed,
    ensures
        source.read(now) == (source, SourceReading::Closed),
{
}

/// A reconnect waits at least as long as the minimum, and exactly as long as
/// the server asked for where that is longer.
pub proof fn a_reconnect_waits_for_the_delay(
    source: SourceView,
    now: Instant,
)
    requires
        !source.closed,
        source.stream is None,
        !source.connecting,
        source.reconnect_at is None,
        source.reconnects < source.max_reconnects,
        now.reaches(retry_after(source.retry_delay, source.minimum_retry)),
    ensures
        source.read(now).1 matches SourceReading::WaitUntil(at) && {
            &&& at.nanos >= now.nanos + source.retry_delay.nanos
            &&& source.minimum_retry matches Some(minimum) ==> at.nanos >= now.nanos + minimum.nanos
            &&& at.nanos == now.nanos + source.retry_delay.nanos || source.minimum_retry is Some
        },
{
}

/// A source resumes after the last event it saw: the request of the next
/// attempt carries its ID, and so does the stream of the response.
pub proof fn a_reconnect_resumes_after_the_last_event(
    source: SourceView,
    template: Seq<SseHeaderView>,
    protocol: HttpProtocol,
    head: HeadView,
    now: Instant,
)
    requires
        source.last_event_id.len() > 0,
    ensures
        exists|i: int|
            0 <= i < resolved(template, protocol, source.last_event_id).len() && (
            #[trigger] resolved(template, protocol, source.last_event_id)[i]).value == encode_utf8(
                source.last_event_id,
            ),
        source.answered(head, now).0.stream matches Some(stream) ==> (head.status != 204
            && source.answered(head, now).1 is None ==> stream.decoder.last_event_id
            == source.last_event_id),
{
    let id = source.last_event_id;
    let all = resolved(template, protocol, id);
    if placeholders(template) > 0 {
        lemma_placeholder(template, id);
    } else {
        let before = placed_fields(template, id);
        assert(all[before.len() as int].value == encode_utf8(id));
    }
}

proof fn lemma_placeholder(template: Seq<SseHeaderView>, id: Seq<char>)
    requires
        placeholders(template) > 0,
        id.len() > 0,
    ensures
        exists|i: int|
            0 <= i < placed_fields(template, id).len() && (#[trigger] placed_fields(
                template,
                id,
            )[i]).value == encode_utf8(id),
    decreases template.len(),
{
    let before = placed_fields(template.drop_last(), id);
    let all = placed_fields(template, id);
    match template.last() {
        SseHeaderView::LastEventId(name) => {
            assert(all[before.len() as int].value == encode_utf8(id));
        },
        SseHeaderView::Field(_) => {
            lemma_placeholder(template.drop_last(), id);
            let i = choose|i: int|
                0 <= i < before.len() && (#[trigger] before[i]).value == encode_utf8(id);
            assert(all[i] == before[i]);
        },
    }
}

} // verus!
