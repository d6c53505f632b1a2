use phantom::endpoint::{HttpProtocol, RequestHeader, Route};
use phantom::error::{RequestError, RequestErrorKind};
use phantom::sse::decoder::{DecodeStep, Decoder};
use phantom::sse::event_source::{SourceStep, SseEventSource};
use phantom::sse::request::{
    default_headers, effective_retry, is_reconnectable, resolve_template, validate_template,
    SseHeader, SseRequestBuilder,
};
use phantom::sse::response::{validate_response, ResponseHead};
use phantom::sse::stream::{Frame, FrameStep, SseStream, StreamStep};
use phantom::sse::types::{SseErrorKind, SseEvent, SseLimits};
use phantom::time::{Duration, Instant};
use phantom::timeout::RequestTimeouts;

type TestResult = Result<(), Box<dyn std::error::Error>>;

const ZERO: Duration = Duration { nanos: 0 };

/// The longest duration that the standard library has.
const FOREVER: Duration = Duration {
    nanos: std::time::Duration::MAX.as_nanos(),
};

fn field(name: &str, value: &str) -> SseHeader {
    SseHeader::field(RequestHeader::new(name, value.as_bytes()))
}

fn names(headers: &[RequestHeader]) -> Vec<&str> {
    headers.iter().map(|header| header.name.as_str()).collect()
}

fn at(seconds: u64) -> Instant {
    Instant {
        nanos: 1_000_000_000_000 + Duration::from_secs(seconds).nanos,
    }
}

fn head(status: u16, headers: &[(&str, &[u8])]) -> ResponseHead {
    ResponseHead {
        status,
        headers: headers
            .iter()
            .map(|&(name, value)| RequestHeader::new(name, value))
            .collect(),
    }
}

fn event_stream() -> ResponseHead {
    head(200, &[("content-type", b"text/event-stream")])
}

fn event(data: &str, event: &str, id: &str) -> SseEvent {
    SseEvent {
        data: data.to_owned(),
        event: event.to_owned(),
        id: id.to_owned(),
    }
}

/// Every event of a stream that arrives in these chunks.
fn decode(decoder: &mut Decoder, chunks: &[&[u8]]) -> Result<Vec<SseEvent>, SseErrorKind> {
    let mut events = Vec::new();
    for chunk in chunks {
        decoder.replace_chunk(chunk.to_vec());
        loop {
            match decoder.decode_available() {
                DecodeStep::More => break,
                DecodeStep::Event(event) => events.push(event),
                DecodeStep::Failed(error) => return Err(error.kind()),
            }
        }
    }
    Ok(events)
}

fn connection_failure() -> RequestError {
    RequestError::new(RequestErrorKind::Connect, Some(HttpProtocol::Http1))
}

#[test]
fn default_headers_preserve_protocol_spelling_and_order() {
    for (protocol, expected_names) in [
        (HttpProtocol::Http1, ["Accept", "Cache-Control"]),
        (HttpProtocol::Http2, ["accept", "cache-control"]),
        (HttpProtocol::Http3, ["accept", "cache-control"]),
    ] {
        let headers = resolve_template(&default_headers(protocol), protocol, "");
        assert_eq!(names(&headers), expected_names);
        assert_eq!(headers[0].value, b"text/event-stream");
        assert_eq!(headers[1].value, b"no-cache");
    }
}

#[test]
fn placeholder_emits_the_committed_id_at_its_position_with_caller_spelling() {
    let template = vec![
        field("Accept", "text/event-stream"),
        SseHeader::last_event_id("last-EVENT-id"),
        field("Referer", "http://origin.test/"),
    ];

    let headers = resolve_template(&template, HttpProtocol::Http1, "é-☃");

    assert_eq!(names(&headers), ["Accept", "last-EVENT-id", "Referer"]);
    assert_eq!(headers[1].value, "é-☃".as_bytes());
}

#[test]
fn empty_committed_id_omits_the_placeholder_field() {
    let template = vec![
        field("Accept", "text/event-stream"),
        SseHeader::last_event_id("Last-Event-ID"),
        field("Referer", "http://origin.test/"),
    ];

    let headers = resolve_template(&template, HttpProtocol::Http1, "");

    assert_eq!(names(&headers), ["Accept", "Referer"]);
}

#[test]
fn template_without_placeholder_appends_a_nonempty_id_last() {
    for (protocol, expected) in [
        (HttpProtocol::Http1, "Last-Event-ID"),
        (HttpProtocol::Http2, "last-event-id"),
        (HttpProtocol::Http3, "last-event-id"),
    ] {
        let headers = resolve_template(&default_headers(protocol), protocol, "7");
        assert_eq!(headers.len(), 3);
        assert_eq!(headers[2].name, expected);
        assert_eq!(headers[2].value, b"7");
        assert_eq!(
            resolve_template(&default_headers(protocol), protocol, "").len(),
            2
        );
    }
}

#[test]
fn template_validation_rejects_literal_repeated_and_misspelled_last_event_id() {
    let rejected = [
        (HttpProtocol::Http1, vec![field("last-event-id", "caller")]),
        (
            HttpProtocol::Http1,
            vec![
                SseHeader::last_event_id("Last-Event-ID"),
                SseHeader::last_event_id("Last-Event-ID"),
            ],
        ),
        (
            HttpProtocol::Http1,
            vec![SseHeader::last_event_id("Last-Event")],
        ),
        (
            HttpProtocol::Http1,
            vec![SseHeader::last_event_id("Last-Event-ID ")],
        ),
        (
            HttpProtocol::Http2,
            vec![SseHeader::last_event_id("Last-Event-ID")],
        ),
        (
            HttpProtocol::Http3,
            vec![SseHeader::last_event_id("Last-Event-ID")],
        ),
    ];
    for (protocol, template) in rejected {
        let error = validate_template(&template, protocol)
            .err()
            .unwrap_or_else(|| {
                let shown: Vec<_> = template.iter().map(SseHeader::redacted).collect();
                panic!("{protocol:?} accepted {shown:?}")
            });
        assert_eq!(error.kind(), SseErrorKind::InvalidRequestHeader);
    }

    for (protocol, name) in [
        (HttpProtocol::Http1, "Last-Event-ID"),
        (HttpProtocol::Http1, "LAST-EVENT-ID"),
        (HttpProtocol::Http2, "last-event-id"),
        (HttpProtocol::Http3, "last-event-id"),
    ] {
        let template = vec![SseHeader::last_event_id(name)];
        assert!(
            validate_template(&template, protocol).is_ok(),
            "{name} rejected"
        );
    }
}

#[test]
fn minimum_retry_raises_only_shorter_delays() {
    let minimum = Some(Duration::from_millis(500));
    assert_eq!(effective_retry(ZERO, None), ZERO);
    assert_eq!(
        effective_retry(Duration::from_millis(100), minimum),
        Duration::from_millis(500)
    );
    assert_eq!(
        effective_retry(Duration::from_millis(750), minimum),
        Duration::from_millis(750)
    );
}

#[test]
fn events_are_dispatched_at_blank_lines() {
    let mut decoder = Decoder::new(SseLimits::default());
    let text = b"\xef\xbb\xbf: comment\ndata: one\ndata:two\r\nevent: update\rid: 7\n\n\
        data\n\nevent: lost\n\nid: 8\nid: 9\0\nunknown: x\n\ndata:  spaced\n\n";
    assert_eq!(
        decode(&mut decoder, &[text]),
        Ok(vec![
            event("one\ntwo", "update", "7"),
            event("", "message", "7"),
            event(" spaced", "message", "8"),
        ])
    );
    assert_eq!(decoder.last_event_id(), "8");
}

#[test]
fn decoding_does_not_depend_on_the_chunks() {
    let text: &[u8] = b"data: one\r\n\r\ndata: \xe2\x98\x83\r\n\r\ndata: \xff\n\n";
    let mut whole = Decoder::new(SseLimits::default());
    let expected = vec![
        event("one", "message", ""),
        event("\u{2603}", "message", ""),
        event("\u{fffd}", "message", ""),
    ];
    assert_eq!(decode(&mut whole, &[text]), Ok(expected.clone()));
    let mut bytes = Decoder::new(SseLimits::default());
    let chunks: Vec<&[u8]> = text.chunks(1).collect();
    assert_eq!(decode(&mut bytes, &chunks), Ok(expected));
}

#[test]
fn a_retry_is_a_number_in_milliseconds() {
    let mut decoder = Decoder::new(SseLimits::default());
    assert_eq!(decoder.retry_delay(), None);
    assert_eq!(decode(&mut decoder, &[b"retry: 1500\n"]), Ok(vec![]));
    assert_eq!(decoder.retry_delay(), Some(Duration::from_millis(1500)));
    let ignored: &[u8] = b"retry: -1\nretry: 1s\nretry:\nretry: 18446744073709551616\n";
    assert_eq!(decode(&mut decoder, &[ignored]), Ok(vec![]));
    assert_eq!(decoder.retry_delay(), Some(Duration::from_millis(1500)));
}

#[test]
fn lines_and_events_are_bounded() {
    let limits = SseLimits::new(8, 12);
    assert_eq!((limits.max_line_bytes(), limits.max_event_bytes()), (8, 12));
    let mut decoder = Decoder::new(limits);
    assert_eq!(decoder.limits(), limits);
    assert_eq!(
        decode(&mut decoder, &[b"data: 34\n\n"]),
        Ok(vec![event("34", "message", "")])
    );
    assert_eq!(
        decode(&mut decoder, &[b"data: 345"]),
        Err(SseErrorKind::LineTooLong)
    );
    let mut decoder = Decoder::new(limits);
    assert_eq!(
        decode(&mut decoder, &[b"data: 1\ndata:\n\ndata: 1\ndata: 1\n"]),
        Err(SseErrorKind::EventTooLarge)
    );
    let defaults = SseLimits::default();
    assert_eq!(defaults.max_line_bytes(), 65_536);
    assert_eq!(defaults.max_event_bytes(), 1_048_576);
}

#[test]
fn only_an_identity_event_stream_is_read() {
    let accepted: [&[(&str, &[u8])]; 3] = [
        &[("content-type", b"text/event-stream")],
        &[("content-type", b"Text/Event-Stream ; charset=utf-8")],
        &[
            ("content-type", b"text/event-stream"),
            ("content-encoding", b"identity, IDENTITY"),
        ],
    ];
    for headers in accepted {
        assert!(validate_response(&head(200, headers)).is_ok());
    }
    let kind = |head: ResponseHead| validate_response(&head).err().map(|error| error.kind());
    assert_eq!(
        kind(head(201, &[("content-type", b"text/event-stream")])),
        Some(SseErrorKind::UnexpectedStatus)
    );
    let rejected: [&[(&str, &[u8])]; 3] = [
        &[],
        &[("content-type", b"text/plain")],
        &[
            ("content-type", b"text/event-stream"),
            ("content-type", b"text/event-stream"),
        ],
    ];
    for headers in rejected {
        assert_eq!(
            kind(head(200, headers)),
            Some(SseErrorKind::InvalidContentType)
        );
    }
    assert_eq!(
        kind(head(
            200,
            &[
                ("content-type", b"text/event-stream"),
                ("content-encoding", b"identity, gzip"),
            ]
        )),
        Some(SseErrorKind::UnsupportedContentEncoding)
    );
}

#[test]
fn a_stream_ends_once() -> TestResult {
    let Ok(mut stream) = SseStream::from_response(&event_stream()) else {
        return Err("the response is an event stream".into());
    };
    assert!(matches!(stream.next_step(), StreamStep::Wait(None)));
    assert!(matches!(
        stream.receive(Frame::Other, at(0)),
        FrameStep::Continue
    ));
    let data = b"id: 3\nretry: 20\ndata: whole\n\ndata: part".to_vec();
    assert!(matches!(
        stream.receive(Frame::Data(data), at(0)),
        FrameStep::Continue
    ));
    assert!(
        matches!(stream.next_step(), StreamStep::Event(found) if found == event("whole", "message", "3"))
    );
    assert!(matches!(stream.next_step(), StreamStep::Wait(None)));
    assert!(matches!(stream.receive(Frame::End, at(0)), FrameStep::Ended));
    assert!(matches!(stream.next_step(), StreamStep::Ended));
    assert_eq!(stream.last_event_id(), "3");
    assert_eq!(stream.retry_delay(), Some(Duration::from_millis(20)));
    assert_eq!(stream.limits(), SseLimits::default());
    Ok(())
}

#[test]
fn a_failed_body_ends_the_stream() -> TestResult {
    let error = RequestError::new(RequestErrorKind::Http1, None);
    for (frame, expected) in [
        (Frame::Failed(error), SseErrorKind::Body),
        (Frame::Idle, SseErrorKind::IdleTimeout),
        (Frame::TimerFailed(error), SseErrorKind::Request),
    ] {
        let Ok(mut stream) = SseStream::from_response(&event_stream()) else {
            return Err("the response is an event stream".into());
        };
        assert!(matches!(stream.next_step(), StreamStep::Wait(None)));
        let FrameStep::Failed(failure) = stream.receive(frame, at(0)) else {
            return Err("the frame ends the stream".into());
        };
        assert_eq!(failure.kind(), expected);
        assert!(matches!(stream.next_step(), StreamStep::Ended));
    }
    Ok(())
}

#[test]
fn data_moves_the_idle_deadline() -> TestResult {
    let idle = Duration::from_secs(30);
    let opened = |idle, now| {
        SseStream::from_response_with_state(
            &event_stream(),
            SseLimits::default(),
            String::from("5"),
            Duration::from_secs(2),
            Some(idle),
            now,
        )
    };
    let Ok(mut stream) = opened(idle, at(0)) else {
        return Err("the response is an event stream".into());
    };
    assert_eq!(stream.last_event_id(), "5");
    assert_eq!(stream.retry_delay(), Some(Duration::from_secs(2)));
    assert!(matches!(stream.next_step(), StreamStep::Wait(Some(deadline)) if deadline == at(30)));
    stream.receive(Frame::Other, at(10));
    assert!(matches!(stream.next_step(), StreamStep::Wait(Some(deadline)) if deadline == at(30)));
    stream.receive(Frame::Data(b": ping\n".to_vec()), at(10));
    assert!(matches!(stream.next_step(), StreamStep::Wait(Some(deadline)) if deadline == at(40)));
    let refused = opened(FOREVER, at(0)).err().map(|error| error.kind());
    assert_eq!(refused, Some(SseErrorKind::InvalidIdleTimeout));
    Ok(())
}

#[test]
fn a_builder_keeps_what_it_was_given() {
    let builder = SseRequestBuilder::new(HttpProtocol::Http2, "https://origin.test/events");
    assert_eq!(builder.max_reconnects, 3);
    assert_eq!(builder.initial_retry, Duration::from_secs(3));
    assert_eq!(builder.idle_timeout, None);
    assert!(builder.route.is_none() && builder.timeouts.is_none());
    assert!(builder.validate(at(0)).is_ok());

    let timeouts = RequestTimeouts::new().total(Duration::from_secs(9));
    let builder = builder
        .header(RequestHeader::new("x-one", b"1"))
        .route(Route::Direct)
        .request_timeouts(timeouts)
        .limits(SseLimits::new(1, 2))
        .idle_timeout(Duration::from_secs(4))
        .initial_retry(Duration::from_secs(5))
        .minimum_retry(Duration::from_secs(6))
        .max_reconnects(7);
    let fields = resolve_template(&builder.headers, builder.protocol, "");
    assert_eq!(names(&fields), ["accept", "cache-control", "x-one"]);
    assert_eq!(builder.route, Some(Route::Direct));
    assert_eq!(builder.timeouts, Some(timeouts));
    assert_eq!(builder.limits, SseLimits::new(1, 2));
    assert_eq!(builder.idle_timeout, Some(Duration::from_secs(4)));
    assert_eq!(builder.initial_retry, Duration::from_secs(5));
    assert_eq!(builder.minimum_retry, Some(Duration::from_secs(6)));
    assert_eq!(builder.max_reconnects, 7);

    let builder = builder.headers(vec![field("accept", "*/*")]);
    assert_eq!(builder.headers.len(), 1);
}

#[test]
fn a_builder_rejects_delays_beyond_the_clock() {
    let builder = || SseRequestBuilder::new(HttpProtocol::Http1, "http://origin.test/");
    let kind = |builder: SseRequestBuilder| {
        builder.validate(at(0)).err().map(|error| error.kind())
    };
    assert_eq!(
        kind(builder().initial_retry(FOREVER)),
        Some(SseErrorKind::InvalidReconnectDelay)
    );
    assert_eq!(kind(builder().initial_retry(FOREVER).max_reconnects(0)), None);
    assert_eq!(
        kind(builder().minimum_retry(FOREVER)),
        Some(SseErrorKind::InvalidReconnectDelay)
    );
    assert_eq!(
        kind(builder().idle_timeout(FOREVER)),
        Some(SseErrorKind::InvalidIdleTimeout)
    );
    assert_eq!(
        kind(builder().header(RequestHeader::new("Last-Event-ID", b"1"))),
        Some(SseErrorKind::InvalidRequestHeader)
    );
}

#[test]
fn an_initial_failure_is_retried_within_the_bound() {
    let builder = SseRequestBuilder::new(HttpProtocol::Http1, "http://origin.test/")
        .max_reconnects(1);
    let error = connection_failure();
    assert!(is_reconnectable(&error));
    assert_eq!(builder.retry_at(error, 0, at(0)).ok(), Some(at(3)));
    let kind = |result: Result<Instant, phantom::sse::types::SseError>| {
        result.err().map(|error| error.kind())
    };
    assert_eq!(
        kind(builder.retry_at(error, 1, at(0))),
        Some(SseErrorKind::ReconnectLimit)
    );
    let builder = builder.max_reconnects(0);
    assert_eq!(
        kind(builder.retry_at(error, 0, at(0))),
        Some(SseErrorKind::Request)
    );
}

#[test]
fn a_source_reconnects_with_the_last_event_id() -> TestResult {
    let builder = SseRequestBuilder::new(HttpProtocol::Http1, "http://origin.test/")
        .minimum_retry(Duration::from_secs(2))
        .max_reconnects(1);
    let Ok(mut source) = SseEventSource::open(builder, &event_stream(), 0, at(0)) else {
        return Err("the response is an event stream".into());
    };
    assert_eq!(source.retry_delay(), Duration::from_secs(3));
    assert!(matches!(source.next_step(at(0)), SourceStep::WaitFrame(None)));
    let data = b"retry: 10\nid: 4\ndata: x\n\n".to_vec();
    assert!(source.receive(Frame::Data(data), at(0)).is_none());
    assert!(
        matches!(source.next_step(at(0)), SourceStep::Event(found) if found == event("x", "message", "4"))
    );
    assert!(matches!(source.next_step(at(0)), SourceStep::WaitFrame(None)));
    assert!(source.receive(Frame::End, at(5)).is_none());

    assert_eq!(source.retry_delay(), Duration::from_millis(10));
    assert!(matches!(source.next_step(at(5)), SourceStep::WaitUntil(time) if time == at(7)));
    assert!(source.wake(Ok(())).is_none());
    assert_eq!(source.reconnects(), 1);
    assert!(matches!(source.next_step(at(7)), SourceStep::WaitResponse));
    assert_eq!(
        names(&source.request_headers()),
        ["Accept", "Cache-Control", "Last-Event-ID"]
    );
    assert!(source.respond(Ok(event_stream()), at(8)).is_none());
    assert!(matches!(source.next_step(at(8)), SourceStep::WaitFrame(None)));
    assert!(source.receive(Frame::End, at(9)).is_none());
    let SourceStep::Failed(error) = source.next_step(at(9)) else {
        return Err("the reconnects are used up".into());
    };
    assert_eq!(error.kind(), SseErrorKind::ReconnectLimit);
    assert!(source.is_closed());
    assert!(matches!(source.next_step(at(9)), SourceStep::Closed));
    assert_eq!(source.last_event_id(), "4");
    Ok(())
}

#[test]
fn a_response_without_content_closes_the_source() -> TestResult {
    let builder = || SseRequestBuilder::new(HttpProtocol::Http1, "http://origin.test/");
    let Ok(mut source) = SseEventSource::open(builder(), &head(204, &[]), 0, at(0)) else {
        return Err("204 closes the source".into());
    };
    assert!(source.is_closed());
    assert!(matches!(source.next_step(at(0)), SourceStep::Closed));

    let refused = SseEventSource::open(builder(), &head(500, &[]), 0, at(0));
    assert_eq!(
        refused.err().map(|error| error.kind()),
        Some(SseErrorKind::UnexpectedStatus)
    );
    Ok(())
}

#[test]
fn an_idle_source_reports_its_timeout() -> TestResult {
    let builder = SseRequestBuilder::new(HttpProtocol::Http1, "http://origin.test/")
        .idle_timeout(Duration::from_secs(4))
        .max_reconnects(0);
    let Ok(mut source) = SseEventSource::open(builder, &event_stream(), 0, at(0)) else {
        return Err("the response is an event stream".into());
    };
    assert_eq!(source.idle_timeout(), Some(Duration::from_secs(4)));
    assert!(
        matches!(source.next_step(at(0)), SourceStep::WaitFrame(Some(time)) if time == at(4))
    );
    assert!(source.receive(Frame::Idle, at(4)).is_none());
    let SourceStep::Failed(error) = source.next_step(at(4)) else {
        return Err("no reconnect is allowed".into());
    };
    assert_eq!(error.kind(), SseErrorKind::IdleTimeout);
    Ok(())
}

#[test]
fn an_id_that_no_field_can_carry_is_not_sent() -> TestResult {
    let builder = SseRequestBuilder::new(HttpProtocol::Http1, "http://origin.test/");
    let Ok(mut source) = SseEventSource::open(builder, &event_stream(), 0, at(0)) else {
        return Err("the response is an event stream".into());
    };
    assert!(matches!(source.next_step(at(0)), SourceStep::WaitFrame(None)));
    source.receive(Frame::Data(b"id: \x7f\n\n".to_vec()), at(0));
    assert!(matches!(source.next_step(at(0)), SourceStep::WaitFrame(None)));
    source.receive(Frame::End, at(0));
    assert!(matches!(source.next_step(at(0)), SourceStep::WaitUntil(_)));
    let failure = source.wake(Ok(())).map(|error| error.kind());
    assert_eq!(failure, Some(SseErrorKind::Request));
    assert!(source.is_closed());
    Ok(())
}

#[test]
fn a_failed_reconnect_is_counted_or_final() -> TestResult {
    for (kind, ends) in [
        (RequestErrorKind::Connect, false),
        (RequestErrorKind::InvalidUri, true),
    ] {
        let builder = SseRequestBuilder::new(HttpProtocol::Http1, "http://origin.test/");
        let Ok(mut source) = SseEventSource::open(builder, &event_stream(), 0, at(0)) else {
            return Err("the response is an event stream".into());
        };
        assert!(matches!(source.next_step(at(0)), SourceStep::WaitFrame(None)));
        source.receive(Frame::End, at(0));
        assert!(matches!(source.next_step(at(0)), SourceStep::WaitUntil(_)));
        source.wake(Ok(()));
        let failure = source.respond(Err(RequestError::new(kind, None)), at(3));
        assert_eq!(failure.is_some(), ends);
        assert_eq!(source.is_closed(), ends);
        source.close();
        assert!(source.is_closed());
    }
    Ok(())
}

/// What each of some calls reads from a body in these frames, with the
/// last-event ID and the retry delay after it.
fn calls(frames: Vec<Frame>, n: usize) -> Vec<(String, String, Option<Duration>)> {
    let limits = SseLimits::default();
    let Ok(mut stream) = SseStream::from_response_with_limits(&event_stream(), limits) else {
        return Vec::new();
    };
    let mut frames = frames.into_iter();
    let mut read = Vec::new();
    for _ in 0..n {
        let said = loop {
            match stream.next_step() {
                StreamStep::Event(event) => break format!("{event:?}"),
                StreamStep::Failed(error) => break format!("{:?}", error.kind()),
                StreamStep::Ended => break "end".to_owned(),
                StreamStep::Wait(_) => {
                    let frame = frames.next().unwrap_or(Frame::End);
                    stream.receive(frame, at(0));
                }
            }
        };
        read.push((said, stream.last_event_id().to_owned(), stream.retry_delay()));
    }
    read
}

#[test]
fn the_division_of_a_body_into_frames_does_not_matter() {
    let body = "\u{feff}id: 1\r\ndata: \u{e9}\r\n\r\nretry: 20\n\ndata: b\r\rdata: lost".as_bytes();
    let whole = calls(vec![Frame::Data(body.to_vec())], 4);
    assert_eq!(whole[0].0, format!("{:?}", event("\u{e9}", "message", "1")));
    assert_eq!(whole[1].0, format!("{:?}", event("b", "message", "1")));
    assert_eq!(whole[1].2, Some(Duration::from_millis(20)));
    assert_eq!((whole[2].0.as_str(), whole[3].0.as_str()), ("end", "end"));

    let bytes = body
        .iter()
        .flat_map(|&byte| [Frame::Data(vec![byte]), Frame::Other])
        .collect();
    assert_eq!(calls(bytes, 4), whole);
    for cut in 0..body.len() {
        let (first, second) = body.split_at(cut);
        let frames = vec![Frame::Data(first.to_vec()), Frame::Data(second.to_vec())];
        assert_eq!(calls(frames, 4), whole, "{cut}");
    }
}

#[test]
fn a_line_that_is_not_utf8_is_read_with_replacements() {
    let mut decoder = Decoder::new(SseLimits::default());
    assert_eq!(
        decode(&mut decoder, &[b"data: a\xffb\n\n"]),
        Ok(vec![event("a\u{fffd}b", "message", "")])
    );
}

#[test]
fn nothing_read_or_sent_is_shown() -> TestResult {
    let secret = RequestHeader::new("x-token", b"hush");
    let builder = SseRequestBuilder::new(HttpProtocol::Http2, "https://origin.test/events")
        .header(secret)
        .route(Route::Direct)
        .idle_timeout(Duration::from_secs(4))
        .max_reconnects(2);
    let shown = builder.redacted();
    assert_eq!(shown.protocol, HttpProtocol::Http2);
    assert_eq!(shown.header_count, 3);
    assert!(shown.route_override && !shown.timeout_override);
    assert_eq!(shown.initial_retry, Duration::from_secs(3));
    assert_eq!((shown.idle_timeout, shown.max_reconnects), (builder.idle_timeout, 2));
    assert_eq!(shown.limits, builder.limits);
    let entry = field("x-token", "hush").redacted();
    assert_eq!((entry.kind, entry.name.as_str()), ("field", "x-token"));
    let entry = SseHeader::last_event_id("Last-Event-ID").redacted();
    assert_eq!((entry.kind, entry.name.as_str()), ("last_event_id", "Last-Event-ID"));

    let Ok(mut source) = SseEventSource::open(builder, &event_stream(), 1, at(0)) else {
        return Err("the response is an event stream".into());
    };
    source.receive(Frame::Data(b"id: hush\n\n".to_vec()), at(0));
    assert!(matches!(source.next_step(at(0)), SourceStep::WaitFrame(_)));
    assert_eq!(source.last_event_id(), "hush");
    let shown = source.redacted();
    assert_eq!((shown.protocol, shown.reconnects), (HttpProtocol::Http2, 1));
    assert!(!shown.waiting && !shown.connecting && !shown.closed);
    assert!(!format!("{shown:?}").contains("hush"));
    source.receive(Frame::End, at(1));
    assert!(matches!(source.next_step(at(1)), SourceStep::WaitUntil(_)));
    assert!(source.redacted().waiting);
    source.wake(Ok(()));
    assert!(source.redacted().connecting);
    source.close();
    assert!(source.redacted().closed);

    let Ok(mut stream) = SseStream::from_response_with_limits(&event_stream(), SseLimits::new(64, 64))
    else {
        return Err("the response is an event stream".into());
    };
    stream.receive(Frame::Data(b"data: ab\nhush".to_vec()), at(0));
    assert!(matches!(stream.next_step(), StreamStep::Wait(None)));
    let shown = stream.redacted();
    assert_eq!(shown.limits, SseLimits::new(64, 64));
    assert_eq!((shown.idle_timeout, shown.buffered_line_bytes), (None, 4));
    assert_eq!(shown.buffered_event_bytes, 8);
    assert!(!shown.finished);
    assert!(!format!("{shown:?}").contains("hush"));
    Ok(())
}
