//! What an event source sends, accepts and does after a failure.

use vstd::prelude::*;
use vstd::utf8::encode_utf8;
use crate::endpoint::{HeaderView, HttpProtocol, Route};
use crate::error::{RequestError, RequestErrorKind};
use crate::sse::event_source::{
    is_field_value, unopened, ReconnectFailure, SourceReading, SourceView,
};
use crate::sse::request::{
    after_failure, builder_refusal, default_items, first_refusal, item_refusal, placed_fields,
    placeholders, resolved, template_refusal, AfterFailure, SseHeader, SseHeaderView,
    SseRequestBuilder, template_items,
};
use crate::sse::response::{head_refusal, is_event_stream, is_identity, values_named, HeadView};
use crate::sse::stream::{Frame, Reading, Received, StreamView};
use crate::sse::types::{SseErrorKind, SseLimits};
use crate::text::{lowercase, split, trimmed_text, visible};
use crate::text_laws::{lower_case_ignores_ascii_case_alone, same_letters};
use crate::time::{Duration, Instant};
use crate::timeout::RequestTimeouts;

verus! {

/// Whether a template has no place for the ID.
pub open spec fn no_placeholder(template: Seq<SseHeaderView>) -> bool {
    forall|i: int| 0 <= i < template.len() ==> !((#[trigger] template[i]) is LastEventId)
}

/// The literal fields of a template without a placeholder.
pub open spec fn literal_fields(template: Seq<SseHeaderView>) -> Seq<HeaderView> {
    template.map_values(|item: SseHeaderView| item->Field_0)
}

proof fn lemma_literal(template: Seq<SseHeaderView>, id: Seq<char>)
    requires
        no_placeholder(template),
    ensures
        placed_fields(template, id) == literal_fields(template),
        placeholders(template) == 0,
    decreases template.len(),
{
    if template.len() > 0 {
        let front = template.drop_last();
        assert forall|i: int| 0 <= i < front.len() implies !((#[trigger] front[i]) is LastEventId) by {
            assert(front[i] == template[i]);
        }
        lemma_literal(front, id);
        assert(!(template[template.len() - 1] is LastEventId));
        assert(literal_fields(template) =~= literal_fields(front).push(template.last()->Field_0));
    } else {
        assert(literal_fields(template) =~= Seq::empty());
    }
}

proof fn lemma_placed(
    before: Seq<SseHeaderView>,
    name: Seq<char>,
    behind: Seq<SseHeaderView>,
    id: Seq<char>,
)
    requires
        no_placeholder(before),
        no_placeholder(behind),
    ensures
        ({
            let all = before + seq![SseHeaderView::LastEventId(name)] + behind;
            &&& placeholders(all) == 1
            &&& placed_fields(all, id) == literal_fields(before) + (if id.len() == 0 {
                Seq::empty()
            } else {
                seq![HeaderView { name, value: encode_utf8(id) }]
            }) + literal_fields(behind)
        }),
    decreases behind.len(),
{
    let all = before + seq![SseHeaderView::LastEventId(name)] + behind;
    if behind.len() == 0 {
        assert(all.drop_last() =~= before);
        lemma_literal(before, id);
        assert(literal_fields(behind) =~= Seq::empty());
        assert(placed_fields(all, id) =~= literal_fields(before) + (if id.len() == 0 {
            Seq::empty()
        } else {
            seq![HeaderView { name, value: encode_utf8(id) }]
        }) + literal_fields(behind));
    } else {
        let front = behind.drop_last();
        assert forall|i: int| 0 <= i < front.len() implies !((#[trigger] front[i]) is LastEventId) by {
            assert(front[i] == behind[i]);
        }
        lemma_placed(before, name, front, id);
        assert(!(behind[behind.len() - 1] is LastEventId));
        assert(all.drop_last() =~= before + seq![SseHeaderView::LastEventId(name)] + front);
        assert(literal_fields(behind) =~= literal_fields(front).push(behind.last()->Field_0));
        assert(placed_fields(all, id) =~= literal_fields(before) + (if id.len() == 0 {
            Seq::empty()
        } else {
            seq![HeaderView { name, value: encode_utf8(id) }]
        }) + literal_fields(behind));
    }
}

/// A committed ID is sent at its placeholder, under the placeholder's name,
/// between the fields around it; without a placeholder it comes last, as
/// `Last-Event-ID` in HTTP/1.1 and in lower case elsewhere. While there is
/// none, no field stands for it.
pub proof fn the_last_event_id_is_sent_in_its_place(
    before: Seq<SseHeaderView>,
    name: Seq<char>,
    behind: Seq<SseHeaderView>,
    protocol: HttpProtocol,
    id: Seq<char>,
)
    requires
        no_placeholder(before),
        no_placeholder(behind),
    ensures
        ({
            let template = before + seq![SseHeaderView::LastEventId(name)] + behind;
            &&& id.len() > 0 ==> resolved(template, protocol, id) == literal_fields(before)
                + seq![HeaderView { name, value: encode_utf8(id) }] + literal_fields(behind)
            &&& id.len() == 0 ==> resolved(template, protocol, id) == literal_fields(before)
                + literal_fields(behind)
            &&& id.len() > 0 && protocol == HttpProtocol::Http1 ==> resolved(before, protocol, id)
                == literal_fields(before).push(
                HeaderView { name: "Last-Event-ID"@, value: encode_utf8(id) },
            )
            &&& id.len() > 0 && protocol != HttpProtocol::Http1 ==> resolved(before, protocol, id)
                == literal_fields(before).push(
                HeaderView { name: "last-event-id"@, value: encode_utf8(id) },
            )
            &&& id.len() == 0 ==> resolved(before, protocol, id) == literal_fields(before)
        }),
{
    lemma_placed(before, name, behind, id);
    lemma_literal(before, id);
    let template = before + seq![SseHeaderView::LastEventId(name)] + behind;
    if id.len() == 0 {
        assert(resolved(template, protocol, id) =~= literal_fields(before) + literal_fields(behind));
        assert(resolved(before, protocol, id) =~= literal_fields(before));
    } else if protocol == HttpProtocol::Http1 {
        assert(resolved(before, protocol, id) =~= literal_fields(before).push(
            HeaderView { name: "Last-Event-ID"@, value: encode_utf8(id) },
        ));
    } else {
        assert(resolved(before, protocol, id) =~= literal_fields(before).push(
            HeaderView { name: "last-event-id"@, value: encode_utf8(id) },
        ));
    }
}

/// Unless told otherwise a source asks for an uncached event stream, with
/// names in lower case beyond HTTP/1.1.
pub proof fn a_source_asks_for_an_event_stream(protocol: HttpProtocol)
    ensures
        resolved(default_items(protocol), protocol, Seq::empty()) == seq![
            HeaderView {
                name: if protocol == HttpProtocol::Http1 {
                    "Accept"@
                } else {
                    "accept"@
                },
                value: encode_utf8("text/event-stream"@),
            },
            HeaderView {
                name: if protocol == HttpProtocol::Http1 {
                    "Cache-Control"@
                } else {
                    "cache-control"@
                },
                value: encode_utf8("no-cache"@),
            },
        ],
        template_refusal(default_items(protocol), protocol) is None,
{
    let items = default_items(protocol);
    lemma_literal(items, Seq::empty());
    let front = items.drop_last();
    assert(front.drop_last() =~= Seq::empty());
    assert(front.last() == items[0]);
    reveal_strlit("last-event-id");
    reveal_strlit("Accept");
    reveal_strlit("accept");
    reveal_strlit("Cache-Control");
    reveal_strlit("cache-control");
    lower_case_ignores_ascii_case_alone("Accept"@, "accept"@);
    lower_case_ignores_ascii_case_alone("Cache-Control"@, "cache-control"@);
    assert("last-event-id"@[0] == 'l' && "accept"@[0] == 'a' && "cache-control"@[0] == 'c');
    assert(lowercase("Cache-Control"@)[0] == 'c');
    assert(lowercase("cache-control"@)[0] == 'c');
    assert(lowercase("Accept"@)[0] == 'a');
    assert(lowercase("accept"@)[0] == 'a');
    assert(item_refusal(items[0], protocol) is None);
    assert(item_refusal(items[1], protocol) is None);
    assert(first_refusal(front.drop_last(), protocol) is None);
    assert(first_refusal(front, protocol) is None);
    assert(first_refusal(items, protocol) is None);
    assert(resolved(items, protocol, Seq::empty()) =~= literal_fields(items));
}

/// Whether an item may stand in a template: a literal field under any name
/// but `Last-Event-ID`, a placeholder under that name alone, in lower case
/// beyond HTTP/1.1.
pub open spec fn permitted(item: SseHeaderView, protocol: HttpProtocol) -> bool {
    match item {
        SseHeaderView::Field(header) => !same_letters(header.name, "last-event-id"@),
        SseHeaderView::LastEventId(name) => same_letters(name, "last-event-id"@) && (protocol
            == HttpProtocol::Http1 || name == "last-event-id"@),
    }
}

proof fn lemma_item(item: SseHeaderView, protocol: HttpProtocol)
    ensures
        item_refusal(item, protocol) is None ==> permitted(item, protocol),
        item is Field ==> (item_refusal(item, protocol) is None == permitted(item, protocol)),
        item_refusal(item, protocol) matches Some(error) ==> error.kind
            == SseErrorKind::InvalidRequestHeader,
{
    let wanted = "last-event-id"@;
    reveal_strlit("last-event-id");
    lower_case_ignores_ascii_case_alone(wanted, wanted);
    assert(lowercase(wanted) =~= wanted);
    match item {
        SseHeaderView::Field(header) => {
            lower_case_ignores_ascii_case_alone(header.name, wanted);
        },
        SseHeaderView::LastEventId(name) => {
            lower_case_ignores_ascii_case_alone(name, wanted);
            if item_refusal(item, protocol) is None && protocol != HttpProtocol::Http1 {
                assert(lowercase(name) =~= name);
            }
        },
    }
}

/// A template is accepted only with permitted items and one placeholder at
/// most, and one of literal fields is accepted whenever no field is named
/// `Last-Event-ID`.
pub proof fn a_template_manages_its_last_event_id(
    template: Seq<SseHeaderView>,
    protocol: HttpProtocol,
    i: int,
)
    requires
        0 <= i < template.len(),
    ensures
        template_refusal(template, protocol) is None ==> permitted(template[i], protocol),
        template_refusal(template, protocol) matches Some(error) ==> error.kind
            == SseErrorKind::InvalidRequestHeader,
        no_placeholder(template) && (forall|k: int|
            0 <= k < template.len() ==> permitted(#[trigger] template[k], protocol))
            ==> template_refusal(template, protocol) is None,
        template_refusal(template, protocol) is None ==> forall|k: int|
            0 <= k < template.len() && k != i && template[i] is LastEventId ==> !((
            #[trigger] template[k]) is LastEventId),
{
    lemma_first(template, protocol);
    lemma_literal_ok(template, protocol);
    lemma_item(template[i], protocol);
    if no_placeholder(template) {
        lemma_literal(template, Seq::empty());
    }
    if template_refusal(template, protocol) is None {
        assert forall|k: int| 0 <= k < template.len() && k != i && template[i] is LastEventId
            implies !((#[trigger] template[k]) is LastEventId) by {
            if template[k] is LastEventId {
                if i < k {
                    lemma_two(template, i, k);
                } else {
                    lemma_two(template, k, i);
                }
            }
        }
    }
}

proof fn lemma_one(template: Seq<SseHeaderView>, i: int)
    requires
        0 <= i < template.len(),
        template[i] is LastEventId,
    ensures
        placeholders(template) >= 1,
    decreases template.len(),
{
    if i < template.len() - 1 {
        lemma_one(template.drop_last(), i);
    }
}

proof fn lemma_two(template: Seq<SseHeaderView>, i: int, k: int)
    requires
        0 <= i < k < template.len(),
        template[i] is LastEventId,
        template[k] is LastEventId,
    ensures
        placeholders(template) >= 2,
    decreases template.len(),
{
    if k < template.len() - 1 {
        lemma_two(template.drop_last(), i, k);
    } else {
        lemma_one(template.drop_last(), i);
    }
}

proof fn lemma_first(template: Seq<SseHeaderView>, protocol: HttpProtocol)
    ensures
        first_refusal(template, protocol) is None ==> forall|k: int|
            0 <= k < template.len() ==> item_refusal(#[trigger] template[k], protocol) is None,
        first_refusal(template, protocol) matches Some(error) ==> error.kind
            == SseErrorKind::InvalidRequestHeader,
    decreases template.len(),
{
    if template.len() > 0 {
        lemma_first(template.drop_last(), protocol);
        lemma_item(template.last(), protocol);
        if first_refusal(template, protocol) is None {
            assert forall|k: int| 0 <= k < template.len() implies item_refusal(
                #[trigger] template[k],
                protocol,
            ) is None by {
                if k < template.len() - 1 {
                    assert(template.drop_last()[k] == template[k]);
                }
            }
        }
    }
}

proof fn lemma_literal_ok(template: Seq<SseHeaderView>, protocol: HttpProtocol)
    ensures
        no_placeholder(template) && (forall|k: int|
            0 <= k < template.len() ==> permitted(#[trigger] template[k], protocol))
            ==> first_refusal(template, protocol) is None,
    decreases template.len(),
{
    if template.len() > 0 && no_placeholder(template) && (forall|k: int|
        0 <= k < template.len() ==> permitted(#[trigger] template[k], protocol)) {
        let front = template.drop_last();
        assert forall|k: int| 0 <= k < front.len() implies permitted(
            #[trigger] front[k],
            protocol,
        ) && !(front[k] is LastEventId) by {
            assert(front[k] == template[k]);
        }
        lemma_literal_ok(front, protocol);
        assert(!(template[template.len() - 1] is LastEventId));
        assert(permitted(template[template.len() - 1], protocol));
        lemma_item(template.last(), protocol);
    }
}

/// Whether no field has a name.
pub open spec fn unnamed(headers: Seq<HeaderView>, name: Seq<char>) -> bool {
    forall|i: int| 0 <= i < headers.len() ==> (#[trigger] headers[i]).name != name
}

proof fn lemma_unnamed(headers: Seq<HeaderView>, name: Seq<char>)
    requires
        unnamed(headers, name),
    ensures
        values_named(headers, name) == Seq::<Seq<u8>>::empty(),
    decreases headers.len(),
{
    if headers.len() > 0 {
        let front = headers.drop_last();
        assert forall|i: int| 0 <= i < front.len() implies (#[trigger] front[i]).name != name by {
            assert(front[i] == headers[i]);
        }
        lemma_unnamed(front, name);
        assert(headers[headers.len() - 1].name != name);
    }
}

proof fn lemma_named(
    before: Seq<HeaderView>,
    field: HeaderView,
    behind: Seq<HeaderView>,
    name: Seq<char>,
)
    requires
        unnamed(before, name),
        unnamed(behind, name),
        field.name == name,
    ensures
        values_named(before + seq![field] + behind, name) == seq![field.value],
    decreases behind.len(),
{
    let all = before + seq![field] + behind;
    if behind.len() == 0 {
        assert(all.drop_last() =~= before);
        lemma_unnamed(before, name);
        assert(values_named(all, name) =~= seq![field.value]);
    } else {
        let front = behind.drop_last();
        assert forall|i: int| 0 <= i < front.len() implies (#[trigger] front[i]).name != name by {
            assert(front[i] == behind[i]);
        }
        lemma_named(before, field, front, name);
        assert(all.drop_last() =~= before + seq![field] + front);
        assert(behind[behind.len() - 1].name != name);
    }
}

/// A response with exactly one content type and no content encoding carries
/// an event stream exactly when its status is 200 and the type is that of an
/// event stream; otherwise it is refused for the first of these that fails.
pub proof fn an_event_stream_is_known_by_status_and_type(
    status: u16,
    before: Seq<HeaderView>,
    content_type: HeaderView,
    behind: Seq<HeaderView>,
)
    requires
        content_type.name == "content-type"@,
        unnamed(before, "content-type"@),
        unnamed(behind, "content-type"@),
        unnamed(before, "content-encoding"@),
        unnamed(behind, "content-encoding"@),
    ensures
        ({
            let headers = before + seq![content_type] + behind;
            match head_refusal(HeadView { status, headers }) {
                None => status == 200 && is_event_stream(content_type.value),
                Some(error) => if status != 200 {
                    error.kind == SseErrorKind::UnexpectedStatus
                } else {
                    error.kind == SseErrorKind::InvalidContentType && !is_event_stream(
                        content_type.value,
                    )
                },
            }
        }),
        head_refusal(HeadView { status: 200, headers: before + behind }) matches Some(error)
            && error.kind == SseErrorKind::InvalidContentType,
{
    reveal_strlit("content-type");
    reveal_strlit("content-encoding");
    assert("content-type"@.len() == 12 && "content-encoding"@.len() == 16);
    let headers = before + seq![content_type] + behind;
    lemma_named(before, content_type, behind, "content-type"@);
    assert(unnamed(headers, "content-encoding"@)) by {
        assert forall|i: int| 0 <= i < headers.len() implies (#[trigger] headers[i]).name
            != "content-encoding"@ by {
            if i < before.len() {
                assert(headers[i] == before[i]);
            } else if i > before.len() {
                assert(headers[i] == behind[i - before.len() - 1]);
            }
        }
    }
    lemma_unnamed(headers, "content-encoding"@);
    let neither = before + behind;
    assert(unnamed(neither, "content-type"@)) by {
        assert forall|i: int| 0 <= i < neither.len() implies (#[trigger] neither[i]).name
            != "content-type"@ by {
            if i < before.len() {
                assert(neither[i] == before[i]);
            } else {
                assert(neither[i] == behind[i - before.len()]);
            }
        }
    }
    lemma_unnamed(neither, "content-type"@);
}

/// A content type is that of an event stream when what stands before its
/// first semicolon, without white space around it, is `text/event-stream` in
/// any case.
pub proof fn parameters_of_a_content_type_do_not_matter(value: Seq<u8>)
    ensures
        is_event_stream(value) == (visible(value) matches Some(text) && same_letters(
            trimmed_text(split(text, ';')[0]),
            "text/event-stream"@,
        )),
{
    let wanted = "text/event-stream"@;
    reveal_strlit("text/event-stream");
    assert(lowercase(wanted) =~= wanted);
    if visible(value) is Some {
        lower_case_ignores_ascii_case_alone(
            trimmed_text(split(visible(value)->0, ';')[0]),
            wanted,
        );
    }
}

/// A content encoding is acceptable when every part between commas is
/// `identity` in any case; a response with another is refused.
pub proof fn only_the_identity_encoding_is_read(head: HeadView, k: int, part: int)
    requires
        head_refusal(head) is None,
        0 <= k < head.headers.len(),
        head.headers[k].name == "content-encoding"@,
    ensures
        visible(head.headers[k].value) matches Some(text) && (0 <= part < split(text, ',').len()
            ==> same_letters(trimmed_text(split(text, ',')[part]), "identity"@)),
{
    let wanted = "identity"@;
    reveal_strlit("identity");
    assert(lowercase(wanted) =~= wanted);
    let values = values_named(head.headers, "content-encoding"@);
    lemma_contained(head.headers, "content-encoding"@, k);
    let i = choose|i: int| 0 <= i < values.len() && values[i] == head.headers[k].value;
    assert(is_identity(values[i]));
    let text = visible(head.headers[k].value)->0;
    if 0 <= part < split(text, ',').len() {
        lower_case_ignores_ascii_case_alone(trimmed_text(split(text, ',')[part]), wanted);
    }
}

proof fn lemma_contained(headers: Seq<HeaderView>, name: Seq<char>, k: int)
    requires
        0 <= k < headers.len(),
        headers[k].name == name,
    ensures
        values_named(headers, name).contains(headers[k].value),
    decreases headers.len(),
{
    let front = headers.drop_last();
    let before = values_named(front, name);
    let all = values_named(headers, name);
    if k < front.len() {
        lemma_contained(front, name, k);
        let i = choose|i: int| 0 <= i < before.len() && before[i] == headers[k].value;
        assert(all[i] == before[i]);
    } else {
        assert(all[before.len() as int] == headers[k].value);
    }
}

/// What a wait for a frame does to a stream. Data is read next and restarts
/// the idle limit at its arrival, a frame without data does neither; the end
/// of the body ends the stream, and a failed body, a passed deadline and a
/// failed timer each fail it for that reason and end it too.
pub proof fn each_frame_has_its_effect(stream: StreamView, frame: Frame, now: Instant)
    ensures
        ({
            let (after, received) = stream.received(frame, now);
            match frame {
                Frame::Data(data) => {
                    let beyond = stream.idle_timeout matches Some(timeout) && now.nanos
                        + timeout.nanos > 9_223_372_036_854_775_807_999_999_999;
                    if beyond {
                        after.finished && (received matches Received::Failed(error) && error.kind
                            == SseErrorKind::InvalidIdleTimeout)
                    } else {
                        &&& received == Received::Continue
                        &&& after.pending == data@
                        &&& after.decoder == stream.decoder
                        &&& after.finished == stream.finished
                        &&& stream.idle_timeout matches Some(timeout) ==> (
                        after.idle_deadline matches Some(at) && at.nanos == now.nanos
                            + timeout.nanos)
                        &&& stream.idle_timeout is None ==> after.idle_deadline
                            == stream.idle_deadline
                    }
                },
                Frame::Other => after == stream && received == Received::Continue,
                Frame::End => after.finished && received == Received::Ended,
                Frame::Failed(source) => after.finished && (received matches Received::Failed(error)
                    && error.kind == SseErrorKind::Body && error.source == Some(source)),
                Frame::Idle => after.finished && (received matches Received::Failed(error)
                    && error.kind == SseErrorKind::IdleTimeout),
                Frame::TimerFailed(source) => after.finished && (
                received matches Received::Failed(error) && error.kind == SseErrorKind::Request
                    && error.source == Some(source)),
            }
        }),
{
}

/// A stream waits for a frame until its idle deadline, and says an event
/// before it waits again.
pub proof fn a_stream_waits_until_its_idle_deadline(stream: StreamView)
    ensures
        stream.read().1 matches Reading::Wait(deadline) ==> deadline == stream.idle_deadline,
        stream.finished ==> stream.read().1 == Reading::Ended,
        !stream.finished && stream.pending.len() == 0 ==> stream.read().1 == Reading::Wait(
            stream.idle_deadline,
        ),
{
}

/// Whether a failure of this kind may pass by itself, so that another attempt
/// makes sense: the network, the connection, a limit or the exchange failed.
/// What a caller asked for in vain stays in vain.
pub open spec fn may_pass(kind: RequestErrorKind) -> bool {
    ||| kind == RequestErrorKind::Resolve
    ||| kind == RequestErrorKind::Connect
    ||| kind == RequestErrorKind::Proxy
    ||| kind == RequestErrorKind::Capacity
    ||| kind == RequestErrorKind::Timeout
    ||| kind == RequestErrorKind::Tls
    ||| kind == RequestErrorKind::Http1
    ||| kind == RequestErrorKind::Http2
    ||| kind == RequestErrorKind::Http3
}

/// A failed attempt ends the source at once when repeating it would fail the
/// same way; after any other the source goes on and remembers why.
pub proof fn only_passing_failures_are_repeated(source: SourceView, error: RequestError)
    requires
        !source.closed,
    ensures
        ({
            let (after, failure) = source.refused(error);
            &&& !after.connecting
            &&& after.reconnects == source.reconnects
            &&& after.last_event_id == source.last_event_id
            &&& after.retry_delay == source.retry_delay
            &&& may_pass(error.kind) ==> !after.closed && failure is None && after.last_failure
                == Some(ReconnectFailure::Request(error))
            &&& !may_pass(error.kind) ==> after.closed && (failure matches Some(failure)
                && failure.kind == SseErrorKind::Request && failure.source == Some(error))
        }),
{
}

/// A failed initial attempt is repeated after the delay while retries are
/// left and the failure may pass; the delay is the longer of the two that
/// the builder names. The last failure is reported as it is, or as an
/// exhausted budget once there were retries.
pub proof fn an_initial_attempt_is_repeated_within_its_budget(
    builder: SseRequestBuilder,
    error: RequestError,
    reconnects: usize,
    now: Instant,
)
    ensures
        match after_failure(builder, error, reconnects, now) {
            AfterFailure::Retry(at) => {
                &&& may_pass(error.kind)
                &&& reconnects < builder.max_reconnects
                &&& at.nanos >= now.nanos + builder.initial_retry.nanos
                &&& builder.minimum_retry matches Some(minimum) ==> at.nanos >= now.nanos
                    + minimum.nanos
                &&& at.nanos == now.nanos + builder.initial_retry.nanos || (
                builder.minimum_retry matches Some(minimum) && at.nanos == now.nanos
                    + minimum.nanos)
            },
            AfterFailure::Fail(failure) => if !may_pass(error.kind) {
                failure.kind == SseErrorKind::Request && failure.source == Some(error)
            } else if reconnects >= builder.max_reconnects {
                &&& failure.source == Some(error)
                &&& reconnects == 0 ==> failure.kind == SseErrorKind::Request
                &&& reconnects > 0 ==> failure.kind == SseErrorKind::ReconnectLimit
            } else {
                &&& failure.kind == SseErrorKind::InvalidReconnectDelay
                &&& now.nanos + builder.initial_retry.nanos
                    > 9_223_372_036_854_775_807_999_999_999 || (
                builder.minimum_retry matches Some(minimum) && now.nanos + minimum.nanos
                    > 9_223_372_036_854_775_807_999_999_999)
            },
        },
{
}

/// A builder is refused before any request when a wait that it may come to
/// lies beyond the clock: a reconnect delay, unless there are no reconnects,
/// or the idle limit.
pub proof fn a_builder_is_refused_for_waits_beyond_the_clock(
    builder: SseRequestBuilder,
    now: Instant,
)
    requires
        template_refusal(template_items(builder.headers@), builder.protocol) is None,
    ensures
        ({
            let beyond = |length: Duration|
                now.nanos + length.nanos > 9_223_372_036_854_775_807_999_999_999;
            let delay = builder.max_reconnects > 0 && (beyond(builder.initial_retry) || (
            builder.minimum_retry matches Some(minimum) && beyond(minimum)));
            let idle = builder.idle_timeout matches Some(timeout) && beyond(timeout);
            match builder_refusal(builder, now) {
                None => !delay && !idle,
                Some(error) => if delay {
                    error.kind == SseErrorKind::InvalidReconnectDelay
                } else {
                    idle && error.kind == SseErrorKind::InvalidIdleTimeout
                },
            }
        }),
{
}

/// A source starts as its builder says, without an ID.
pub proof fn a_source_starts_as_it_was_built(builder: SseRequestBuilder, reconnects: usize)
    ensures
        ({
            let source = unopened(builder, reconnects);
            &&& source.limits == builder.limits
            &&& source.idle_timeout == builder.idle_timeout
            &&& source.retry_delay == builder.initial_retry
            &&& source.minimum_retry == builder.minimum_retry
            &&& source.max_reconnects == builder.max_reconnects
            &&& source.reconnects == reconnects
            &&& source.last_event_id.len() == 0
            &&& !source.closed && !source.connecting
            &&& source.stream is None && source.reconnect_at is None && source.last_failure is None
        }),
{
}

/// A response to an attempt: one without content closes the source for good
/// and without a failure, one that carries no event stream fails it, and any
/// other is read from its start, with the ID, the delay and the idle limit
/// that the source has.
pub proof fn a_response_is_read_closes_or_fails(source: SourceView, head: HeadView, now: Instant)
    requires
        !source.closed,
        source.stream is None,
    ensures
        ({
            let (after, failure) = source.answered(head, now);
            &&& !after.connecting
            &&& after.reconnects == source.reconnects
            &&& after.last_event_id == source.last_event_id
            &&& after.retry_delay == source.retry_delay
            &&& head.status == 204 ==> after.closed && failure is None && after.stream is None
            &&& head.status != 204 && head_refusal(head) is Some ==> after.closed && failure
                == head_refusal(head)
            &&& head.status != 204 && head_refusal(head) is None ==> match failure {
                None => {
                    &&& !after.closed
                    &&& after.last_failure is None
                    &&& after.stream matches Some(stream) && {
                        &&& stream.decoder.limits == source.limits
                        &&& stream.decoder.last_event_id == source.last_event_id
                        &&& stream.decoder.id_buffer == source.last_event_id
                        &&& stream.decoder.retry_delay == Some(source.retry_delay)
                        &&& stream.decoder.data.len() == 0 && stream.decoder.line.len() == 0
                        &&& stream.decoder.event_type.len() == 0
                        &&& stream.decoder.stream_start && !stream.decoder.skip_lf
                        &&& stream.decoder.event_bytes == 0
                        &&& stream.pending.len() == 0 && !stream.finished
                        &&& stream.idle_timeout == source.idle_timeout
                        &&& source.idle_timeout matches Some(timeout) ==> (
                        stream.idle_deadline matches Some(at) && at.nanos == now.nanos
                            + timeout.nanos)
                        &&& source.idle_timeout is None ==> stream.idle_deadline is None
                    }
                },
                Some(error) => after.closed && error.kind == SseErrorKind::InvalidIdleTimeout && (
                source.idle_timeout matches Some(timeout) && now.nanos + timeout.nanos
                    > 9_223_372_036_854_775_807_999_999_999),
            }
        }),
{
}

/// Starting an attempt counts it, once, and needs an ID that a field can
/// carry; a failed timer ends the source instead and counts nothing.
pub proof fn an_attempt_is_counted_when_it_starts(
    source: SourceView,
    timer: Result<(), RequestError>,
)
    requires
        !source.closed,
        source.reconnects < source.max_reconnects,
    ensures
        ({
            let (after, failure) = source.woken(timer);
            &&& after.last_event_id == source.last_event_id
            &&& after.retry_delay == source.retry_delay
            &&& match timer {
                Ok(_) => {
                    &&& after.reconnects == source.reconnects + 1
                    &&& after.reconnect_at is None
                    &&& is_field_value(source.last_event_id) ==> after.connecting && !after.closed
                        && failure is None
                    &&& !is_field_value(source.last_event_id) ==> after.closed && (
                    failure matches Some(error) && error.kind == SseErrorKind::Request)
                },
                Err(error) => after.closed && after.reconnects == source.reconnects && (
                failure matches Some(failure) && failure.kind == SseErrorKind::Request
                    && failure.source == Some(error)),
            }
        }),
{
}

/// What a source does without a response: it waits for the attempt under
/// way; else, with its budget used up, it fails, idle for an idle body and
/// with the last failure otherwise; else it waits for the longer of the
/// server's delay and the minimum, once, from when the response ended.
pub proof fn a_source_without_a_response_reconnects(source: SourceView, now: Instant)
    requires
        !source.closed,
        source.stream is None,
    ensures
        ({
            let (after, reading) = source.read(now);
            let delay = if source.minimum_retry matches Some(minimum) && minimum.nanos
                > source.retry_delay.nanos {
                source.minimum_retry->0.nanos
            } else {
                source.retry_delay.nanos
            };
            &&& after.reconnects == source.reconnects
            &&& after.last_event_id == source.last_event_id
            &&& source.connecting ==> reading == SourceReading::WaitResponse && after == source
            &&& !source.connecting && source.reconnects >= source.max_reconnects ==> after.closed
                && (reading matches SourceReading::Failed(error) && match source.last_failure {
                Some(ReconnectFailure::IdleTimeout) => error.kind == SseErrorKind::IdleTimeout,
                Some(ReconnectFailure::Request(cause)) => error.kind == SseErrorKind::ReconnectLimit
                    && error.source == Some(cause),
                None => error.kind == SseErrorKind::ReconnectLimit && error.source is None,
            })
            &&& !source.connecting && source.reconnects < source.max_reconnects ==> match (
                source.reconnect_at
            ) {
                Some(at) => reading == SourceReading::WaitUntil(at) && after == source,
                None => if now.nanos + delay <= 9_223_372_036_854_775_807_999_999_999 {
                    reading matches SourceReading::WaitUntil(at) && at.nanos == now.nanos + delay
                        && after.reconnect_at == Some(at) && !after.closed
                } else {
                    after.closed && (reading matches SourceReading::Failed(error) && error.kind
                        == SseErrorKind::InvalidReconnectDelay)
                },
            }
        }),
{
}

/// While a source reads a response it hands out that response's events, and
/// its ID and delay are those that the response committed last.
pub proof fn a_source_keeps_step_with_its_stream(source: SourceView, stream: StreamView, now: Instant)
    requires
        !source.closed,
        source.stream == Some(stream),
    ensures
        ({
            let (after, reading) = source.read(now);
            let (next, said) = stream.read();
            &&& after.last_event_id == next.decoder.last_event_id
            &&& next.decoder.retry_delay matches Some(delay) ==> after.retry_delay == delay
            &&& next.decoder.retry_delay is None ==> after.retry_delay == source.retry_delay
            &&& said matches Reading::Event(event) ==> reading == SourceReading::Event(event)
                && after.stream == Some(next)
            &&& said matches Reading::Wait(deadline) ==> reading == SourceReading::WaitFrame(
                deadline,
            ) && after.stream == Some(next)
            &&& said is Ended ==> after.stream is None
            &&& said matches Reading::Failed(error) ==> after.stream is None && (error.kind
                != SseErrorKind::Body && error.kind != SseErrorKind::IdleTimeout ==> after.closed
                && reading == SourceReading::Failed(error))
        }),
{
}

/// After a failed or idle body the source reconnects and remembers why; any
/// other failure of its stream ends it. What was committed is kept.
pub proof fn a_lost_response_is_reconnected(
    source: SourceView,
    stream: StreamView,
    frame: Frame,
    now: Instant,
)
    requires
        !source.closed,
        source.stream == Some(stream),
    ensures
        ({
            let (after, failure) = source.received(frame, now);
            &&& after.last_event_id == stream.decoder.last_event_id
            &&& match frame {
                Frame::End => after.stream is None && !after.closed && failure is None
                    && after.last_failure == source.last_failure,
                Frame::Failed(error) => after.stream is None && !after.closed && failure is None
                    && after.last_failure == Some(ReconnectFailure::Request(error)),
                Frame::Idle => after.stream is None && !after.closed && failure is None
                    && after.last_failure == Some(ReconnectFailure::IdleTimeout),
                Frame::TimerFailed(error) => after.stream is None && after.closed && (
                failure matches Some(failure) && failure.kind == SseErrorKind::Request
                    && failure.source == Some(error)),
                Frame::Other => after.stream == Some(stream) && !after.closed && failure is None,
                Frame::Data(_) => failure is None ==> !after.closed && after.stream is Some,
            }
        }),
{
}

/// A closed source keeps its ID and delay and has nothing under way.
pub proof fn closing_keeps_what_was_committed(source: SourceView, now: Instant)
    ensures
        ({
            let after = source.stopped();
            &&& after.closed
            &&& !after.connecting
            &&& after.stream is None && after.reconnect_at is None
            &&& source.stream matches Some(stream) ==> after.last_event_id
                == stream.decoder.last_event_id
            &&& source.stream is None ==> after.last_event_id == source.last_event_id
                && after.retry_delay == source.retry_delay
            &&& after.reconnects == source.reconnects
            &&& after.read(now).1 == SourceReading::Closed
        }),
{
}

/// Each method of a builder makes the setting that it is named after, and no
/// other.
pub proof fn each_setting_is_made_by_its_own_method(
    builder: SseRequestBuilder,
    headers: Vec<SseHeader>,
    route: Route,
    timeouts: RequestTimeouts,
    limits: SseLimits,
    length: Duration,
    n: usize,
)
    ensures
        builder.with_headers(headers) == (SseRequestBuilder { headers, ..builder }),
        builder.with_route(route) == (SseRequestBuilder { route: Some(route), ..builder }),
        builder.with_request_timeouts(timeouts) == (SseRequestBuilder {
            timeouts: Some(timeouts),
            ..builder
        }),
        builder.with_limits(limits) == (SseRequestBuilder { limits, ..builder }),
        builder.with_idle_timeout(length) == (SseRequestBuilder {
            idle_timeout: Some(length),
            ..builder
        }),
        builder.with_initial_retry(length) == (SseRequestBuilder {
            initial_retry: length,
            ..builder
        }),
        builder.with_minimum_retry(length) == (SseRequestBuilder {
            minimum_retry: Some(length),
            ..builder
        }),
        builder.with_max_reconnects(n) == (SseRequestBuilder { max_reconnects: n, ..builder }),
{
}

/// A request goes out without a route, limits of time or a replaced field of
/// its own: lines hold up to 64 KiB and events up to 1 MiB, the first retry
/// comes after three seconds, and there are three reconnects at most.
pub proof fn a_request_starts_from_these_defaults(
    builder: SseRequestBuilder,
    protocol: HttpProtocol,
    uri: Seq<char>,
)
    requires
        builder.is_default(protocol, uri),
    ensures
        builder.protocol == protocol,
        builder.uri@ == uri,
        builder.route is None,
        builder.timeouts is None,
        builder.idle_timeout is None,
        builder.minimum_retry is None,
        builder.limits.max_line_bytes == 64 * 1024,
        builder.limits.max_event_bytes == 1024 * 1024,
        builder.initial_retry.nanos == 3 * 1_000_000_000,
        builder.max_reconnects == 3,
        template_items(builder.headers@) == default_items(protocol),
{
}

} // verus!
