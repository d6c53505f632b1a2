//! Which responses carry an event stream.

use vstd::prelude::*;
use crate::endpoint::{headers_view, HeaderView, RequestHeader};
use crate::sse::types::{failure, SseError, SseErrorKind, SseErrorView};
use crate::text::{
    char_lists, lowercase, same_text, split, split_text, to_lowercase, trim_text, trimmed_text,
    visible, visible_text,
};

verus! {

/// The status and fields of a response. The names are in lower case.
#[derive(Debug)]
pub struct ResponseHead {
    pub status: u16,
    pub headers: Vec<RequestHeader>,
}

/// What a [`ResponseHead`] holds.
pub struct HeadView {
    pub status: u16,
    pub headers: Seq<HeaderView>,
}

impl View for ResponseHead {
    type V = HeadView;

    open spec fn view(&self) -> HeadView {
        HeadView { status: self.status, headers: headers_view(self.headers@) }
    }
}

/// The values of the fields with a name, in order.
pub open spec fn values_named(headers: Seq<HeaderView>, name: Seq<char>) -> Seq<Seq<u8>>
    decreases headers.len(),
{
    if headers.len() == 0 {
        Seq::empty()
    } else {
        let before = values_named(headers.drop_last(), name);
        if headers.last().name == name {
            before.push(headers.last().value)
        } else {
            before
        }
    }
}

/// Whether a content type is that of an event stream, whatever its
/// parameters.
pub open spec fn is_event_stream(value: Seq<u8>) -> bool {
    visible(value) matches Some(text) && lowercase(trimmed_text(split(text, ';')[0]))
        == "text/event-stream"@
}

/// Whether a content encoding lists nothing but `identity`.
pub open spec fn is_identity(value: Seq<u8>) -> bool {
    visible(value) matches Some(text) && forall|k: int|
        0 <= k < split(text, ',').len() ==> lowercase(
            trimmed_text(#[trigger] split(text, ',')[k]),
        ) == "identity"@
}

/// Whether every content encoding lists nothing but `identity`.
pub open spec fn all_identity(values: Seq<Seq<u8>>) -> bool {
    forall|k: int| 0 <= k < values.len() ==> is_identity(#[trigger] values[k])
}

/// Why a response carries no event stream, if it carries none.
pub open spec fn head_refusal(head: HeadView) -> Option<SseErrorView> {
    let types = values_named(head.headers, "content-type"@);
    if head.status != 200 {
        Some(failure(SseErrorKind::UnexpectedStatus, "SSE response status must be 200 OK"@))
    } else if !(types.len() == 1 && is_event_stream(types[0])) {
        Some(
            failure(
                SseErrorKind::InvalidContentType,
                "SSE response must have content type text/event-stream"@,
            ),
        )
    } else if !all_identity(values_named(head.headers, "content-encoding"@)) {
        Some(
            failure(
                SseErrorKind::UnsupportedContentEncoding,
                "SSE response uses an unsupported content encoding"@,
            ),
        )
    } else {
        None
    }
}

/// What a list of values holds.
pub open spec fn values_view(values: Seq<&Vec<u8>>) -> Seq<Seq<u8>> {
    values.map_values(|value: &Vec<u8>| value@)
}

fn values_of<'a>(headers: &'a Vec<RequestHeader>, name: &str) -> (r: Vec<&'a Vec<u8>>)
    ensures
        values_view(r@) == values_named(headers_view(headers@), name@),
{
    let ghost all = headers_view(headers@);
    let mut values: Vec<&'a Vec<u8>> = Vec::new();
    let mut i: usize = 0;
    assert(all.take(0) =~= Seq::empty());
    assert(values_view(values@) =~= Seq::empty());
    while i < headers.len()
        invariant
            i <= headers@.len(),
            all == headers_view(headers@),
            values_view(values@) == values_named(all.take(i as int), name@),
        decreases headers@.len() - i,
    {
        assert(all.take(i + 1).drop_last() =~= all.take(i as int));
        assert(all.take(i + 1).last() == headers@[i as int]@);
        if same_text(headers[i].name.as_str(), name) {
            let ghost before = values@;
            values.push(&headers[i].value);
            assert(values_view(values@) =~= values_view(before).push(headers@[i as int].value@));
        }
        i += 1;
    }
    assert(all.take(i as int) =~= all);
    values
}

fn names_event_stream(value: &Vec<u8>) -> (r: bool)
    ensures
        r == is_event_stream(value@),
{
    match visible_text(value.as_slice()) {
        Some(text) => {
            let parts = split_text(text.as_str(), ';');
            assert(char_lists(parts@)[0] == parts@[0]@);
            let essence = trim_text(&parts[0]);
            same_text(to_lowercase(essence.as_str()).as_str(), "text/event-stream")
        },
        None => false,
    }
}

#[verifier::loop_isolation(false)]
fn lists_identity(value: &Vec<u8>) -> (r: bool)
    ensures
        r == is_identity(value@),
{
    let text = match visible_text(value.as_slice()) {
        Some(text) => text,
        None => {
            return false;
        },
    };
    let parts = split_text(text.as_str(), ',');
    let ghost all = split(text@, ',');
    let mut k: usize = 0;
    while k < parts.len()
        invariant
            k <= parts@.len(),
            forall|j: int|
                0 <= j < k ==> lowercase(trimmed_text(#[trigger] all[j])) == "identity"@,
        decreases parts@.len() - k,
    {
        assert(char_lists(parts@)[k as int] == parts@[k as int]@);
        let part = trim_text(&parts[k]);
        if !same_text(to_lowercase(part.as_str()).as_str(), "identity") {
            assert(lowercase(trimmed_text(all[k as int])) != "identity"@);
            return false;
        }
        k += 1;
    }
    true
}

/// Checks that a response carries an event stream.
pub fn validate_response(head: &ResponseHead) -> (r: Result<(), SseError>)
    ensures
        (match r {
            Ok(_) => None,
            Err(error) => Some(error@),
        }) == head_refusal(head@),
{
    if head.status != 200 {
        return Err(
            SseError::without_source(
                SseErrorKind::UnexpectedStatus,
                "SSE response status must be 200 OK",
            ),
        );
    }
    let types = values_of(&head.headers, "content-type");
    assert(types@.len() == 1 ==> values_view(types@)[0] == types@[0]@);
    if !(types.len() == 1 && names_event_stream(types[0])) {
        return Err(
            SseError::without_source(
                SseErrorKind::InvalidContentType,
                "SSE response must have content type text/event-stream",
            ),
        );
    }
    let encodings = values_of(&head.headers, "content-encoding");
    let ghost all = values_view(encodings@);
    let mut k: usize = 0;
    while k < encodings.len()
        invariant
            k <= encodings@.len(),
            all == values_view(encodings@),
            all == values_named(head@.headers, "content-encoding"@),
            head.status == 200,
            values_named(head@.headers, "content-type"@).len() == 1,
            is_event_stream(values_named(head@.headers, "content-type"@)[0]),
            forall|j: int| 0 <= j < k ==> is_identity(#[trigger] all[j]),
        decreases encodings@.len() - k,
    {
        assert(all[k as int] == encodings@[k as int]@);
        if !lists_identity(encodings[k]) {
            return Err(
                SseError::without_source(
                    SseErrorKind::UnsupportedContentEncoding,
                    "SSE response uses an unsupported content encoding",
                ),
            );
        }
        k += 1;
    }
    Ok(())
}

} // verus!
