//! The fields of a request as each protocol sends them.

use vstd::prelude::*;
use vstd::utf8::encode_utf8;
use crate::client_hints::context::{
    bytes_view, placed_view, store_bound, store_view, store_wf, ClientHintContext,
};
use crate::client_hints::store::{Asked, ClientHintStore};
use crate::endpoint::{copy_headers, headers_view, origin_of, Endpoint, HeaderView, RequestHeader};
use crate::error::RequestError;
use crate::lru::touched;

verus! {

/// The HTTP/1.1 fields of a request on the wire: `Host`, then its own.
pub open spec fn wire_fields(authority: Seq<u8>, headers: Seq<HeaderView>) -> Seq<HeaderView> {
    seq![HeaderView { name: "Host"@, value: authority }] + headers
}

/// Returns the HTTP/1.1 fields of a request on the wire: `Host`, then the
/// fields as sent.
pub fn http1_wire_headers(endpoint: &Endpoint, headers: &Vec<RequestHeader>) -> (r: Vec<
    RequestHeader,
>)
    ensures
        headers_view(r@) == wire_fields(
            encode_utf8(endpoint.authority@),
            headers_view(headers@),
        ),
{
    let mut list: Vec<RequestHeader> = Vec::new();
    list.push(RequestHeader::new("Host", endpoint.authority.as_str().as_bytes()));
    let mut rest = copy_headers(headers);
    list.append(&mut rest);
    assert(headers_view(list@) =~= wire_fields(
        encode_utf8(endpoint.authority@),
        headers_view(headers@),
    ));
    list
}

/// Returns the fields of a request without the `Host` in front.
pub fn http1_sent_headers(wire: &Vec<RequestHeader>) -> (r: Vec<RequestHeader>)
    requires
        wire@.len() > 0,
    ensures
        headers_view(r@) == headers_view(wire@).skip(1),
{
    let mut list: Vec<RequestHeader> = Vec::new();
    let mut i: usize = 1;
    assert(headers_view(list@) =~= headers_view(wire@).subrange(1, 1));
    while i < wire.len()
        invariant
            1 <= i <= wire@.len(),
            headers_view(list@) == headers_view(wire@).subrange(1, i as int),
        decreases wire@.len() - i,
    {
        let header = wire[i].clone();
        let ghost before = list@;
        list.push(header);
        assert(headers_view(list@) =~= headers_view(before).push(headers_view(wire@)[i as int]));
        assert(headers_view(list@) =~= headers_view(wire@).subrange(1, i + 1));
        i += 1;
    }
    assert(headers_view(list@) =~= headers_view(wire@).skip(1));
    list
}

/// The fields of a request with client hints in place, if it has any.
pub open spec fn placed(
    context: Option<ClientHintContext>,
    store: Asked,
    given: Seq<HeaderView>,
    accept_ch: Option<Seq<u8>>,
) -> Result<Seq<HeaderView>, RequestError> {
    match context {
        Some(context) => context.outcome(store, given, accept_ch),
        None => Ok(given),
    }
}

/// What the store holds once a request read it.
pub open spec fn read(context: Option<ClientHintContext>, store: Asked) -> Asked {
    match context {
        Some(context) => touched(store, origin_of(context.endpoint)),
        None => store,
    }
}

/// Returns the fields of a request with client hints in place. Without client
/// hints they are sent as they are.
pub fn prepare_headers(
    context: &Option<ClientHintContext>,
    store: &mut Option<ClientHintStore>,
    headers: Vec<RequestHeader>,
    connection_accept_ch: Option<&[u8]>,
) -> (r: Result<Vec<RequestHeader>, RequestError>)
    requires
        store_wf(*old(store)),
    ensures
        store_wf(*final(store)),
        store_bound(*final(store)) == store_bound(*old(store)),
        store_view(*final(store)) == read(*context, store_view(*old(store))),
        placed_view(r) == placed(
            *context,
            store_view(*old(store)),
            headers_view(headers@),
            bytes_view(connection_accept_ch),
        ),
{
    match context {
        Some(context) => context.prepare(store, headers, connection_accept_ch),
        None => Ok(headers),
    }
}

/// The field lists of one negotiated request.
#[derive(Debug)]
pub struct NegotiatedFields {
    /// `Host`, then the HTTP/1.1 fields with client hints placed.
    pub http1_wire_headers: Vec<RequestHeader>,
    /// The HTTP/2 fields with the client hints that are known before the
    /// connection is chosen.
    pub http2_validation_headers: Vec<RequestHeader>,
}

/// What the field lists of a negotiated request hold.
pub struct NegotiatedFieldsView {
    pub http1: Seq<HeaderView>,
    pub http2: Seq<HeaderView>,
}

/// The field lists of a negotiated request, or why they cannot be made.
pub open spec fn negotiated(
    endpoint: &Endpoint,
    http1: Seq<HeaderView>,
    http2: Seq<HeaderView>,
    context: Option<ClientHintContext>,
    store: Asked,
) -> Result<NegotiatedFieldsView, RequestError> {
    match placed(context, store, http1, None) {
        Err(error) => Err(error),
        Ok(first) => match placed(context, read(context, store), http2, None) {
            Err(error) => Err(error),
            Ok(second) => Ok(
                NegotiatedFieldsView {
                    http1: wire_fields(encode_utf8(endpoint.authority@), first),
                    http2: second,
                },
            ),
        },
    }
}

/// Makes the field lists that one negotiated request is checked with before
/// any I/O.
pub fn negotiated_fields(
    endpoint: &Endpoint,
    http1_headers: Vec<RequestHeader>,
    http2_headers: &Vec<RequestHeader>,
    context: &Option<ClientHintContext>,
    store: &mut Option<ClientHintStore>,
) -> (r: Result<NegotiatedFields, RequestError>)
    requires
        store_wf(*old(store)),
    ensures
        store_wf(*final(store)),
        store_bound(*final(store)) == store_bound(*old(store)),
        store_view(*final(store)) == (match placed(
            *context,
            store_view(*old(store)),
            headers_view(http1_headers@),
            None,
        ) {
            Err(_) => read(*context, store_view(*old(store))),
            Ok(_) => read(*context, read(*context, store_view(*old(store)))),
        }),
        (match r {
            Ok(fields) => Ok::<NegotiatedFieldsView, RequestError>(
                NegotiatedFieldsView {
                    http1: headers_view(fields.http1_wire_headers@),
                    http2: headers_view(fields.http2_validation_headers@),
                },
            ),
            Err(error) => Err(error),
        }) == negotiated(
            endpoint,
            headers_view(http1_headers@),
            headers_view(http2_headers@),
            *context,
            store_view(*old(store)),
        ),
{
    let first = match prepare_headers(context, store, http1_headers, None) {
        Ok(fields) => fields,
        Err(error) => {
            return Err(error);
        },
    };
    let second = match prepare_headers(context, store, copy_headers(http2_headers), None) {
        Ok(fields) => fields,
        Err(error) => {
            return Err(error);
        },
    };
    Ok(
        NegotiatedFields {
            http1_wire_headers: http1_wire_headers(endpoint, &first),
            http2_validation_headers: second,
        },
    )
}

/// The HTTP/1.1 fields of a negotiated request start with its `Host`, and the
/// rest are the fields as sent.
pub proof fn host_precedes_the_fields_as_sent(authority: Seq<u8>, headers: Seq<HeaderView>)
    ensures
        wire_fields(authority, headers)[0] == (HeaderView { name: "Host"@, value: authority }),
        wire_fields(authority, headers).skip(1) == headers,
{
    assert(wire_fields(authority, headers).skip(1) =~= headers);
}

} // verus!
