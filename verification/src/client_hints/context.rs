//! What a request says of its client.

use vstd::prelude::*;
use crate::client_hints::fields::{parse_tokens, requested, requested_indices, tokens_in};
use crate::client_hints::slots::{
    is_carrying_requested, misplaced, prepare_fields, prepared, template_view,
};
use crate::client_hints::store::{Asked, ClientHintStore};
use crate::client_hints::types::{ClientHintSettings, HintTemplate, HintView};
use crate::endpoint::{headers_view, origin_of, Endpoint, HeaderView, OriginKey, RequestHeader};
use crate::error::{RequestError, RequestErrorKind};
use crate::lru::{lookup, position, touched};

verus! {

/// What a request's hints depend on.
pub struct ClientHintContext<'a> {
    pub endpoint: &'a Endpoint,
    pub origin: &'a str,
    pub settings: &'a ClientHintSettings,
    pub template: Option<&'a HintTemplate>,
}

/// The hints that a connection asked for.
pub open spec fn connection_hints(hints: Seq<HintView>, accept_ch: Option<Seq<u8>>) -> Option<
    Seq<usize>,
> {
    match accept_ch {
        Some(bytes) => match tokens_in(bytes) {
            Some(tokens) => Some(requested(hints, tokens)),
            None => None,
        },
        None => None,
    }
}

/// What an optional slice holds.
pub open spec fn bytes_view(bytes: Option<&[u8]>) -> Option<Seq<u8>> {
    match bytes {
        Some(bytes) => Some(bytes@),
        None => None,
    }
}

/// What a store holds, if there is one.
pub open spec fn store_view(store: Option<ClientHintStore>) -> Asked {
    match store {
        Some(store) => store@,
        None => Seq::empty(),
    }
}

/// The most origins a store keeps, if there is one.
pub open spec fn store_bound(store: Option<ClientHintStore>) -> Option<nat> {
    match store {
        Some(store) => Some(store.bound()),
        None => None,
    }
}

/// Whether a store, if there is one, is consistent.
pub open spec fn store_wf(store: Option<ClientHintStore>) -> bool {
    store matches Some(store) ==> store.wf()
}

/// What a list of fields, if it could be made, holds.
pub open spec fn placed_view(r: Result<Vec<RequestHeader>, RequestError>) -> Result<
    Seq<HeaderView>,
    RequestError,
> {
    match r {
        Ok(fields) => Ok(headers_view(fields@)),
        Err(error) => Err(error),
    }
}

impl<'a> ClientHintContext<'a> {
    /// A context without a template.
    pub fn new(endpoint: &'a Endpoint, origin: &'a str, settings: &'a ClientHintSettings) -> (r: Self)
        ensures
            r == (ClientHintContext { endpoint, origin, settings, template: None }),
    {
        ClientHintContext { endpoint, origin, settings, template: None }
    }

    /// Places automatic hints at the template's client-hint slots.
    pub fn with_template(self, template: Option<&'a HintTemplate>) -> (r: Self)
        ensures
            r == (ClientHintContext { template, ..self }),
    {
        ClientHintContext { template, ..self }
    }

    /// Returns the origin of the request.
    pub fn origin(&self) -> (r: &'a str)
        ensures
            r == self.origin,
    {
        self.origin
    }

    /// The fields of a request with its hints in place, or why they cannot be
    /// placed.
    pub open spec fn outcome(
        &self,
        store: Asked,
        given: Seq<HeaderView>,
        accept_ch: Option<Seq<u8>>,
    ) -> Result<Seq<HeaderView>, RequestError> {
        let asked = lookup(store, origin_of(self.endpoint));
        let connection = connection_hints(self.settings@, accept_ch);
        let template = template_view(self.template);
        if misplaced(self.settings@, asked, connection, given, template) {
            Err(RequestError::of_kind(RequestErrorKind::RequestTemplate, None))
        } else {
            Ok(prepared(self.settings@, asked, connection, given, template))
        }
    }

    /// Returns the fields of a request with its hints in place.
    ///
    /// Fails when the request would carry a hint that servers have to ask for
    /// and the template does not show where it goes.
    pub fn prepare(
        &self,
        store: &mut Option<ClientHintStore>,
        caller: Vec<RequestHeader>,
        connection_accept_ch: Option<&[u8]>,
    ) -> (r: Result<Vec<RequestHeader>, RequestError>)
        requires
            store_wf(*old(store)),
        ensures
            store_wf(*final(store)),
            store_bound(*final(store)) == store_bound(*old(store)),
            store_view(*final(store)) == touched(store_view(*old(store)), origin_of(self.endpoint)),
            placed_view(r) == self.outcome(
                store_view(*old(store)),
                headers_view(caller@),
                bytes_view(connection_accept_ch),
            ),
    {
        let origin = OriginKey::new(self.endpoint);
        let asked = match store {
            Some(store) => store.active_indices(&origin),
            None => {
                assert(position(store_view(*old(store)), origin@) is None);
                None
            },
        };
        let connection = match connection_accept_ch {
            Some(bytes) => match parse_tokens(bytes) {
                Some(tokens) => Some(requested_indices(self.settings, &tokens)),
                None => None,
            },
            None => None,
        };
        match self.template {
            Some(template) => if !(template.requested_client_hint_placement && template.slots.len()
                > 0) && is_carrying_requested(self.settings, &asked, &connection, &caller) {
                return Err(RequestError::new(RequestErrorKind::RequestTemplate, None));
            },
            None => {},
        }
        Ok(prepare_fields(self.settings, &asked, &connection, caller, self.template))
    }
}

} // verus!
