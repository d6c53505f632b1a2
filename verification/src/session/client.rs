//! The state that the requests of one client share.

use vstd::prelude::*;
use vstd::utf8::encode_utf8;
use crate::alt_svc::field::field_update;
use crate::alt_svc::https_records::{is_ip_literal, Discovery, DiscoveryView, HttpsRecordDiscovery};
use crate::alt_svc::policy::{AltSvcBrokenBackoff, AltSvcPolicy};
use crate::alt_svc::snapshot::{
    exported, imported, refusal, AltSvcSnapshot, AltSvcSnapshotError, AltSvcSnapshotErrorKind,
};
use crate::alt_svc::store::{
    location_authority, own_location, serialized_origin, store_key, AltSvcFrame, AltSvcLocation,
    AltSvcStore, BrokenKeyView, FrameView, StoreKeyView, StoreView,
};
use crate::alt_svc::target::{AlternativeSource, AlternativeTarget};
use crate::client_hints::context::ClientHintContext;
use crate::client_hints::fields::{asks, retries};
use crate::client_hints::store::{asked_for, ClientHintStore};
use crate::client_hints::types::ClientHintSettings;
use crate::cookies::jar::CookieJar;
use crate::cookies::model::JarView;
use crate::cookies::rules::CandidateView;
use crate::cookies::snapshot::{
    all_accepted, checked, first_rejected, CookieSnapshot, CookieSnapshotError,
    CookieSnapshotErrorKind,
};
use crate::cookies::types::CookieLimits;
use crate::endpoint::{
    headers_view, origin_of, Endpoint, HeaderView, HttpProtocol, RequestHeader, Route, RouteView,
};
use crate::error::{RequestError, RequestErrorKind};
use crate::policy::{RedirectPolicy, RetryPolicy};
use crate::pool::http1_or_2_pool::{Http1Or2Pool, NegotiatedLimits};
use crate::pool::http1_pool::Http1Pool;
use crate::pool::http2_pool::Http2Pool;
use crate::pool::http3_pool::Http3Pool;
use crate::session::builder::SessionBuilder;
use crate::session::options::{
    fields_view, push_field, ClientOptions, DebugField, DebugValue, FieldView, Transport,
};
use crate::sse::request::SseRequestBuilder;
use crate::time::{Duration, Instant, SystemTime};
use crate::timeout::RequestTimeouts;

verus! {

/// A client: the transport it uses and the state its requests share.
pub struct Client {
    pub transport: Transport,
    pub redirect_policy: RedirectPolicy,
    pub retry_policy: RetryPolicy,
    pub request_timeouts: RequestTimeouts,
    pub http1: Http1Pool,
    pub http1_or_2: Http1Or2Pool,
    pub http2: Http2Pool,
    pub http3: Http3Pool,
    pub alt_svc: Option<AltSvcStore>,
    pub alt_svc_policy: AltSvcPolicy,
    pub https_records: Option<HttpsRecordDiscovery>,
    pub client_hints: Option<ClientHintStore>,
    pub cookies: Option<CookieJar>,
}

/// Compatibility name for the pooled [`Client`] owner.
pub type Session = Client;

/// What a store of alternatives holds, if there is one.
pub open spec fn store_view(store: Option<AltSvcStore>) -> Option<StoreView> {
    match store {
        Some(store) => Some(store@),
        None => None,
    }
}

/// What a cookie jar holds, if there is one.
pub open spec fn jar_view(jar: Option<CookieJar>) -> Option<JarView> {
    match jar {
        Some(jar) => Some(jar@),
        None => None,
    }
}

/// The limits of a cookie jar, if there is one.
pub open spec fn jar_limits(jar: Option<CookieJar>) -> Option<CookieLimits> {
    match jar {
        Some(jar) => Some(jar.limits),
        None => None,
    }
}

/// What a record cache holds, if there is one.
pub open spec fn cache_view(cache: Option<HttpsRecordDiscovery>) -> Option<DiscoveryView> {
    match cache {
        Some(cache) => Some(cache@),
        None => None,
    }
}

/// The HTTP/1.1 bound of one key: the caller's, else the profile's.
pub open spec fn http1_bound(options: ClientOptions, transport: Transport) -> usize {
    match options.max_concurrent_http1_requests_per_origin {
        Some(bound) => bound,
        None => transport.http1_connections_per_origin,
    }
}

/// The limits of the negotiated pool.
pub open spec fn negotiated_limits(options: ClientOptions, transport: Transport) -> NegotiatedLimits {
    NegotiatedLimits {
        capacity: if options.max_retained_http1_connections
            < options.max_retained_http2_connections {
            options.max_retained_http1_connections
        } else {
            options.max_retained_http2_connections
        },
        max_http1_active: http1_bound(options, transport),
        max_http1_pending: options.max_pending_http1_requests_per_origin,
        max_http2_active: options.max_concurrent_http2_requests_per_origin,
        max_http2_pending: options.max_pending_http2_requests_per_origin,
        max_http2_connections: options.max_http2_connections_per_origin,
        setup_wait_limit: options.negotiated_setup_wait_limit,
    }
}

/// The transport after the caller's early-data choice.
pub open spec fn chosen_transport(options: ClientOptions, transport: Transport) -> Transport {
    match options.http3_early_data {
        Some(enabled) => if transport.http3 {
            Transport { sends_early_data: enabled, ..transport }
        } else {
            transport
        },
        None => transport,
    }
}

/// What optional fields hold.
pub open spec fn optional_headers(headers: Option<Vec<RequestHeader>>) -> Option<Seq<HeaderView>> {
    match headers {
        Some(fields) => Some(headers_view(fields@)),
        None => None,
    }
}

/// The store after a response from an origin over a route: its frames first,
/// then its fields, where the route has a UDP path.
pub open spec fn advertised_to(
    store: StoreView,
    endpoint: &Endpoint,
    route: RouteView,
    frames: Seq<FrameView>,
    headers: Option<Seq<HeaderView>>,
    now: Instant,
) -> StoreView {
    if !Route::carries_quic(route) {
        store
    } else {
        let framed = store.learned_frames(
            endpoint.host@,
            encode_utf8(serialized_origin(origin_of(endpoint))),
            store_key(endpoint, route),
            frames,
            now,
        );
        match headers {
            Some(fields) => framed.learned(
                store_key(endpoint, route),
                field_update(endpoint.host@, fields),
                now,
            ),
            None => framed,
        }
    }
}

/// What an origin's records say to a request on the direct route.
pub struct RecordedView {
    pub broken: bool,
    pub recently_broken: bool,
    pub discovery: Discovery,
    pub cache: DiscoveryView,
}

/// What the records of an origin say to a request on the direct route, and
/// the cache after it. A location in a broken period is not looked up.
pub open spec fn recorded(
    cache: DiscoveryView,
    store: StoreView,
    endpoint: &Endpoint,
    has_runtime: bool,
    now: Instant,
) -> RecordedView {
    let key = store_key(endpoint, RouteView::Direct);
    let broken = store.is_broken(key, own_location(endpoint), now);
    let silent = broken || is_ip_literal(endpoint.host@) || !has_runtime;
    RecordedView {
        broken,
        recently_broken: store.has_failed(key, own_location(endpoint)),
        discovery: if silent {
            Discovery::NotAdvertised
        } else {
            cache.discovered(origin_of(endpoint), now)
        },
        cache: if silent {
            cache
        } else {
            cache.after_discover(origin_of(endpoint), now)
        },
    }
}

/// The store after an alternative was given up: an advertisement leaves, the
/// location of a record is marked broken.
pub open spec fn given_up(
    store: StoreView,
    key: StoreKeyView,
    alternative: AlternativeTarget,
    backoff: AltSvcBrokenBackoff,
    now: Instant,
) -> StoreView {
    match alternative.source {
        AlternativeSource::AltSvc { generation, .. } => store.removed_if_current(key, generation),
        AlternativeSource::HttpsRecord => store.marked_broken(
            BrokenKeyView { key, location: alternative.location@ },
            backoff,
            now,
        ),
    }
}

impl Client {
    /// Everything the client holds is consistent.
    pub open spec fn wf(&self) -> bool {
        &&& self.http1.wf()
        &&& self.http1_or_2.wf()
        &&& self.http2.wf()
        &&& self.http3.wf()
        &&& self.alt_svc matches Some(store) ==> store.wf()
        &&& self.https_records matches Some(cache) ==> cache.wf()
        &&& self.client_hints matches Some(store) ==> store.wf()
        &&& self.cookies matches Some(jar) ==> jar.wf()
    }

    /// Whether a client was built from options over a transport: it has their
    /// policies and bounds, and its pools and stores are empty.
    pub open spec fn built_from(&self, options: ClientOptions, transport: Transport) -> bool {
        &&& self.transport == chosen_transport(options, transport)
        &&& self.redirect_policy == options.redirect_policy
        &&& self.retry_policy == options.retry_policy
        &&& self.request_timeouts == options.request_timeouts
        &&& self.http1.entries.bound() == options.max_retained_http1_connections
        &&& self.http1.entries@.len() == 0
        &&& self.http1.max_active == http1_bound(options, transport)
        &&& self.http1.max_pending == options.max_pending_http1_requests_per_origin
        &&& self.http1_or_2.limits == negotiated_limits(options, transport)
        &&& self.http1_or_2.entries@.len() == 0
        &&& self.http1_or_2.http2_keys@.len() == 0
        &&& self.http2.entries.bound() == options.max_retained_http2_connections
        &&& self.http2.entries@.len() == 0
        &&& self.http2.max_active == options.max_concurrent_http2_requests_per_origin
        &&& self.http2.max_pending == options.max_pending_http2_requests_per_origin
        &&& self.http2.max_connections == options.max_http2_connections_per_origin
        &&& self.http3.entries.bound() == options.max_retained_http3_connections
        &&& self.http3.entries@.len() == 0
        &&& self.http3.max_active == options.max_concurrent_http3_requests_per_origin
        &&& self.http3.max_pending == options.max_pending_http3_requests_per_origin
        &&& store_view(self.alt_svc) == (match options.max_alt_svc_origins {
            Some(capacity) => Some(
                StoreView {
                    capacity: capacity as nat,
                    entries: Seq::empty(),
                    broken: Seq::empty(),
                    next_generation: 1,
                },
            ),
            None => None,
        })
        &&& self.alt_svc_policy == options.alt_svc_policy
        &&& cache_view(self.https_records) == (match (
            options.https_record_discovery,
            options.max_alt_svc_origins,
        ) {
            (true, Some(capacity)) => Some(
                DiscoveryView { capacity: capacity as nat, entries: Seq::empty(), next_lookup: 1 },
            ),
            _ => None,
        })
        &&& self.client_hints is Some == transport.client_hints
        &&& self.client_hints matches Some(store) ==> store.bound()
            == options.max_client_hint_origins && store@.len() == 0
        &&& self.cookies == options.cookie_jar
    }

    /// Returns the client's default retry policy.
    pub fn retry_policy(&self) -> (r: RetryPolicy)
        ensures
            r == self.retry_policy,
    {
        self.retry_policy
    }

    /// Returns the default timeout policy for ordinary requests.
    pub fn request_timeouts(&self) -> (r: RequestTimeouts)
        ensures
            r == self.request_timeouts,
    {
        self.request_timeouts
    }

    /// Returns the context of one request's client hints, without a template.
    /// The hints are placed with this client's own store.
    pub fn client_hint_context<'a>(
        &self,
        endpoint: &'a Endpoint,
        origin: &'a str,
        settings: &'a ClientHintSettings,
    ) -> (r: ClientHintContext<'a>)
        ensures
            r == (ClientHintContext { endpoint, origin, settings, template: None }),
    {
        ClientHintContext::new(endpoint, origin, settings)
    }

    /// Learns the hints that a response asks for. Returns whether the request
    /// has to be sent again with them. Without client hints nothing happens.
    pub fn learn_client_hints_and_should_retry(
        &mut self,
        endpoint: &Endpoint,
        settings: &ClientHintSettings,
        response: &Vec<RequestHeader>,
        sent: &Vec<RequestHeader>,
    ) -> (r: bool)
        requires
            old(self).wf(),
        ensures
            final(self).wf(),
            *final(self) == (Client { client_hints: final(self).client_hints, ..*old(self) }),
            match old(self).client_hints {
                None => !r && final(self).client_hints is None,
                Some(store) => final(self).client_hints matches Some(after) && after.bound()
                    == store.bound() && match asks(settings@, headers_view(response@)) {
                    None => after@ == store@ && !r,
                    Some(found) => after@ == asked_for(
                        store@,
                        origin_of(endpoint),
                        found.0,
                        store.bound(),
                    ) && r == retries(settings@, found.0, found.1, headers_view(sent@)),
                },
            },
    {
        match &mut self.client_hints {
            Some(store) => store.learn_and_should_retry(endpoint, settings, response, sent),
            None => false,
        }
    }

    /// Returns the stored alternative of an origin over a route.
    pub fn alt_svc_location(&mut self, endpoint: &Endpoint, route: &Route, now: Instant) -> (r:
        Option<AlternativeTarget>)
        requires
            old(self).wf(),
        ensures
            final(self).wf(),
            *final(self) == (Client { alt_svc: final(self).alt_svc, ..*old(self) }),
            store_view(final(self).alt_svc) == (match store_view(old(self).alt_svc) {
                Some(store) => Some(store.after_get(store_key(endpoint, route@), now)),
                None => None,
            }),
            match store_view(old(self).alt_svc) {
                None => r is None,
                Some(store) => match store.selection(
                    store_key(endpoint, route@),
                    own_location(endpoint),
                    now,
                ) {
                    None => r is None,
                    Some(found) => r matches Some(target) && target.location@ == found.location && (
                    target.source matches AlternativeSource::AltSvc { alt_used, generation }
                        && alt_used@ == location_authority(found.location) && generation
                        == found.generation) && target.broken == found.broken
                        && target.origin_quic_recently_broken == found.origin_quic_recently_broken,
                },
            },
    {
        match &mut self.alt_svc {
            Some(store) => match store.get(endpoint, route, now) {
                Some(selection) => Some(AlternativeTarget::new(&selection)),
                None => None,
            },
            None => None,
        }
    }

    /// Returns how negotiated requests use a learned alternative.
    pub fn alt_svc_policy(&self) -> (r: AltSvcPolicy)
        ensures
            r == self.alt_svc_policy,
    {
        self.alt_svc_policy
    }

    /// Marks an alternative broken after it failed a race.
    pub fn mark_alt_svc_broken(
        &mut self,
        endpoint: &Endpoint,
        route: &Route,
        location: &AltSvcLocation,
        backoff: AltSvcBrokenBackoff,
        now: Instant,
    )
        requires
            old(self).wf(),
        ensures
            final(self).wf(),
            *final(self) == (Client { alt_svc: final(self).alt_svc, ..*old(self) }),
            store_view(final(self).alt_svc) == (match store_view(old(self).alt_svc) {
                Some(store) => Some(
                    store.marked_broken(
                        BrokenKeyView { key: store_key(endpoint, route@), location: location@ },
                        backoff,
                        now,
                    ),
                ),
                None => None,
            }),
    {
        match &mut self.alt_svc {
            Some(store) => store.mark_broken(endpoint, route, location, backoff, now),
            None => {},
        }
    }

    /// Records that a raced alternative that sent early data then failed its
    /// handshake, so later raced setups for the origin send no early data.
    pub fn mark_origin_quic_recently_broken(
        &mut self,
        endpoint: &Endpoint,
        route: &Route,
        now: Instant,
    )
        requires
            old(self).wf(),
        ensures
            final(self).wf(),
            *final(self) == (Client { alt_svc: final(self).alt_svc, ..*old(self) }),
            store_view(final(self).alt_svc) == (match store_view(old(self).alt_svc) {
                Some(store) => Some(
                    store.marked_recently_broken(
                        BrokenKeyView {
                            key: store_key(endpoint, route@),
                            location: own_location(endpoint),
                        },
                        now,
                    ),
                ),
                None => None,
            }),
    {
        match &mut self.alt_svc {
            Some(store) => store.mark_origin_quic_recently_broken(endpoint, route, now),
            None => {},
        }
    }

    /// Clears the failure history of an alternative after it connected.
    pub fn confirm_alt_svc(
        &mut self,
        endpoint: &Endpoint,
        route: &Route,
        alternative: &AlternativeTarget,
        now: Instant,
    )
        requires
            old(self).wf(),
        ensures
            final(self).wf(),
            *final(self) == (Client { alt_svc: final(self).alt_svc, ..*old(self) }),
            store_view(final(self).alt_svc) == (match store_view(old(self).alt_svc) {
                Some(store) => Some(
                    store.confirmed(
                        store_key(endpoint, route@),
                        alternative.location@,
                        own_location(endpoint),
                        now,
                    ),
                ),
                None => None,
            }),
    {
        match &mut self.alt_svc {
            Some(store) => store.confirm(endpoint, route, &alternative.location, now),
            None => {},
        }
    }

    /// Whether a connection waits for the `ech` value of its origin's records.
    pub open spec fn ech_awaited(&self, route: RouteView, offers_ech: bool) -> bool {
        route is Direct && offers_ech && self.https_records is Some
    }

    /// Returns whether a direct TLS connection waits for the `ech` value of
    /// the origin's HTTPS records: its profile takes ECH from them, and this
    /// client looks them up.
    pub fn waits_for_ech(&self, route: &Route, offers_ech: bool) -> (r: bool)
        ensures
            r == self.ech_awaited(route@, offers_ech),
    {
        route.is_direct() && offers_ech && self.https_records.is_some()
    }

    /// Returns the origin's own location as an HTTP/3 alternative, with what
    /// its HTTPS records say, when discovery applies to this request.
    ///
    /// Discovery runs on the direct route only: no HTTPS query is sent for a
    /// request whose route is a proxy. A location in a broken period counts
    /// as not advertised.
    pub fn https_record_alternative(
        &mut self,
        endpoint: &Endpoint,
        route: &Route,
        has_runtime: bool,
        now: Instant,
    ) -> (r: Option<(AlternativeTarget, Discovery)>)
        requires
            old(self).wf(),
        ensures
            final(self).wf(),
            *final(self) == (Client { https_records: final(self).https_records, ..*old(self) }),
            match (old(self).https_records, old(self).alt_svc, route@) {
                (Some(cache), Some(store), RouteView::Direct) => {
                    let found = recorded(cache@, store@, endpoint, has_runtime, now);
                    &&& r matches Some((target, discovery)) && target.location@ == own_location(
                        endpoint,
                    ) && target.source is HttpsRecord && target.broken == found.broken
                        && target.origin_quic_recently_broken == found.recently_broken && discovery
                        == found.discovery
                    &&& cache_view(final(self).https_records) == Some(found.cache)
                },
                _ => r is None && final(self).https_records == old(self).https_records,
            },
    {
        if self.https_records.is_none() || !route.is_direct() {
            return None;
        }
        let (broken, recently) = match &self.alt_svc {
            Some(store) => (
                store.is_broken(endpoint, route, &AltSvcLocation::origin(endpoint), now),
                store.origin_quic_recently_broken(endpoint, route),
            ),
            None => {
                return None;
            },
        };
        let target = AlternativeTarget::https_record(endpoint, broken, recently);
        if broken {
            return Some((target, Discovery::NotAdvertised));
        }
        match &mut self.https_records {
            Some(cache) => {
                let found = cache.discover(endpoint, has_runtime, now);
                Some((target, found))
            },
            None => None,
        }
    }

    /// The backoff of an HTTPS record's location: the racing policy's, or
    /// Chromium's.
    pub open spec fn record_backoff(&self) -> AltSvcBrokenBackoff {
        match self.alt_svc_policy.race {
            Some(race) => race.broken_backoff,
            None => AltSvcBrokenBackoff {
                initial: Duration { nanos: 300_000_000_000 },
                maximum: Duration { nanos: 172_800_000_000_000 },
            },
        }
    }

    /// Stops using `alternative` after its connection failed or it answered
    /// `421`.
    ///
    /// A stored Alt-Svc advertisement is evicted, unless it was replaced
    /// meanwhile. An HTTPS record cannot be evicted from DNS, so its location
    /// is marked broken instead, for the racing policy's backoff or, under
    /// the sequential policy, for Chromium's.
    pub fn invalidate_alternative(
        &mut self,
        endpoint: &Endpoint,
        route: &Route,
        alternative: &AlternativeTarget,
        now: Instant,
    )
        requires
            old(self).wf(),
        ensures
            final(self).wf(),
            *final(self) == (Client { alt_svc: final(self).alt_svc, ..*old(self) }),
            store_view(final(self).alt_svc) == (match store_view(old(self).alt_svc) {
                Some(store) => Some(
                    given_up(
                        store,
                        store_key(endpoint, route@),
                        *alternative,
                        old(self).record_backoff(),
                        now,
                    ),
                ),
                None => None,
            }),
    {
        match alternative.generation() {
            Some(generation) => self.remove_alt_svc_if_current(endpoint, route, generation),
            None => {
                let backoff = match self.alt_svc_policy.race_settings() {
                    Some(race) => race.broken_backoff(),
                    None => AltSvcBrokenBackoff::chromium_153(),
                };
                self.mark_alt_svc_broken(endpoint, route, &alternative.location, backoff, now);
            },
        }
    }

    /// Returns whether alternatives are learned.
    pub fn alt_svc_enabled(&self) -> (r: bool)
        ensures
            r == (self.alt_svc is Some),
    {
        self.alt_svc.is_some()
    }

    /// Learns the alternatives that a response advertises.
    ///
    /// A route without a UDP path could never dial an `h3` alternative, so its
    /// advertisements are not stored. ALTSVC frames precede the response
    /// fields on the wire, so they are applied before the response's own
    /// field.
    pub fn learn_alt_svc(
        &mut self,
        endpoint: &Endpoint,
        route: &Route,
        frames: &Vec<AltSvcFrame>,
        headers: &Option<Vec<RequestHeader>>,
        now: Instant,
    )
        requires
            old(self).wf(),
        ensures
            final(self).wf(),
            *final(self) == (Client { alt_svc: final(self).alt_svc, ..*old(self) }),
            store_view(final(self).alt_svc) == (match store_view(old(self).alt_svc) {
                Some(store) => Some(
                    advertised_to(
                        store,
                        endpoint,
                        route@,
                        frames@.map_values(|frame: AltSvcFrame| frame@),
                        optional_headers(*headers),
                        now,
                    ),
                ),
                None => None,
            }),
    {
        if !route.carries_quic_alternative() {
            return;
        }
        match &mut self.alt_svc {
            Some(store) => {
                store.learn_frames(endpoint, route, frames, now);
                match headers {
                    Some(fields) => store.learn(endpoint, route, fields, now),
                    None => {},
                }
            },
            None => {},
        }
    }

    /// Forgets a stored alternative unless a later one has replaced it.
    pub fn remove_alt_svc_if_current(&mut self, endpoint: &Endpoint, route: &Route, generation: u64)
        requires
            old(self).wf(),
        ensures
            final(self).wf(),
            *final(self) == (Client { alt_svc: final(self).alt_svc, ..*old(self) }),
            store_view(final(self).alt_svc) == (match store_view(old(self).alt_svc) {
                Some(store) => Some(
                    store.removed_if_current(store_key(endpoint, route@), generation),
                ),
                None => None,
            }),
    {
        match &mut self.alt_svc {
            Some(store) => store.remove_if_current(endpoint, route, generation),
            None => {},
        }
    }

    /// Starts a bounded server-sent event source using this client's state.
    ///
    /// Reconnects use exactly `protocol`, the same route, ordered caller
    /// fields, shared connection pools, redirect policy, and optional cookie
    /// jar. `available` says whether the profile has the protocol, and
    /// `resolved` whether the URI names an endpoint and a request target.
    pub fn event_source(
        &self,
        protocol: HttpProtocol,
        uri: &str,
        available: bool,
        resolved: Result<(), RequestError>,
    ) -> (r: Result<SseRequestBuilder, RequestError>)
        ensures
            !available ==> r == Err::<SseRequestBuilder, RequestError>(
                RequestError::of_kind(RequestErrorKind::ProtocolUnavailable, Some(protocol)),
            ),
            available ==> match resolved {
                Err(error) => r == Err::<SseRequestBuilder, RequestError>(error),
                Ok(_) => r matches Ok(builder) && builder.is_default(protocol, uri@),
            },
    {
        if !available {
            return Err(RequestError::new(RequestErrorKind::ProtocolUnavailable, Some(protocol)));
        }
        match resolved {
            Err(error) => Err(error),
            Ok(_) => Ok(SseRequestBuilder::new(protocol, uri)),
        }
    }

    /// Returns this client's cookie jar when cookie handling was enabled.
    pub fn cookie_jar(&self) -> (r: Option<&CookieJar>)
        ensures
            (match r {
                Some(jar) => Some(*jar),
                None => None,
            }) == self.cookies,
    {
        match &self.cookies {
            Some(jar) => Some(jar),
            None => None,
        }
    }

    /// Exports this client's unexpired cookies for caller-owned persistence,
    /// oldest first.
    ///
    /// Returns `None` when the client was built without a cookie jar. A
    /// persistent cookie's expiry is rounded down to a second; a session
    /// cookie has none and is exported too, so restoring one continues the
    /// session. Exporting does not count as a use for eviction.
    pub fn export_cookies(&mut self, now: SystemTime) -> (r: Option<CookieSnapshot>)
        requires
            old(self).wf(),
        ensures
            final(self).wf(),
            *final(self) == (Client { cookies: final(self).cookies, ..*old(self) }),
            jar_limits(final(self).cookies) == jar_limits(old(self).cookies),
            jar_view(final(self).cookies) == (match jar_view(old(self).cookies) {
                Some(jar) => Some(jar.purged(now)),
                None => None,
            }),
            match old(self).cookies {
                Some(jar) => r matches Some(snapshot) && snapshot@ == jar@.exported(now),
                None => r is None,
            },
    {
        match &mut self.cookies {
            Some(jar) => Some(jar.export(now)),
            None => None,
        }
    }

    /// Imports cookies from a previously exported or caller-built snapshot.
    ///
    /// Every entry is revalidated first as the `Set-Cookie` field a response
    /// from its source scheme and domain would send, and one invalid entry
    /// rejects the whole snapshot without changing state. Cookies the jar
    /// already holds take precedence. Fails with
    /// [`CookieSnapshotErrorKind::Disabled`] when the client has no cookie
    /// jar, or with the category and index of the first entry that storage
    /// would refuse.
    pub fn import_cookies(&mut self, snapshot: &CookieSnapshot, now: SystemTime) -> (r: Result<
        (),
        CookieSnapshotError,
    >)
        requires
            old(self).wf(),
        ensures
            final(self).wf(),
            *final(self) == (Client { cookies: final(self).cookies, ..*old(self) }),
            jar_limits(final(self).cookies) == jar_limits(old(self).cookies),
            match old(self).cookies {
                None => final(self).cookies is None && r == Err::<(), CookieSnapshotError>(
                    CookieSnapshotError { kind: CookieSnapshotErrorKind::Disabled, entry: None },
                ),
                Some(jar) => {
                    &&& r is Ok == all_accepted(snapshot@, jar.limits)
                    &&& r is Ok ==> jar_view(final(self).cookies) == Some(
                        jar@.imported(snapshot@, jar.limits, now),
                    )
                    &&& r matches Err(error) ==> jar_view(final(self).cookies) == Some(jar@) && (
                    error.entry matches Some(i) && first_rejected(
                        snapshot@,
                        jar.limits,
                        i as int,
                    ) && checked(snapshot@[i as int], jar.limits) == Err::<CandidateView, _>(
                        error.kind,
                    ))
                },
            },
    {
        match &mut self.cookies {
            Some(jar) => jar.import(snapshot, now),
            None => Err(CookieSnapshotError::disabled()),
        }
    }

    /// Clears all `Accept-CH` preferences learned by this client.
    pub fn clear_client_hints(&mut self)
        requires
            old(self).wf(),
        ensures
            final(self).wf(),
            *final(self) == (Client { client_hints: final(self).client_hints, ..*old(self) }),
            match old(self).client_hints {
                Some(store) => final(self).client_hints matches Some(after) && after@.len() == 0
                    && after.bound() == store.bound(),
                None => final(self).client_hints is None,
            },
    {
        match &mut self.client_hints {
            Some(store) => store.clear(),
            None => {},
        }
    }

    /// Returns whether there is an address cache to clear.
    ///
    /// Browsers flush their address caches when the network changes; call
    /// this after such a change, and clear the resolver's cache if there is
    /// one. A client that keeps no addresses has nothing to do.
    pub fn clear_dns_cache(&self) -> (r: bool)
        ensures
            r == self.transport.caches_addresses,
    {
        self.transport.caches_addresses
    }

    /// Clears all alternative services learned by this client.
    pub fn clear_alt_svc(&mut self)
        requires
            old(self).wf(),
        ensures
            final(self).wf(),
            *final(self) == (Client { alt_svc: final(self).alt_svc, ..*old(self) }),
            store_view(final(self).alt_svc) == (match store_view(old(self).alt_svc) {
                Some(store) => Some(
                    StoreView { entries: Seq::empty(), broken: Seq::empty(), ..store },
                ),
                None => None,
            }),
    {
        match &mut self.alt_svc {
            Some(store) => store.clear(),
            None => {},
        }
    }

    /// Exports this client's unexpired Alt-Svc alternatives for caller-owned
    /// persistence, least recently used first.
    ///
    /// Returns `None` when the client learns no alternatives. Expiry is the
    /// remaining lifetime as wall-clock time, rounded down to a second. An
    /// export keeps the direct-route entries and omits every proxy-route one.
    pub fn export_alt_svc(&self, now: Instant, system_now: SystemTime) -> (r: Option<
        AltSvcSnapshot,
    >)
        ensures
            match self.alt_svc {
                Some(store) => r matches Some(snapshot) && snapshot@ == exported(
                    store@.entries,
                    now,
                    system_now,
                ),
                None => r is None,
            },
    {
        match &self.alt_svc {
            Some(store) => Some(store.export(now, system_now)),
            None => None,
        }
    }

    /// Imports alternatives from a previously exported or caller-built
    /// snapshot.
    ///
    /// Every entry is revalidated first; one invalid entry rejects the whole
    /// snapshot without changing state. Alternatives this client already
    /// holds take precedence and imported entries rank as least recently
    /// used. Every imported entry belongs to the direct route, so no import
    /// can reach a proxy route.
    pub fn import_alt_svc(
        &mut self,
        snapshot: &AltSvcSnapshot,
        now: Instant,
        system_now: SystemTime,
    ) -> (r: Result<(), AltSvcSnapshotError>)
        requires
            old(self).wf(),
        ensures
            final(self).wf(),
            *final(self) == (Client { alt_svc: final(self).alt_svc, ..*old(self) }),
            match old(self).alt_svc {
                None => final(self).alt_svc is None && r == Err::<(), AltSvcSnapshotError>(
                    AltSvcSnapshotError { kind: AltSvcSnapshotErrorKind::Disabled, entry: None },
                ),
                Some(store) => {
                    &&& r is Ok <==> forall|i: int|
                        0 <= i < snapshot@.len() ==> refusal(#[trigger] snapshot@[i]) is None
                    &&& r is Ok ==> store_view(final(self).alt_svc) == Some(
                        imported(store@, snapshot@, 0, now, system_now),
                    )
                    &&& r matches Err(error) ==> store_view(final(self).alt_svc) == Some(store@)
                        && (error.entry matches Some(index) && index < snapshot@.len() && Some(
                        error.kind,
                    ) == refusal(snapshot@[index as int]) && forall|j: int|
                        0 <= j < index ==> refusal(#[trigger] snapshot@[j]) is None)
                },
            },
    {
        match &mut self.alt_svc {
            Some(store) => store.import(snapshot, now, system_now),
            None => Err(AltSvcSnapshotError::disabled()),
        }
    }

    /// Starts a session over this client's transport, with no options set.
    pub fn session_builder(&self) -> (r: SessionBuilder)
        ensures
            r == (SessionBuilder {
                transport: self.transport,
                options: ClientOptions::defaults(),
            }),
            r.options.wf(),
    {
        SessionBuilder { transport: self.transport, options: ClientOptions::default() }
    }

    /// The client as it is printed. Of the cookies only whether there are any
    /// is shown.
    pub open spec fn printed(&self) -> Seq<FieldView> {
        seq![
            ("redirect_policy"@, DebugValue::Redirects(self.redirect_policy)),
            ("retry_policy"@, DebugValue::Retries(self.retry_policy)),
            ("request_timeouts"@, DebugValue::Timeouts(self.request_timeouts)),
            (
                "max_retained_http1_connections"@,
                DebugValue::Bound(self.http1.entries.bound() as usize),
            ),
            (
                "max_concurrent_http1_requests_per_origin"@,
                DebugValue::Bound(self.http1.max_active),
            ),
            ("max_pending_http1_requests_per_origin"@, DebugValue::Bound(self.http1.max_pending)),
            (
                "max_retained_http2_connections"@,
                DebugValue::Bound(self.http2.entries.bound() as usize),
            ),
            (
                "max_concurrent_http2_requests_per_origin"@,
                DebugValue::Bound(self.http2.max_active),
            ),
            ("max_pending_http2_requests_per_origin"@, DebugValue::Bound(self.http2.max_pending)),
            ("max_http2_connections_per_origin"@, DebugValue::Bound(self.http2.max_connections)),
            (
                "max_retained_http3_connections"@,
                DebugValue::Bound(self.http3.entries.bound() as usize),
            ),
            (
                "max_concurrent_http3_requests_per_origin"@,
                DebugValue::Bound(self.http3.max_active),
            ),
            ("max_pending_http3_requests_per_origin"@, DebugValue::Bound(self.http3.max_pending)),
            ("cookies_enabled"@, DebugValue::Flag(self.cookies is Some)),
            ("client_hints_enabled"@, DebugValue::Flag(self.client_hints is Some)),
            ("alt_svc_enabled"@, DebugValue::Flag(self.alt_svc is Some)),
            (
                "max_alt_svc_origins"@,
                DebugValue::OptionalBound(
                    match self.alt_svc {
                        Some(store) => Some(store@.capacity as usize),
                        None => None,
                    },
                ),
            ),
            ("alt_svc_policy"@, DebugValue::AltSvc(self.alt_svc_policy)),
            ("https_record_discovery_enabled"@, DebugValue::Flag(self.https_records is Some)),
            (
                "max_client_hint_origins"@,
                DebugValue::OptionalBound(
                    match self.client_hints {
                        Some(store) => Some(store.bound() as usize),
                        None => None,
                    },
                ),
            ),
        ]
    }

    /// Returns the client as it is printed.
    pub fn debug_fields(&self) -> (r: Vec<DebugField>)
        ensures
            fields_view(r@) == self.printed(),
    {
        let mut fields: Vec<DebugField> = Vec::new();
        push_field(&mut fields, "redirect_policy", DebugValue::Redirects(self.redirect_policy));
        push_field(&mut fields, "retry_policy", DebugValue::Retries(self.retry_policy));
        push_field(&mut fields, "request_timeouts", DebugValue::Timeouts(self.request_timeouts));
        push_field(
            &mut fields,
            "max_retained_http1_connections",
            DebugValue::Bound(self.http1.capacity()),
        );
        push_field(
            &mut fields,
            "max_concurrent_http1_requests_per_origin",
            DebugValue::Bound(self.http1.max_active()),
        );
        push_field(
            &mut fields,
            "max_pending_http1_requests_per_origin",
            DebugValue::Bound(self.http1.max_pending()),
        );
        push_field(
            &mut fields,
            "max_retained_http2_connections",
            DebugValue::Bound(self.http2.capacity()),
        );
        push_field(
            &mut fields,
            "max_concurrent_http2_requests_per_origin",
            DebugValue::Bound(self.http2.max_active()),
        );
        push_field(
            &mut fields,
            "max_pending_http2_requests_per_origin",
            DebugValue::Bound(self.http2.max_pending()),
        );
        push_field(
            &mut fields,
            "max_http2_connections_per_origin",
            DebugValue::Bound(self.http2.max_connections()),
        );
        push_field(
            &mut fields,
            "max_retained_http3_connections",
            DebugValue::Bound(self.http3.capacity()),
        );
        push_field(
            &mut fields,
            "max_concurrent_http3_requests_per_origin",
            DebugValue::Bound(self.http3.max_active()),
        );
        push_field(
            &mut fields,
            "max_pending_http3_requests_per_origin",
            DebugValue::Bound(self.http3.max_pending()),
        );
        push_field(&mut fields, "cookies_enabled", DebugValue::Flag(self.cookies.is_some()));
        push_field(
            &mut fields,
            "client_hints_enabled",
            DebugValue::Flag(self.client_hints.is_some()),
        );
        push_field(&mut fields, "alt_svc_enabled", DebugValue::Flag(self.alt_svc.is_some()));
        let origins = match &self.alt_svc {
            Some(store) => Some(store.capacity()),
            None => None,
        };
        push_field(&mut fields, "max_alt_svc_origins", DebugValue::OptionalBound(origins));
        push_field(&mut fields, "alt_svc_policy", DebugValue::AltSvc(self.alt_svc_policy));
        push_field(
            &mut fields,
            "https_record_discovery_enabled",
            DebugValue::Flag(self.https_records.is_some()),
        );
        let hints = match &self.client_hints {
            Some(store) => Some(store.capacity()),
            None => None,
        };
        push_field(&mut fields, "max_client_hint_origins", DebugValue::OptionalBound(hints));
        assert(fields_view(fields@) =~= self.printed());
        fields
    }
}

impl ClientOptions {
    /// Builds a client over a transport that accepts these options.
    pub fn into_client(self, transport: Transport) -> (r: Client)
        requires
            self.wf(),
            transport.http1_connections_per_origin > 0,
        ensures
            r.wf(),
            r.built_from(self, transport),
    {
        let http1_active: usize = match self.max_concurrent_http1_requests_per_origin {
            Some(bound) => bound,
            None => transport.http1_connections_per_origin,
        };
        let chosen = match self.http3_early_data {
            Some(enabled) => if transport.http3 {
                Transport { sends_early_data: enabled, ..transport }
            } else {
                transport
            },
            None => transport,
        };
        let https_records = match self.max_alt_svc_origins {
            Some(capacity) => if self.https_record_discovery {
                Some(HttpsRecordDiscovery::new(capacity))
            } else {
                None
            },
            None => None,
        };
        let alt_svc = match self.max_alt_svc_origins {
            Some(capacity) => Some(AltSvcStore::new(capacity)),
            None => None,
        };
        let client_hints = if transport.client_hints {
            Some(ClientHintStore::new(self.max_client_hint_origins))
        } else {
            None
        };
        Client {
            transport: chosen,
            redirect_policy: self.redirect_policy,
            retry_policy: self.retry_policy,
            request_timeouts: self.request_timeouts,
            http1: Http1Pool::new(
                self.max_retained_http1_connections,
                http1_active,
                self.max_pending_http1_requests_per_origin,
            ),
            http1_or_2: Http1Or2Pool::new(
                self.max_retained_http1_connections,
                http1_active,
                self.max_pending_http1_requests_per_origin,
                self.max_retained_http2_connections,
                self.max_concurrent_http2_requests_per_origin,
                self.max_pending_http2_requests_per_origin,
            ).with_max_http2_connections(
                self.max_http2_connections_per_origin,
            ).with_setup_wait_limit(self.negotiated_setup_wait_limit),
            http2: Http2Pool::new(
                self.max_retained_http2_connections,
                self.max_concurrent_http2_requests_per_origin,
                self.max_pending_http2_requests_per_origin,
            ).with_max_connections(self.max_http2_connections_per_origin),
            http3: Http3Pool::new(
                self.max_retained_http3_connections,
                self.max_concurrent_http3_requests_per_origin,
                self.max_pending_http3_requests_per_origin,
            ),
            alt_svc,
            alt_svc_policy: self.alt_svc_policy,
            https_records,
            client_hints,
            cookies: self.cookie_jar,
        }
    }
}

} // verus!
