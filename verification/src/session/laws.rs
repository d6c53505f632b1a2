//! What holds of a client and of sessions built from it.

use vstd::prelude::*;
use vstd::utf8::encode_utf8;
use crate::alt_svc::field::field_update;
use crate::alt_svc::https_records::{is_ip_literal, Discovery, DiscoveryView};
use crate::alt_svc::policy::{AltSvcBrokenBackoff, AltSvcPolicy};
use crate::alt_svc::store::{
    own_location, serialized_origin, store_key, BrokenKeyView, FrameView, StoreKeyView, StoreView,
};
use crate::alt_svc::target::{AlternativeSource, AlternativeTarget};
use crate::cookies::jar::CookieJar;
use crate::endpoint::{origin_of, Endpoint, HeaderView, Route, RouteView};
use crate::policy::{RedirectPolicy, RetryPolicy};
use crate::session::builder::SessionBuilder;
use crate::session::client::{
    advertised_to, chosen_transport, given_up, http1_bound, negotiated_limits, recorded, store_view,
    Client,
};
use crate::session::options::{ClientOptions, Transport};
use crate::time::{Duration, Instant};
use crate::timeout::RequestTimeouts;

verus! {

/// A session without options of its own keeps its parent's transport, the
/// early-data choice included, and starts with nothing learned.
pub proof fn a_session_keeps_its_parent_s_transport(parent: Client, session: Client)
    requires
        session.built_from(ClientOptions::defaults(), parent.transport),
    ensures
        session.transport == parent.transport,
        session.cookies is None,
        session.alt_svc is None,
        session.https_records is None,
        session.http1.entries@.len() == 0,
        session.http1_or_2.entries@.len() == 0,
        session.http2.entries@.len() == 0,
        session.http3.entries@.len() == 0,
{
}

/// An early-data choice of a session replaces its parent's where the
/// transport has HTTP/3, and changes nothing else of the transport.
pub proof fn an_early_data_choice_replaces_the_parent_s(
    options: ClientOptions,
    transport: Transport,
    enabled: bool,
)
    requires
        options.http3_early_data == Some(enabled),
        transport.http3,
    ensures
        chosen_transport(options, transport) == (Transport {
            sends_early_data: enabled,
            ..transport
        }),
{
}

/// Early data, Alt-Svc, racing and record discovery are refused where what
/// they need is missing, whatever the other options are.
pub proof fn options_need_what_they_rest_on(
    options: ClientOptions,
    transport: Transport,
    now: Instant,
)
    requires
        options.fault(transport, now) is None,
    ensures
        options.http3_early_data == Some(true) ==> transport.http3
            && transport.http3_session_tickets,
        options.max_alt_svc_origins is Some ==> transport.negotiated && transport.http3,
        options.alt_svc_policy.race is Some ==> options.max_alt_svc_origins is Some,
        options.https_record_discovery ==> options.max_alt_svc_origins is Some,
{
}

/// The negotiated pool keeps no more entries than either protocol allows.
pub proof fn neither_retention_limit_is_exceeded(options: ClientOptions, transport: Transport)
    ensures
        negotiated_limits(options, transport).capacity <= options.max_retained_http1_connections,
        negotiated_limits(options, transport).capacity <= options.max_retained_http2_connections,
        negotiated_limits(options, transport).max_http1_active == http1_bound(options, transport),
{
}

/// A client that looks HTTPS records up has a store for what fails.
pub proof fn record_discovery_comes_with_a_store(
    client: Client,
    options: ClientOptions,
    transport: Transport,
    now: Instant,
)
    requires
        client.built_from(options, transport),
        options.fault(transport, now) is None,
    ensures
        client.https_records is Some == options.https_record_discovery,
        client.https_records is Some ==> store_view(client.alt_svc) is Some,
{
}

/// Each method of a builder sets the option that it is named after, to the
/// value given, and no other.
pub proof fn each_option_is_set_by_its_own_method(
    builder: SessionBuilder,
    redirects: RedirectPolicy,
    retries: RetryPolicy,
    timeouts: RequestTimeouts,
    n: usize,
    length: Duration,
    alternatives: AltSvcPolicy,
    enabled: bool,
    jar: CookieJar,
)
    ensures
        builder.with_redirect_policy(redirects) == (SessionBuilder {
            options: ClientOptions { redirect_policy: redirects, ..builder.options },
            ..builder
        }),
        builder.with_retry_policy(retries) == (SessionBuilder {
            options: ClientOptions { retry_policy: retries, ..builder.options },
            ..builder
        }),
        builder.with_request_timeouts(timeouts) == (SessionBuilder {
            options: ClientOptions { request_timeouts: timeouts, ..builder.options },
            ..builder
        }),
        builder.with_max_retained_http1_connections(n) == (SessionBuilder {
            options: ClientOptions { max_retained_http1_connections: n, ..builder.options },
            ..builder
        }),
        builder.with_max_concurrent_http1_requests_per_origin(n) == (SessionBuilder {
            options: ClientOptions { max_concurrent_http1_requests_per_origin: Some(n), ..builder.options },
            ..builder
        }),
        builder.with_max_pending_http1_requests_per_origin(n) == (SessionBuilder {
            options: ClientOptions { max_pending_http1_requests_per_origin: n, ..builder.options },
            ..builder
        }),
        builder.with_max_retained_http2_connections(n) == (SessionBuilder {
            options: ClientOptions { max_retained_http2_connections: n, ..builder.options },
            ..builder
        }),
        builder.with_max_concurrent_http2_requests_per_origin(n) == (SessionBuilder {
            options: ClientOptions { max_concurrent_http2_requests_per_origin: n, ..builder.options },
            ..builder
        }),
        builder.with_max_pending_http2_requests_per_origin(n) == (SessionBuilder {
            options: ClientOptions { max_pending_http2_requests_per_origin: n, ..builder.options },
            ..builder
        }),
        builder.with_max_http2_connections_per_origin(n) == (SessionBuilder {
            options: ClientOptions { max_http2_connections_per_origin: n, ..builder.options },
            ..builder
        }),
        builder.with_negotiated_setup_wait_limit(length) == (SessionBuilder {
            options: ClientOptions { negotiated_setup_wait_limit: Some(length), ..builder.options },
            ..builder
        }),
        builder.with_max_retained_http3_connections(n) == (SessionBuilder {
            options: ClientOptions { max_retained_http3_connections: n, ..builder.options },
            ..builder
        }),
        builder.with_max_concurrent_http3_requests_per_origin(n) == (SessionBuilder {
            options: ClientOptions { max_concurrent_http3_requests_per_origin: n, ..builder.options },
            ..builder
        }),
        builder.with_max_pending_http3_requests_per_origin(n) == (SessionBuilder {
            options: ClientOptions { max_pending_http3_requests_per_origin: n, ..builder.options },
            ..builder
        }),
        builder.with_max_client_hint_origins(n) == (SessionBuilder {
            options: ClientOptions { max_client_hint_origins: n, ..builder.options },
            ..builder
        }),
        builder.with_alt_svc(n) == (SessionBuilder {
            options: ClientOptions { max_alt_svc_origins: Some(n), ..builder.options },
            ..builder
        }),
        builder.with_alt_svc_policy(alternatives) == (SessionBuilder {
            options: ClientOptions { alt_svc_policy: alternatives, ..builder.options },
            ..builder
        }),
        builder.with_http3_early_data(enabled) == (SessionBuilder {
            options: ClientOptions { http3_early_data: Some(enabled), ..builder.options },
            ..builder
        }),
        builder.with_https_record_discovery() == (SessionBuilder {
            options: ClientOptions { https_record_discovery: true, ..builder.options },
            ..builder
        }),
        builder.with_cookie_jar(jar) == (SessionBuilder {
            options: ClientOptions { cookie_jar: Some(jar), ..builder.options },
            ..builder
        }),
{
}

/// What a client has unless told otherwise: no redirects, retries, limits,
/// alternatives, record lookups or cookies; 32 retained entries per protocol,
/// 100 waiting requests per origin, 100 running ones over HTTP/2 and HTTP/3,
/// one HTTP/2 connection per origin and the hints of 64 origins.
pub proof fn a_client_starts_from_these_defaults()
    ensures
        ({
            let options = ClientOptions::defaults();
            &&& options.redirect_policy.limit is None
            &&& options.retry_policy.connection_failures is None
            &&& options.retry_policy.retry_after_limit is None
            &&& options.request_timeouts.pool_admission is None
            &&& options.request_timeouts.connect is None
            &&& options.request_timeouts.response_head is None
            &&& options.request_timeouts.read_idle is None
            &&& options.request_timeouts.total is None
            &&& options.max_retained_http1_connections == 32
            &&& options.max_retained_http2_connections == 32
            &&& options.max_retained_http3_connections == 32
            &&& options.max_concurrent_http1_requests_per_origin is None
            &&& options.max_pending_http1_requests_per_origin == 100
            &&& options.max_concurrent_http2_requests_per_origin == 100
            &&& options.max_pending_http2_requests_per_origin == 100
            &&& options.max_concurrent_http3_requests_per_origin == 100
            &&& options.max_pending_http3_requests_per_origin == 100
            &&& options.max_http2_connections_per_origin == 1
            &&& options.negotiated_setup_wait_limit is None
            &&& options.max_client_hint_origins == 64
            &&& options.max_alt_svc_origins is None
            &&& options.alt_svc_policy.race is None
            &&& options.http3_early_data is None
            &&& !options.https_record_discovery
            &&& options.cookie_jar is None
        }),
{
}

/// Whether a length from now lies beyond what the clock can represent.
pub open spec fn too_long(length: Option<Duration>, now: Instant) -> bool {
    length matches Some(length) && now.nanos + length.nanos
        > 9_223_372_036_854_775_807_999_999_999
}

/// Options are refused exactly when a limit, a delay or a wait lies beyond
/// the clock, or when early data, Alt-Svc, racing or record discovery lack
/// what they rest on.
pub proof fn options_are_refused_for_these_reasons_alone(
    options: ClientOptions,
    transport: Transport,
    now: Instant,
)
    ensures
        options.fault(transport, now) is Some == {
            ||| too_long(options.request_timeouts.pool_admission, now)
            ||| too_long(options.request_timeouts.connect, now)
            ||| too_long(options.request_timeouts.response_head, now)
            ||| too_long(options.request_timeouts.read_idle, now)
            ||| too_long(options.request_timeouts.total, now)
            ||| too_long(
                match options.retry_policy.connection_failures {
                    Some(retries) => Some(retries.delay),
                    None => None,
                },
                now,
            )
            ||| too_long(options.retry_policy.retry_after_limit, now)
            ||| too_long(options.negotiated_setup_wait_limit, now)
            ||| too_long(
                match options.alt_svc_policy.race {
                    Some(race) => Some(race.origin_delay),
                    None => None,
                },
                now,
            )
            ||| options.http3_early_data == Some(true) && !(transport.http3
                && transport.http3_session_tickets)
            ||| options.max_alt_svc_origins is Some && !(transport.negotiated && transport.http3)
            ||| options.alt_svc_policy.race is Some && options.max_alt_svc_origins is None
            ||| options.https_record_discovery && options.max_alt_svc_origins is None
        },
{
}

/// A client has the policies and bounds of its options, pools and stores that
/// are empty, and a bound on HTTP/1.1 of the profile's where it has none of
/// its own.
pub proof fn a_client_has_what_its_options_say(
    client: Client,
    options: ClientOptions,
    transport: Transport,
)
    requires
        client.built_from(options, transport),
    ensures
        ({
            let http1 = match options.max_concurrent_http1_requests_per_origin {
                Some(bound) => bound,
                None => transport.http1_connections_per_origin,
            };
            let pool = client.http1_or_2.limits;
            &&& client.redirect_policy == options.redirect_policy
            &&& client.retry_policy == options.retry_policy
            &&& client.request_timeouts == options.request_timeouts
            &&& client.alt_svc_policy == options.alt_svc_policy
            &&& client.cookies == options.cookie_jar
            &&& client.http1.max_active == http1
            &&& client.http1.max_pending == options.max_pending_http1_requests_per_origin
            &&& client.http1.entries.bound() == options.max_retained_http1_connections
            &&& client.http2.max_active == options.max_concurrent_http2_requests_per_origin
            &&& client.http2.max_pending == options.max_pending_http2_requests_per_origin
            &&& client.http2.entries.bound() == options.max_retained_http2_connections
            &&& client.http2.max_connections == options.max_http2_connections_per_origin
            &&& client.http3.max_active == options.max_concurrent_http3_requests_per_origin
            &&& client.http3.max_pending == options.max_pending_http3_requests_per_origin
            &&& client.http3.entries.bound() == options.max_retained_http3_connections
            &&& pool.max_http1_active == http1
            &&& pool.max_http1_pending == options.max_pending_http1_requests_per_origin
            &&& pool.max_http2_active == options.max_concurrent_http2_requests_per_origin
            &&& pool.max_http2_pending == options.max_pending_http2_requests_per_origin
            &&& pool.max_http2_connections == options.max_http2_connections_per_origin
            &&& pool.setup_wait_limit == options.negotiated_setup_wait_limit
            &&& pool.capacity == options.max_retained_http1_connections || pool.capacity
                == options.max_retained_http2_connections
            &&& client.http1.entries@.len() == 0 && client.http2.entries@.len() == 0
            &&& client.http3.entries@.len() == 0 && client.http1_or_2.entries@.len() == 0
            &&& client.alt_svc is Some == options.max_alt_svc_origins is Some
            &&& client.alt_svc matches Some(store) ==> store@.entries.len() == 0
                && store@.broken.len() == 0 && Some(store@.capacity as usize)
                == options.max_alt_svc_origins
            &&& client.client_hints is Some == transport.client_hints
            &&& client.client_hints matches Some(store) ==> store@.len() == 0 && store.bound()
                == options.max_client_hint_origins
            &&& client.transport.http3 == transport.http3
            &&& client.transport.negotiated == transport.negotiated
            &&& options.http3_early_data is None ==> client.transport == transport
        }),
{
}

/// The alternatives of a response are learned on the routes that have a UDP
/// path and on no other; its frames come before its fields, so its fields
/// have the last word.
pub proof fn a_response_advertises_where_quic_can_go(
    store: StoreView,
    endpoint: &Endpoint,
    route: Route,
    frames: Seq<FrameView>,
    fields: Seq<HeaderView>,
    now: Instant,
)
    ensures
        route is HttpProxy || route is ConnectUdp ==> advertised_to(
            store,
            endpoint,
            route@,
            frames,
            Some(fields),
            now,
        ) == store,
        route is Direct || route is Socks5 ==> {
            let framed = store.learned_frames(
                endpoint.host@,
                encode_utf8(serialized_origin(origin_of(endpoint))),
                store_key(endpoint, route@),
                frames,
                now,
            );
            &&& advertised_to(store, endpoint, route@, frames, None, now) == framed
            &&& advertised_to(store, endpoint, route@, frames, Some(fields), now)
                == framed.learned(
                store_key(endpoint, route@),
                field_update(endpoint.host@, fields),
                now,
            )
        },
{
}

/// An origin's records are asked for unless its own location is in a broken
/// period, its host is an address or nothing can run the lookup; then they
/// say nothing and the cache stays as it is.
pub proof fn records_are_asked_for_when_they_can_help(
    cache: DiscoveryView,
    store: StoreView,
    endpoint: &Endpoint,
    has_runtime: bool,
    now: Instant,
)
    ensures
        ({
            let found = recorded(cache, store, endpoint, has_runtime, now);
            let key = store_key(endpoint, RouteView::Direct);
            let broken = store.is_broken(key, own_location(endpoint), now);
            &&& found.broken == broken
            &&& found.recently_broken == store.has_failed(key, own_location(endpoint))
            &&& broken || is_ip_literal(endpoint.host@) || !has_runtime ==> found.discovery
                == Discovery::NotAdvertised && found.cache == cache
            &&& !broken && !is_ip_literal(endpoint.host@) && has_runtime ==> found.discovery
                == cache.discovered(origin_of(endpoint), now) && found.cache
                == cache.after_discover(origin_of(endpoint), now)
        }),
{
}

/// An advertisement that failed is taken out while it is still held; the
/// location of a record that failed is broken for the racing policy's
/// backoff, or for five minutes, doubling up to two days, without one.
pub proof fn a_failed_alternative_is_given_up(
    client: Client,
    store: StoreView,
    key: StoreKeyView,
    alternative: AlternativeTarget,
    backoff: AltSvcBrokenBackoff,
    now: Instant,
)
    ensures
        alternative.source matches AlternativeSource::AltSvc { generation, .. } ==> given_up(
            store,
            key,
            alternative,
            backoff,
            now,
        ) == store.removed_if_current(key, generation),
        alternative.source is HttpsRecord ==> given_up(store, key, alternative, backoff, now)
            == store.marked_broken(
            BrokenKeyView { key, location: alternative.location@ },
            backoff,
            now,
        ),
        client.alt_svc_policy.race matches Some(race) ==> client.record_backoff()
            == race.broken_backoff,
        client.alt_svc_policy.race is None ==> client.record_backoff().initial.nanos == 300
            * 1_000_000_000 && client.record_backoff().maximum.nanos == 2 * 24 * 3600
            * 1_000_000_000,
{
}

/// Only a direct connection of a profile that takes ECH from records waits
/// for them, and only where the client looks them up.
pub proof fn ech_is_awaited_on_the_direct_route(client: Client, route: Route, offers_ech: bool)
    ensures
        client.ech_awaited(route@, offers_ech) == (route is Direct && offers_ech
            && client.https_records is Some),
{
}

} // verus!
