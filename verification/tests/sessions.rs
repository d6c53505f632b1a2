use std::sync::{Arc, Mutex};

use phantom::alt_svc::policy::{AltSvcBrokenBackoff, AltSvcPolicy, AltSvcRace};
use phantom::client_hints::types::{ClientHint, ClientHintDelivery, ClientHintSettings};
use phantom::cookies::jar::CookieJar;
use phantom::endpoint::{Endpoint, HttpProtocol, RequestHeader, Route};
use phantom::error::{BuildErrorKind, RequestError, RequestErrorKind};
use phantom::policy::{RedirectPolicy, RetryPolicy};
use phantom::session::builder::SessionBuilder;
use phantom::session::client::Client;
use phantom::session::options::{ClientOptions, DebugField, DebugValue, Transport};
use phantom::time::{Duration, Instant, SystemTime};
use phantom::timeout::RequestTimeouts;

type TestResult = Result<(), Box<dyn std::error::Error>>;

/// The longest duration that the standard library has.
const FOREVER: Duration = Duration {
    nanos: std::time::Duration::MAX.as_nanos(),
};

fn assert_send_sync<T: Send + Sync>() {}

fn assert_send_sync_clone<T: Send + Sync + Clone>() {}

fn now() -> Instant {
    Instant {
        nanos: 1_000_000_000,
    }
}

#[test]
fn client_handles_are_send_sync_and_clone() {
    assert_send_sync::<Client>();
    // A handle is a client that its clones share behind a lock.
    assert_send_sync_clone::<Arc<Mutex<Client>>>();
    fn assert_send<T: Send>() {}
    assert_send::<SessionBuilder>();
    assert_send_sync::<CookieJar>();
}

/// A transport with negotiated HTTP/1.1+HTTP/2 and HTTP/3.
fn transport(session_tickets: bool) -> Transport {
    Transport {
        negotiated: true,
        http3: true,
        http3_session_tickets: session_tickets,
        sends_early_data: true,
        http1_connections_per_origin: 6,
        client_hints: true,
        caches_addresses: false,
    }
}

fn client() -> Client {
    ClientOptions::default().into_client(transport(true))
}

fn build(builder: SessionBuilder) -> Result<Client, Box<dyn std::error::Error>> {
    builder
        .build(now())
        .map_err(|error| format!("{error:?}").into())
}

fn race() -> AltSvcPolicy {
    AltSvcPolicy::race(AltSvcRace::new(
        Duration::from_millis(300),
        AltSvcBrokenBackoff::chromium_153(),
    ))
}

fn printed(fields: &[DebugField], name: &str) -> Option<DebugValue> {
    fields
        .iter()
        .find(|field| field.name == name)
        .map(|field| field.value)
}

#[test]
fn session_builder_sets_every_client_option() -> TestResult {
    let client = client();
    let builder = client
        .session_builder()
        .redirect_policy(RedirectPolicy::limited(3))
        .retry_policy(RetryPolicy::connection_failures(
            2,
            Duration::from_millis(1),
        ))
        .request_timeouts(RequestTimeouts::new().total(Duration::from_secs(1)))
        .max_retained_http1_connections(2)
        .max_concurrent_http1_requests_per_origin(3)
        .max_pending_http1_requests_per_origin(4)
        .max_retained_http2_connections(5)
        .max_concurrent_http2_requests_per_origin(6)
        .max_pending_http2_requests_per_origin(7)
        .max_http2_connections_per_origin(8)
        .negotiated_setup_wait_limit(Duration::from_millis(300))
        .max_retained_http3_connections(9)
        .max_concurrent_http3_requests_per_origin(10)
        .max_pending_http3_requests_per_origin(11)
        .max_client_hint_origins(12)
        .alt_svc(13)
        .alt_svc_policy(race())
        .http3_early_data(false)
        .https_record_discovery()
        .cookies();
    let debug = builder.options.debug_fields();
    assert_eq!(
        printed(&debug, "http3_early_data"),
        Some(DebugValue::Chosen(Some(false)))
    );

    let defaults = ClientOptions::default();
    let ClientOptions {
        redirect_policy,
        retry_policy,
        request_timeouts,
        max_retained_http1_connections,
        max_concurrent_http1_requests_per_origin,
        max_pending_http1_requests_per_origin,
        max_retained_http2_connections,
        max_concurrent_http2_requests_per_origin,
        max_pending_http2_requests_per_origin,
        max_http2_connections_per_origin,
        negotiated_setup_wait_limit,
        max_retained_http3_connections,
        max_concurrent_http3_requests_per_origin,
        max_pending_http3_requests_per_origin,
        max_client_hint_origins,
        max_alt_svc_origins,
        alt_svc_policy,
        http3_early_data,
        https_record_discovery,
        cookie_jar,
    } = builder.options;
    assert_ne!(redirect_policy, defaults.redirect_policy);
    assert_ne!(retry_policy, defaults.retry_policy);
    assert_ne!(request_timeouts, defaults.request_timeouts);
    assert_ne!(
        max_retained_http1_connections,
        defaults.max_retained_http1_connections
    );
    assert_ne!(
        max_concurrent_http1_requests_per_origin,
        defaults.max_concurrent_http1_requests_per_origin
    );
    assert_ne!(
        max_pending_http1_requests_per_origin,
        defaults.max_pending_http1_requests_per_origin
    );
    assert_ne!(
        max_retained_http2_connections,
        defaults.max_retained_http2_connections
    );
    assert_ne!(
        max_concurrent_http2_requests_per_origin,
        defaults.max_concurrent_http2_requests_per_origin
    );
    assert_ne!(
        max_pending_http2_requests_per_origin,
        defaults.max_pending_http2_requests_per_origin
    );
    assert_ne!(
        max_http2_connections_per_origin,
        defaults.max_http2_connections_per_origin
    );
    assert_ne!(
        negotiated_setup_wait_limit,
        defaults.negotiated_setup_wait_limit
    );
    assert_ne!(
        max_retained_http3_connections,
        defaults.max_retained_http3_connections
    );
    assert_ne!(
        max_concurrent_http3_requests_per_origin,
        defaults.max_concurrent_http3_requests_per_origin
    );
    assert_ne!(
        max_pending_http3_requests_per_origin,
        defaults.max_pending_http3_requests_per_origin
    );
    assert_ne!(max_client_hint_origins, defaults.max_client_hint_origins);
    assert_ne!(max_alt_svc_origins, defaults.max_alt_svc_origins);
    assert_ne!(alt_svc_policy, defaults.alt_svc_policy);
    assert_ne!(http3_early_data, defaults.http3_early_data);
    assert!(https_record_discovery && !defaults.https_record_discovery);
    assert!(cookie_jar.is_some() && defaults.cookie_jar.is_none());
    Ok(())
}

#[test]
fn session_applies_its_options() -> TestResult {
    let client = client();
    let timeouts = RequestTimeouts::new().total(Duration::from_secs(5));
    let retry = RetryPolicy::connection_failures(2, Duration::from_millis(1));
    let session = build(
        client
            .session_builder()
            .request_timeouts(timeouts)
            .retry_policy(retry)
            .max_http2_connections_per_origin(3),
    )?;

    assert_eq!(session.request_timeouts(), timeouts);
    assert_eq!(session.retry_policy(), retry);
    assert_eq!(session.http2.max_connections(), 3);
    assert_eq!(client.request_timeouts(), RequestTimeouts::new());
    Ok(())
}

#[test]
fn session_early_data_choice_replaces_the_clients() -> TestResult {
    let sends_early_data = |client: &Client| client.transport.sends_early_data;
    let client = client();
    assert!(sends_early_data(&client));

    let without = build(client.session_builder().http3_early_data(false))?;
    assert!(!sends_early_data(&without));
    assert!(sends_early_data(&client));
    assert!(sends_early_data(&build(client.session_builder())?));

    let client = ClientOptions {
        http3_early_data: Some(false),
        ..ClientOptions::default()
    }
    .into_client(transport(true));
    assert!(!sends_early_data(&build(client.session_builder())?));
    let with = build(client.session_builder().http3_early_data(true))?;
    assert!(sends_early_data(&with));
    Ok(())
}

#[test]
fn session_build_rejects_what_client_build_rejects() -> TestResult {
    let client = ClientOptions::default().into_client(transport(false));
    let rejected = [
        (
            "an unrepresentable timeout",
            client
                .session_builder()
                .request_timeouts(RequestTimeouts::new().total(FOREVER)),
        ),
        (
            "an unrepresentable retry delay",
            client
                .session_builder()
                .retry_policy(RetryPolicy::connection_failures(1, FOREVER)),
        ),
        (
            "early data without session tickets",
            client.session_builder().http3_early_data(true),
        ),
        (
            "an Alt-Svc race without a store",
            client.session_builder().alt_svc_policy(race()),
        ),
        (
            "record discovery without a store",
            client.session_builder().https_record_discovery(),
        ),
        (
            "an unrepresentable wait limit",
            client.session_builder().negotiated_setup_wait_limit(FOREVER),
        ),
        (
            "an unrepresentable origin delay",
            client
                .session_builder()
                .alt_svc(1)
                .alt_svc_policy(AltSvcPolicy::race(AltSvcRace::new(
                    FOREVER,
                    AltSvcBrokenBackoff::chromium_153(),
                ))),
        ),
    ];
    for (case, builder) in rejected {
        let error = builder
            .build(now())
            .err()
            .ok_or_else(|| format!("a session with {case} was built"))?;
        assert_eq!(error.kind(), BuildErrorKind::InvalidPolicy, "{case}");
    }
    Ok(())
}

#[test]
fn alt_svc_needs_negotiated_protocols_and_http3() {
    for (negotiated, http3) in [(false, true), (true, false)] {
        let options = ClientOptions {
            max_alt_svc_origins: Some(1),
            ..ClientOptions::default()
        };
        let chosen = Transport {
            negotiated,
            http3,
            ..transport(true)
        };
        let error = options.validate(chosen, now()).err();
        assert_eq!(
            error.map(|error| error.message),
            Some("Alt-Svc requires negotiated HTTP/1.1+HTTP/2 and HTTP/3 profiles")
        );
    }
}

#[test]
fn a_session_starts_with_empty_state() -> TestResult {
    let mut parent = build(client().session_builder().alt_svc(2).cookies())?;
    let origin = Endpoint::new("origin.test", "origin.test", 443);
    let headers = Some(vec![RequestHeader::new("alt-svc", b"h3=\":443\"")]);
    parent.learn_alt_svc(&origin, &Route::Direct, &Vec::new(), &headers, now());
    assert!(parent
        .alt_svc_location(&origin, &Route::Direct, now())
        .is_some());

    let mut session = build(parent.session_builder().alt_svc(2))?;
    assert!(session
        .alt_svc_location(&origin, &Route::Direct, now())
        .is_none());
    assert!(session.alt_svc_enabled());
    assert!(session.cookie_jar().is_none() && parent.cookie_jar().is_some());

    let wall = SystemTime::from_unix_secs(1_700_000_000);
    let Some(snapshot) = parent.export_alt_svc(now(), wall) else {
        return Err("the parent has a store".into());
    };
    assert!(session.import_alt_svc(&snapshot, now(), wall).is_ok());
    assert!(session
        .alt_svc_location(&origin, &Route::Direct, now())
        .is_some());
    session.clear_alt_svc();
    assert!(session
        .alt_svc_location(&origin, &Route::Direct, now())
        .is_none());
    assert!(client().export_alt_svc(now(), wall).is_none());
    Ok(())
}

#[test]
fn a_client_learns_hints_when_its_profile_has_them() {
    let settings = ClientHintSettings::new(vec![ClientHint::new(
        "sec-ch-ua-arch",
        b"arm",
        ClientHintDelivery::AcceptCh,
    )]);
    let response = vec![
        RequestHeader::new("accept-ch", b"Sec-CH-UA-Arch"),
        RequestHeader::new("critical-ch", b"Sec-CH-UA-Arch"),
    ];
    let origin = Endpoint::new("origin.test", "origin.test", 443);
    let mut with = client();
    assert!(with.learn_client_hints_and_should_retry(&origin, &settings, &response, &Vec::new()));
    let context = with.client_hint_context(&origin, "https://origin.test", &settings);
    let names = |fields: Vec<RequestHeader>| {
        fields
            .into_iter()
            .map(|field| field.name)
            .collect::<Vec<_>>()
    };
    assert_eq!(
        context
            .prepare(&mut with.client_hints, Vec::new(), None)
            .map(names),
        Ok(vec!["sec-ch-ua-arch".to_owned()])
    );
    with.clear_client_hints();
    assert_eq!(
        context
            .prepare(&mut with.client_hints, Vec::new(), None)
            .map(names),
        Ok(Vec::new())
    );
    let mut without = ClientOptions::default().into_client(Transport {
        client_hints: false,
        ..transport(true)
    });
    assert!(!without.learn_client_hints_and_should_retry(
        &origin,
        &settings,
        &response,
        &Vec::new()
    ));
}

#[test]
fn an_event_source_needs_a_protocol_and_a_target() {
    let client = client();
    let start = |available, resolved| {
        client.event_source(
            HttpProtocol::Http3,
            "https://origin.test/",
            available,
            resolved,
        )
    };
    let kind = |result: Result<phantom::sse::request::SseRequestBuilder, RequestError>| {
        result.err().map(|error| error.kind())
    };
    assert_eq!(kind(start(true, Ok(()))), None);
    assert_eq!(
        kind(start(false, Ok(()))),
        Some(RequestErrorKind::ProtocolUnavailable)
    );
    let invalid = RequestError::new(RequestErrorKind::InvalidUri, None);
    assert_eq!(
        kind(start(true, Err(invalid))),
        Some(RequestErrorKind::InvalidUri)
    );
}

#[test]
fn only_a_transport_with_a_cache_has_one_to_clear() {
    assert!(!client().clear_dns_cache());
    let caching = ClientOptions::default().into_client(Transport {
        caches_addresses: true,
        ..transport(true)
    });
    assert!(caching.clear_dns_cache());
}

#[test]
fn only_the_presence_of_cookies_is_printed() -> TestResult {
    let client = build(client().session_builder().cookies())?;
    let fields = client.debug_fields();
    assert!(fields
        .iter()
        .any(|field| field.value == DebugValue::Flag(true)));
    assert_eq!(
        printed(&fields, "request_timeouts"),
        Some(DebugValue::Timeouts(RequestTimeouts::new()))
    );
    Ok(())
}

#[test]
fn optional_behavior_is_off_by_default() {
    let options = ClientOptions::default();
    assert_eq!(options.redirect_policy, RedirectPolicy::none());
    assert_eq!(options.retry_policy, RetryPolicy::none());
    assert_eq!(options.request_timeouts, RequestTimeouts::new());
    assert_eq!(options.max_alt_svc_origins, None);
    assert_eq!(options.alt_svc_policy, AltSvcPolicy::sequential());
    assert_eq!(options.http3_early_data, None);
    assert_eq!(options.negotiated_setup_wait_limit, None);
    assert!(!options.https_record_discovery && options.cookie_jar.is_none());
    assert_eq!(options.max_http2_connections_per_origin, 1);
}
