use phantom::endpoint::{HttpProtocol, RequestHeader, Route};
use phantom::error::{RequestError, RequestErrorKind};
use phantom::host::{Host, UriParts};
use phantom::time::{Duration, Instant};
use phantom::timeout::TimeoutPhase;
use phantom::websocket::{
    opening_field_value, Http1UpgradeConnector, Opening, OpeningField, PooledSession,
    RecipeFields, ResolvedWebSocket, WebSocketConnectionPolicy, WebSocketError,
    WebSocketErrorKind, WebSocketHeader, WebSocketNewConnection, WebSocketRefusedStreamRetry,
    WebSocketRequestBuilder, WebSocketRetryPolicy, WebSocketSettings, WebSocketSupport,
    WebSocketTransport,
};

type TestResult = Result<(), Box<dyn std::error::Error>>;

fn text(error: WebSocketError) -> Box<dyn std::error::Error> {
    format!("{error:?}").into()
}

fn kind<T>(result: Result<T, WebSocketError>) -> Option<WebSocketErrorKind> {
    result.err().map(|error| error.kind())
}

fn now() -> Instant {
    Instant { nanos: 1_000 }
}

#[test]
fn only_a_secure_or_local_websocket_url_is_trustworthy() -> TestResult {
    for (uri, trustworthy) in [
        ("wss://origin.example/", true),
        ("ws://127.0.0.1:8080/", true),
        ("ws://127.9.0.1/", true),
        ("ws://[::1]:8080/", true),
        ("ws://localhost/", true),
        ("ws://app.localhost./", true),
        ("ws://origin.example/", false),
        ("ws://10.0.0.1/", false),
        ("ws://[::ffff:127.0.0.1]/", false),
    ] {
        assert_eq!(
            ResolvedWebSocket::new(uri).map_err(text)?.trustworthy,
            trustworthy,
            "{uri}"
        );
    }
    Ok(())
}

#[test]
fn resolves_plaintext_websocket_with_default_port() -> TestResult {
    let request = ResolvedWebSocket::new("ws://example.com/events").map_err(text)?;

    assert_eq!(request.transport, WebSocketTransport::Plaintext);
    assert_eq!(request.endpoint.port, 80);
    assert_eq!(request.endpoint.authority, "example.com");
    assert_eq!(request.cookie_url.scheme, "http");
    Ok(())
}

#[test]
fn canonicalizes_websocket_host_without_reserializing_the_target() -> TestResult {
    let request = ResolvedWebSocket::new("wss://BÜCHER.Example:443/a/%2e%2e/final?value=%2f")
        .map_err(text)?;

    assert_eq!(request.endpoint.host, "xn--bcher-kva.example");
    assert_eq!(request.endpoint.authority, "xn--bcher-kva.example:443");
    assert_eq!(request.target, "/a/%2e%2e/final?value=%2f");
    Ok(())
}

#[test]
fn only_websocket_uris_without_a_fragment_resolve() {
    for (uri, expected) in [
        ("wss://origin.test/#part", WebSocketErrorKind::InvalidRequest),
        ("origin.test", WebSocketErrorKind::InvalidUri),
        ("wss://", WebSocketErrorKind::InvalidUri),
    ] {
        assert_eq!(kind(ResolvedWebSocket::new(uri)), Some(expected), "{uri}");
    }
    assert!(ResolvedWebSocket::new("https://origin.test/").is_err());
}

#[test]
fn a_uri_that_cannot_be_sent_as_written_is_refused() {
    for uri in [
        "ws://h/a\r\nX: y",
        "ws://h/a b",
        "ws://h/a\tb",
        "ws://h/?a\nb",
        "ws:///h/",
    ] {
        assert_eq!(
            kind(ResolvedWebSocket::new(uri)),
            Some(WebSocketErrorKind::InvalidUri),
            "{uri:?}"
        );
    }
    for uri in [
        "ws://exa\nmple.com/",
        "ws://h\\a/",
        "ws://u:p@example.com/",
        "ws://user@example.com/",
        "ws://user@example.com:81/",
        "ws://::1/",
    ] {
        assert_eq!(
            kind(ResolvedWebSocket::new(uri)),
            Some(WebSocketErrorKind::InvalidAuthority),
            "{uri:?}"
        );
    }
    assert!(ResolvedWebSocket::new("ws://h:8\n0/").is_err());
    assert_eq!(
        kind(ResolvedWebSocket::new("ws://h?a")),
        Some(WebSocketErrorKind::InvalidRequest)
    );
    assert_eq!(
        kind(ResolvedWebSocket::new("http://h/")),
        Some(WebSocketErrorKind::UnsupportedScheme)
    );
}

#[test]
fn a_uri_without_a_path_asks_for_the_root() -> TestResult {
    let request = ResolvedWebSocket::new("wss://[::1]:9443").map_err(text)?;
    assert_eq!(request.target, "/");
    assert_eq!(request.endpoint.authority, "[::1]:9443");
    assert_eq!(request.endpoint.host, "::1");
    assert_eq!(request.endpoint.port, 9443);
    Ok(())
}

#[test]
fn a_websocket_is_placed_by_the_parts_of_its_uri() -> TestResult {
    let parts = |scheme: &str, authority: Option<&str>, target: Option<&str>| UriParts {
        scheme: Some(scheme.to_owned()),
        authority: authority.map(str::to_owned),
        target: target.map(str::to_owned),
    };
    let host = Host::Domain("a.test".to_owned());
    let request = ResolvedWebSocket::place(parts("ws", Some("a.test:81"), Some("/x")), &host)
        .map_err(text)?;
    assert_eq!(request.endpoint.port, 81);
    assert_eq!(request.target, "/x");
    assert!(!request.trustworthy);
    assert_eq!(
        kind(ResolvedWebSocket::place(parts("ws", None, None), &host)),
        Some(WebSocketErrorKind::InvalidAuthority)
    );
    assert_eq!(
        kind(ResolvedWebSocket::place(
            parts("ftp", Some("a.test"), None),
            &host
        )),
        Some(WebSocketErrorKind::UnsupportedScheme)
    );
    assert_eq!(
        kind(ResolvedWebSocket::place(
            parts("ws", Some("a.test"), Some("*")),
            &host
        )),
        Some(WebSocketErrorKind::InvalidRequest)
    );
    Ok(())
}

fn field(name: &str, value: &str) -> OpeningField {
    OpeningField {
        header: RequestHeader::new(name, value.as_bytes()),
        sensitive: false,
    }
}

fn recipe(marker: &str) -> RecipeFields {
    RecipeFields {
        trustworthy: vec![
            WebSocketHeader::Authority,
            WebSocketHeader::CallerField("Origin".to_owned()),
            WebSocketHeader::DefaultField(field("X-Recipe", marker)),
        ],
        other: vec![WebSocketHeader::Authority, WebSocketHeader::Key],
    }
}

fn support(settings: bool) -> WebSocketSupport {
    WebSocketSupport {
        http1: true,
        http2: true,
        settings: settings.then_some(WebSocketSettings {
            http1_fields: recipe("one"),
            http2_fields: recipe("two"),
            handshake_timeout: Some(Duration::from_secs(5)),
            connection: WebSocketConnectionPolicy {
                without_http2_session: WebSocketNewConnection::Http1Upgrade,
                with_incapable_http2_session: WebSocketNewConnection::Http2ExtendedConnect,
                refused_stream_retry: WebSocketRefusedStreamRetry::Once,
            },
        }),
        default_headers: vec![WebSocketHeader::Key],
        default_http2_headers: vec![],
    }
}

#[test]
fn a_builder_starts_from_the_profile() -> TestResult {
    let without = support(false);
    let builder = WebSocketRequestBuilder::new(&without, HttpProtocol::Http1, "ws://a.test/")
        .map_err(text)?;
    assert!(matches!(
        builder.headers.as_slice(),
        [WebSocketHeader::Key]
    ));
    assert_eq!(builder.handshake_timeout, None);
    assert_eq!(
        builder.first_step(None).ok(),
        Some(Opening::Http1(Http1UpgradeConnector::Profile))
    );
    let builder = WebSocketRequestBuilder::new(&without, HttpProtocol::Http2, "wss://a.test/")
        .map_err(text)?;
    assert_eq!(builder.first_step(None).ok(), Some(Opening::Http2));

    assert_eq!(
        kind(WebSocketRequestBuilder::new(
            &without,
            HttpProtocol::Http3,
            "wss://a.test/"
        )),
        Some(WebSocketErrorKind::ProtocolUnavailable)
    );
    assert_eq!(
        kind(WebSocketRequestBuilder::with_profile_policy(
            &without,
            "wss://a.test/"
        )),
        Some(WebSocketErrorKind::ProtocolUnavailable)
    );

    let with = support(true);
    let secure = WebSocketRequestBuilder::with_profile_policy(&with, "wss://a.test/")
        .map_err(text)?;
    assert_eq!(secure.headers.len(), 3);
    let insecure = WebSocketRequestBuilder::with_profile_policy(&with, "ws://a.test/")
        .map_err(text)?;
    assert_eq!(insecure.headers.len(), 2);
    assert_eq!(insecure.handshake_timeout, Some(Duration::from_secs(5)));
    Ok(())
}

#[test]
fn a_field_fills_its_place_in_both_sequences() -> TestResult {
    let builder = WebSocketRequestBuilder::with_profile_policy(&support(true), "wss://a.test/")
        .map_err(text)?
        .header(field("ORIGIN", "https://a.test"))
        .header(field("X-More", "1"));
    for (headers, more) in [
        (&builder.headers, "X-More"),
        (&builder.http2_headers, "x-more"),
    ] {
        assert_eq!(headers.len(), 4);
        let origin = opening_field_value(headers, "origin").ok_or("no origin")?;
        assert_eq!(origin.header.name, "Origin");
        assert_eq!(origin.header.value, b"https://a.test");
        let last = opening_field_value(headers, "x-MORE").ok_or("no field")?;
        assert_eq!(last.header.name, more);
        assert!(opening_field_value(headers, "x-none").is_none());
    }
    Ok(())
}

#[test]
fn the_policy_chooses_the_connection() -> TestResult {
    let with = support(true);
    let secure = || WebSocketRequestBuilder::with_profile_policy(&with, "wss://a.test/");
    let builder = secure().map_err(text)?;
    assert_eq!(builder.first_step(None).ok(), Some(Opening::Admit));
    let upgrade = Opening::Http1(Http1UpgradeConnector::PolicyAlpn);
    assert_eq!(builder.after_admission(PooledSession::Missing), upgrade);
    assert_eq!(builder.after_admission(PooledSession::Failed), upgrade);
    assert_eq!(
        builder.after_admission(PooledSession::Incapable),
        Opening::Http2
    );
    let session = builder.after_admission(PooledSession::Capable);
    assert_eq!(
        session,
        Opening::Http2Session(WebSocketRefusedStreamRetry::Once)
    );
    let value = |step| {
        opening_field_value(builder.opening_headers(step), "x-recipe")
            .map(|field| field.header.value)
    };
    assert_eq!(value(session), Some(b"two".to_vec()));
    assert_eq!(value(upgrade), Some(b"one".to_vec()));

    let plaintext = WebSocketRequestBuilder::with_profile_policy(&with, "ws://a.test/")
        .map_err(text)?;
    assert_eq!(plaintext.first_step(None).ok(), Some(upgrade));

    let replaced = secure().map_err(text)?.headers(vec![WebSocketHeader::Key]);
    assert_eq!(
        kind(replaced.first_step(None)),
        Some(WebSocketErrorKind::InvalidRequest)
    );
    let template = WebSocketError::invalid_request("bad template");
    assert_eq!(
        kind(builder.first_step(Some(template))),
        Some(WebSocketErrorKind::InvalidRequest)
    );
    Ok(())
}

#[test]
fn a_handshake_timeout_is_positive_and_representable() -> TestResult {
    let with = support(true);
    let builder = |timeout| {
        WebSocketRequestBuilder::new(&with, HttpProtocol::Http1, "wss://a.test/")
            .map(|builder| builder.handshake_timeout(timeout))
            .map_err(text)
    };
    assert!(builder(None)?.check_handshake_timeout(now()).is_ok());
    let second = builder(Some(Duration::from_secs(1)))?;
    assert!(second.check_handshake_timeout(now()).is_ok());
    assert_eq!(
        kind(builder(Some(Duration { nanos: 0 }))?.check_handshake_timeout(now())),
        Some(WebSocketErrorKind::InvalidRequest)
    );
    let forever = builder(Some(Duration { nanos: u128::MAX }))?;
    let Err(error) = forever.check_handshake_timeout(now()) else {
        return Err("the clock cannot reach the deadline".into());
    };
    assert_eq!(error.kind(), WebSocketErrorKind::InvalidRequest);
    assert_eq!(
        error.source.map(|source| source.kind()),
        Some(RequestErrorKind::InvalidTimeout)
    );
    let late = second.timed_out();
    assert_eq!(late.kind(), WebSocketErrorKind::Timeout);
    assert_eq!(late.timeout_phase(), Some(TimeoutPhase::WebSocketHandshake));
    Ok(())
}

#[test]
fn a_connect_has_its_own_route_and_retries() -> TestResult {
    let policy = WebSocketRetryPolicy {
        max_connection_failures: Some(2),
    };
    let builder = WebSocketRequestBuilder::new(&support(true), HttpProtocol::Http1, "ws://a.test/")
        .map_err(text)?
        .route(Route::Direct)
        .retry_policy(policy);
    assert_eq!(builder.route, Some(Route::Direct));
    assert_eq!(builder.retry_policy, policy);
    assert_eq!(WebSocketRetryPolicy::none().max_connection_failures, None);
    Ok(())
}

#[test]
fn opening_fields_are_not_shown() -> TestResult {
    let builder = WebSocketRequestBuilder::new(&support(true), HttpProtocol::Http1, "ws://a.test/")
        .map_err(text)?
        .route(Route::Direct)
        .handshake_timeout(Some(Duration::from_secs(7)));
    let shown = builder.redacted();
    assert_eq!(shown.header_count, builder.headers.len());
    assert_eq!(shown.selection, builder.selection);
    assert!(shown.route_override);
    assert_eq!(shown.handshake_timeout, Some(Duration::from_secs(7)));
    assert_eq!(shown.retry_policy, builder.retry_policy);
    assert!(!format!("{shown:?}").contains("a.test"));
    Ok(())
}

#[test]
fn a_missing_timer_is_no_timeout() {
    let source = RequestError::new(RequestErrorKind::RuntimeUnavailable, None);
    let error = WebSocketError::runtime_unavailable(source);
    assert_eq!(error.kind(), WebSocketErrorKind::RuntimeUnavailable);
    assert_eq!(error.timeout_phase(), None);
    assert_eq!(
        error.source.map(|source| source.kind()),
        Some(RequestErrorKind::RuntimeUnavailable)
    );
}
