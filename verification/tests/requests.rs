use phantom::client_hints::context::ClientHintContext;
use phantom::client_hints::types::{ClientHint, ClientHintDelivery, ClientHintSettings};
use phantom::endpoint::{
    ConnectUdpProxy, ConnectUdpTcpProtocol, Credentials, Endpoint, HttpProtocol, HttpProxy,
    RequestHeader, Route, Socks5DnsMode, Socks5Proxy,
};
use phantom::error::{RequestError, RequestErrorKind};
use phantom::pool::fields::{
    http1_sent_headers, http1_wire_headers, negotiated_fields, prepare_headers,
};
use phantom::pool::http1_or_2_pool::{AcquireEvent, AcquireStep, Acquisition, SetupPoll};
use phantom::pool::http1_pool::{
    has_close_token, request_checks, ChallengeDrain, ChallengeRead, ChallengedConnection,
    HeldConnection, RequestCheck, Sent,
};
use phantom::pool::http1_request::{Http1End, Http1Event, Http1Phase, Http1Request};
use phantom::pool::http2_failure::{repeatable, Http2Failure, Http2FailureKind};
use phantom::pool::http2_request::{Http2Event, Http2Phase, Http2Request};
use phantom::pool::http3_pool::{
    check_route, plan_http3, ConnectUdpConnectors, Http3Plan,
};
use phantom::pool::http3_request::{Http3Event, Http3Phase, Http3Request, Http3Setup, SetupEvent};
use phantom::pool::key::{Http1ConnectionMode, Http2ConnectionMode};
use phantom::pool::negotiated::{Acquired, BeforeAdmission};
use phantom::pool::negotiated_request::{
    Lease, NegotiatedEnd, NegotiatedEvent, NegotiatedPhase, NegotiatedRequest,
};
use phantom::pool::plan::{plan_http1, plan_http2, plan_negotiated, ConnectPlan};
use phantom::pool::session_search::{SearchEvent, SessionQuery, SessionSearch};
use phantom::time::{Duration, Instant};
use phantom::timeout::{RequestTimeouts, TimeoutBudget, TimeoutPhase};

const HELD: HeldConnection = HeldConnection {
    entry: 3,
    connection: 8,
};

fn error(kind: RequestErrorKind) -> RequestError {
    RequestError::new(kind, None)
}

fn unsupported(protocol: HttpProtocol) -> RequestError {
    RequestError::new(RequestErrorKind::UnsupportedRoute, Some(protocol))
}

fn at(millis: u64) -> Instant {
    Instant {
        nanos: 1_000_000_000 + Duration::from_millis(millis).nanos,
    }
}

fn budget(timeouts: RequestTimeouts) -> TimeoutBudget {
    match TimeoutBudget::new(timeouts, at(0)) {
        Ok(budget) => budget,
        Err(error) => panic!("{error:?}"),
    }
}

fn header(name: &str, value: &str) -> RequestHeader {
    RequestHeader::new(name, value.as_bytes())
}

fn socks5(dns_mode: Socks5DnsMode) -> Route {
    Route::Socks5(Socks5Proxy {
        host: "proxy.test".to_owned(),
        port: 1080,
        dns_mode,
        credentials: None,
    })
}

fn proxy(tls: bool, http2: bool, credentials: bool) -> Route {
    Route::HttpProxy(HttpProxy {
        host: "proxy.test".to_owned(),
        port: 3128,
        tls,
        http2,
        credentials: credentials.then_some(Credentials {
            username: "user".to_owned(),
            password: "pass".to_owned(),
        }),
        connect_headers: Vec::new(),
    })
}

fn connect_udp(tcp_protocol: Option<ConnectUdpTcpProtocol>) -> Route {
    Route::ConnectUdp(ConnectUdpProxy {
        host: "proxy.test".to_owned(),
        port: 443,
        authority: "proxy.test".to_owned(),
        template: "/{target_host}/{target_port}/".to_owned(),
        headers: Vec::new(),
        credentials: None,
        tcp_protocol,
    })
}

fn http1(route: Route, mode: Http1ConnectionMode, slot: Option<ChallengedConnection>) -> Http1Request {
    Http1Request::new(mode, route, true, false, slot)
}

/// A request over the connection in [`HELD`].
fn sending(route: Route, mode: Http1ConnectionMode, slot: Option<ChallengedConnection>) -> Http1Request {
    let mut request = http1(route, mode, slot);
    request.advance(Http1Event::Checked(Ok(())));
    request.advance(Http1Event::Admission(Ok(())));
    request.advance(Http1Event::Acquired(Ok(HELD)));
    assert_eq!(request.phase, Http1Phase::Sending(HELD));
    request
}

#[test]
fn a_request_is_checked_admitted_and_sent() {
    let mut request = http1(Route::Direct, Http1ConnectionMode::TlsOrigin, None);
    assert_eq!(request.phase, Http1Phase::Checking);
    request.advance(Http1Event::Checked(Ok(())));
    assert_eq!(request.phase, Http1Phase::Admission { given_back: None });
    request.advance(Http1Event::Admission(Ok(())));
    assert_eq!(request.phase, Http1Phase::Acquiring);
    request.advance(Http1Event::Acquired(Ok(HELD)));
    request.advance(Http1Event::Sent(Sent::Response(200)));
    assert_eq!(
        request.phase,
        Http1Phase::Ended(Http1End::Delivered {
            held: HELD,
            retire: false
        })
    );
}

#[test]
fn a_request_ends_where_it_is_refused() {
    let failure = error(RequestErrorKind::Capacity);
    let refused = Http1Phase::Ended(Http1End::Refused(failure));
    let mut request = http1(Route::Direct, Http1ConnectionMode::TlsOrigin, None);
    request.advance(Http1Event::Checked(Err(failure)));
    assert_eq!(request.phase, refused);

    let mut request = http1(Route::Direct, Http1ConnectionMode::TlsOrigin, None);
    request.advance(Http1Event::Checked(Ok(())));
    request.advance(Http1Event::Admission(Err(failure)));
    assert_eq!(request.phase, refused);

    let mut request = http1(Route::Direct, Http1ConnectionMode::TlsOrigin, None);
    request.advance(Http1Event::Checked(Ok(())));
    request.advance(Http1Event::Admission(Ok(())));
    request.advance(Http1Event::Acquired(Err(failure)));
    assert_eq!(request.phase, Http1Phase::Ended(Http1End::Failed(failure)));

    let mut request = Http1Request::new(
        Http1ConnectionMode::Forward,
        proxy(true, false, false),
        false,
        false,
        None,
    );
    request.advance(Http1Event::Checked(Ok(())));
    assert_eq!(
        request.phase,
        Http1Phase::Ended(Http1End::Refused(unsupported(HttpProtocol::Http1)))
    );
}

#[test]
fn a_timed_out_request_retires_its_connection() {
    for (sent, retire) in [
        (Sent::Failed(error(RequestErrorKind::Http1)), false),
        (Sent::TimedOut(error(RequestErrorKind::Http1)), true),
    ] {
        let mut request = sending(Route::Direct, Http1ConnectionMode::TlsOrigin, None);
        request.advance(Http1Event::Sent(sent));
        assert_eq!(
            request.phase,
            Http1Phase::Ended(Http1End::Broken {
                error: error(RequestErrorKind::Http1),
                held: HELD,
                retire
            })
        );
    }
}

#[test]
fn a_challenge_is_answered_on_its_own_connection() {
    let slot = Some(ChallengedConnection::new());
    let route = || proxy(false, false, true);
    let mut request = sending(route(), Http1ConnectionMode::Forward, slot);
    request.advance(Http1Event::Sent(Sent::Response(407)));
    assert_eq!(request.phase, Http1Phase::Draining(HELD));
    request.advance(Http1Event::Drained(Ok(true), vec![header("server", "close")]));
    assert_eq!(request.phase, Http1Phase::CheckingIdle(HELD));
    request.advance(Http1Event::IdleChecked(true));
    assert_eq!(request.phase, Http1Phase::Ended(Http1End::Kept(HELD)));

    let Some(mut slot) = request.challenged else {
        panic!("the slot is the caller's");
    };
    assert!(slot.is_held());
    slot.begin_replay();
    let mut replay = http1(route(), Http1ConnectionMode::Forward, Some(slot));
    replay.advance(Http1Event::Checked(Ok(())));
    assert_eq!(replay.phase, Http1Phase::Sending(HELD));
    replay.advance(Http1Event::Sent(Sent::Response(407)));
    assert_eq!(
        replay.phase,
        Http1Phase::Ended(Http1End::Delivered {
            held: HELD,
            retire: true
        })
    );

    let mut fresh = Http1Request::new(
        Http1ConnectionMode::Forward,
        route(),
        true,
        true,
        Some(slot),
    );
    fresh.advance(Http1Event::Checked(Ok(())));
    assert_eq!(
        fresh.phase,
        Http1Phase::Admission {
            given_back: Some(HELD)
        }
    );
}

#[test]
fn a_challenge_that_cannot_be_answered_is_delivered() {
    let retired = Http1Phase::Ended(Http1End::Delivered {
        held: HELD,
        retire: true,
    });
    let mut without_slot = sending(proxy(false, false, true), Http1ConnectionMode::Forward, None);
    without_slot.advance(Http1Event::Sent(Sent::Response(407)));
    assert_eq!(without_slot.phase, retired);

    let mut without_credentials = sending(
        proxy(false, false, false),
        Http1ConnectionMode::Forward,
        Some(ChallengedConnection::new()),
    );
    without_credentials.advance(Http1Event::Sent(Sent::Response(407)));
    assert_eq!(
        without_credentials.phase,
        Http1Phase::Ended(Http1End::Delivered {
            held: HELD,
            retire: false
        })
    );

    let challenged = || {
        let mut request = sending(
            proxy(false, false, true),
            Http1ConnectionMode::Forward,
            Some(ChallengedConnection::new()),
        );
        request.advance(Http1Event::Sent(Sent::Response(407)));
        request
    };
    let mut closing = challenged();
    closing.advance(Http1Event::Drained(
        Ok(true),
        vec![header("proxy-connection", "keep-alive, Close")],
    ));
    assert_eq!(closing.phase, retired);
    let mut unfinished = challenged();
    unfinished.advance(Http1Event::Drained(Ok(false), Vec::new()));
    assert_eq!(unfinished.phase, retired);
    let mut busy = challenged();
    busy.advance(Http1Event::Drained(Ok(true), Vec::new()));
    busy.advance(Http1Event::IdleChecked(false));
    assert_eq!(busy.phase, retired);
}

#[test]
fn a_challenge_body_is_read_within_its_bound() {
    let mut drain = ChallengeDrain::new(10);
    assert_eq!(drain.read(ChallengeRead::Data(6)), None);
    assert_eq!(drain.read(ChallengeRead::Other), None);
    assert_eq!(drain.read(ChallengeRead::Data(4)), None);
    assert_eq!(drain.read(ChallengeRead::End), Some(Ok(true)));
    assert_eq!(drain.read(ChallengeRead::Data(1)), Some(Ok(false)));
    assert_eq!(drain.read(ChallengeRead::Data(usize::MAX)), Some(Ok(false)));
    assert_eq!(drain.received, usize::MAX);
    assert_eq!(drain.read(ChallengeRead::Failed), Some(Ok(false)));
    let Some(Err(late)) = drain.read(ChallengeRead::Idle) else {
        panic!("an idle body fails the request");
    };
    assert_eq!(late.timeout_phase(), Some(TimeoutPhase::ReadIdle));
}

#[test]
fn a_close_token_closes_in_either_field() {
    for (name, value, closes) in [
        ("connection", "close", true),
        ("proxy-connection", "Keep-Alive , CLOSE", true),
        ("connection", "closed", false),
        ("connection", "keep-alive", false),
        ("keep-alive", "close", false),
    ] {
        assert_eq!(has_close_token(&vec![header(name, value)]), closes, "{value}");
    }
    assert!(!has_close_token(&vec![RequestHeader::new(
        "connection",
        b"close, \xff"
    )]));
}

#[test]
fn an_anonymous_forwarded_request_is_checked_twice() {
    assert_eq!(
        request_checks(Http1ConnectionMode::TlsOrigin, &proxy(false, false, true), false),
        [RequestCheck::Origin]
    );
    assert_eq!(
        request_checks(Http1ConnectionMode::Forward, &proxy(false, false, true), false),
        [RequestCheck::Forward, RequestCheck::ForwardWithCredentials]
    );
    assert_eq!(
        request_checks(Http1ConnectionMode::Forward, &proxy(false, false, true), true),
        [RequestCheck::Forward]
    );
    assert_eq!(
        request_checks(Http1ConnectionMode::Forward, &proxy(false, false, false), false),
        [RequestCheck::Forward]
    );
}

fn goodbye(kind: Http2FailureKind, reason_code: Option<u32>) -> Http2Failure {
    Http2Failure {
        kind,
        reason_code,
        unprocessed: true,
        error: error(RequestErrorKind::Http2),
    }
}

fn http2_sending(repeatable: bool, replays_unprocessed: bool) -> Http2Request {
    let mut request = Http2Request::new(repeatable, replays_unprocessed);
    request.start(Ok(()), Http2ConnectionMode::TlsOrigin, &Route::Direct, true);
    assert_eq!(request.phase, Http2Phase::Admission);
    request.advance(Http2Event::Admission(Ok(())));
    request.advance(Http2Event::Acquired(Ok(5)));
    assert_eq!(request.phase, Http2Phase::Sending(5));
    request
}

#[test]
fn a_graceful_goodbye_is_answered_by_one_replay() {
    let graceful = goodbye(Http2FailureKind::ConnectionError, Some(0));
    let mut request = http2_sending(true, false);
    assert_eq!(request.advance(Http2Event::StreamFailed(graceful)), Some(5));
    assert_eq!(request.phase, Http2Phase::Acquiring);
    request.advance(Http2Event::Acquired(Ok(6)));
    assert_eq!(request.advance(Http2Event::StreamFailed(graceful)), Some(6));
    assert_eq!(request.phase, Http2Phase::Failed(graceful.error));

    let mut other = http2_sending(false, false);
    assert_eq!(other.advance(Http2Event::StreamFailed(graceful)), Some(5));
    assert_eq!(other.phase, Http2Phase::Failed(graceful.error));
}

#[test]
fn only_a_failed_connection_is_invalidated() {
    for (kind, reason, replays, lost) in [
        (Http2FailureKind::StreamReset, Some(8), false, None),
        (Http2FailureKind::StreamReset, Some(7), true, Some(5)),
        (Http2FailureKind::Protocol, None, false, Some(5)),
        (Http2FailureKind::ConnectionError, Some(2), false, Some(5)),
        (Http2FailureKind::Other, None, false, None),
    ] {
        let mut request = http2_sending(true, replays);
        let failure = goodbye(kind, reason);
        assert_eq!(request.advance(Http2Event::StreamFailed(failure)), lost);
        assert_eq!(request.phase, Http2Phase::Failed(failure.error));
    }
    let mut answered = http2_sending(true, false);
    assert_eq!(answered.advance(Http2Event::Responded), None);
    assert_eq!(answered.phase, Http2Phase::Delivered(5));
    let late = error(RequestErrorKind::Timeout);
    let mut expired = http2_sending(true, false);
    assert_eq!(expired.advance(Http2Event::Expired(late)), None);
    assert_eq!(expired.phase, Http2Phase::Failed(late));
}

#[test]
fn an_http2_request_needs_a_route_that_carries_it() {
    let refused = Http2Phase::Refused(unsupported(HttpProtocol::Http2));
    for (mode, route, https_proxy, phase) in [
        (
            Http2ConnectionMode::Forward,
            proxy(true, true, false),
            true,
            Http2Phase::Admission,
        ),
        (
            Http2ConnectionMode::Forward,
            proxy(true, false, false),
            true,
            refused,
        ),
        (
            Http2ConnectionMode::TlsOrigin,
            proxy(true, false, false),
            false,
            refused,
        ),
    ] {
        let mut request = Http2Request::new(false, false);
        request.start(Ok(()), mode, &route, https_proxy);
        assert_eq!(request.phase, phase);
    }
    assert!(repeatable(true, false, 0));
    assert!(!repeatable(false, false, 0));
    assert!(!repeatable(true, true, 0));
    assert!(!repeatable(true, false, 1));
}

#[test]
fn plans_follow_the_route() {
    let direct = |tls| Ok(ConnectPlan::Direct { tls });
    let tls = Http1ConnectionMode::TlsOrigin;
    assert_eq!(plan_http1(tls, &Route::Direct, true), direct(true));
    assert_eq!(
        plan_http1(Http1ConnectionMode::PlaintextOrigin, &Route::Direct, true),
        direct(false)
    );
    assert_eq!(
        plan_http1(tls, &socks5(Socks5DnsMode::Local), true),
        Ok(ConnectPlan::Socks5 {
            tls: true,
            dns_mode: Socks5DnsMode::Local
        })
    );
    assert_eq!(
        plan_http1(tls, &proxy(true, false, true), true),
        Ok(ConnectPlan::Tunnel {
            proxy_tls: true,
            authenticated: true
        })
    );
    assert_eq!(
        plan_http1(Http1ConnectionMode::Forward, &proxy(false, false, true), true),
        Ok(ConnectPlan::Forward { proxy_tls: false })
    );
    for (mode, route) in [
        (tls, proxy(true, false, false)),
        (tls, connect_udp(None)),
        (Http1ConnectionMode::Forward, Route::Direct),
        (
            Http1ConnectionMode::PlaintextOrigin,
            proxy(false, false, false),
        ),
    ] {
        assert_eq!(
            plan_http1(mode, &route, false),
            Err(unsupported(HttpProtocol::Http1))
        );
    }
    assert_eq!(
        plan_http2(Http2ConnectionMode::Forward, &proxy(true, true, false), true),
        Ok(ConnectPlan::Forward { proxy_tls: true })
    );
    assert_eq!(
        plan_http2(Http2ConnectionMode::Forward, &Route::Direct, true),
        Err(unsupported(HttpProtocol::Http2))
    );
    assert_eq!(plan_negotiated(&Route::Direct, false), direct(true));
    assert_eq!(
        plan_negotiated(&connect_udp(None), true),
        Err(error(RequestErrorKind::UnsupportedRoute))
    );
}

#[test]
fn http3_plans_follow_the_route() {
    let connectors = Some(ConnectUdpConnectors {
        http3: true,
        tcp: false,
    });
    let http1 = Some(ConnectUdpTcpProtocol::Http1);
    assert_eq!(plan_http3(&Route::Direct, None, false), Ok(Http3Plan::Direct));
    assert_eq!(
        plan_http3(&socks5(Socks5DnsMode::Remote), None, false),
        Ok(Http3Plan::Socks5(Socks5DnsMode::Remote))
    );
    assert_eq!(
        plan_http3(&connect_udp(None), connectors, true),
        Ok(Http3Plan::ConnectUdp)
    );
    assert_eq!(
        plan_http3(
            &connect_udp(http1),
            Some(ConnectUdpConnectors {
                http3: false,
                tcp: true
            }),
            true
        ),
        Ok(Http3Plan::ConnectUdpOverTcp(ConnectUdpTcpProtocol::Http1))
    );
    let refused = unsupported(HttpProtocol::Http3);
    assert_eq!(
        plan_http3(&proxy(false, false, false), connectors, true),
        Err(refused)
    );
    assert_eq!(
        plan_http3(&connect_udp(http1), connectors, true),
        Err(refused)
    );
    assert_eq!(
        plan_http3(&connect_udp(None), connectors, false),
        Err(error(RequestErrorKind::InvalidTarget))
    );

    let rejected = error(RequestErrorKind::InvalidHeader);
    assert_eq!(
        check_route(Ok(()), &Route::Direct, None, false, Err(rejected)),
        Ok(())
    );
    assert_eq!(
        check_route(Ok(()), &connect_udp(None), connectors, true, Err(rejected)),
        Err(rejected)
    );
    assert_eq!(
        check_route(Ok(()), &connect_udp(None), None, false, Ok(())),
        Err(error(RequestErrorKind::InvalidTarget))
    );
    assert_eq!(
        check_route(Ok(()), &connect_udp(None), None, true, Ok(())),
        Err(refused)
    );
    assert_eq!(
        check_route(Err(rejected), &Route::Direct, None, true, Ok(())),
        Err(rejected)
    );
}

#[test]
fn an_http3_setup_connects_in_its_turn() {
    let mut setup = Http3Setup::AwaitingTurn;
    setup.advance(SetupEvent::TurnGranted);
    assert_eq!(setup, Http3Setup::Looking);
    let mut reused = setup;
    reused.advance(SetupEvent::Found(Some(4)));
    assert_eq!(reused, Http3Setup::Reused(4));
    setup.advance(SetupEvent::Found(None));
    assert_eq!(setup, Http3Setup::Connecting);
    let mut limited = setup;
    limited.advance(SetupEvent::LimitReached);
    let Http3Setup::Failed(late) = limited else {
        panic!("the attempt reached its limit");
    };
    assert_eq!(late.timeout_phase(), Some(TimeoutPhase::Connect));
    setup.advance(SetupEvent::Connected(Ok(9)));
    assert_eq!(setup, Http3Setup::Opened(9));
}

#[test]
fn an_http3_request_retires_what_it_cannot_reuse() {
    let failure = error(RequestErrorKind::Http3);
    for (replays, reusable, unprocessed, lost) in [
        (false, true, true, None),
        (false, false, false, Some(2)),
        (true, true, true, Some(2)),
        (true, true, false, None),
    ] {
        let mut request = Http3Request::new(replays);
        request.advance(Http3Event::Checked(Ok(())));
        request.advance(Http3Event::Admission(Ok(())));
        request.advance(Http3Event::Acquired(Ok(2)));
        assert_eq!(request.phase, Http3Phase::Sending(2));
        let event = Http3Event::StreamFailed {
            error: failure,
            reusable,
            unprocessed,
        };
        assert_eq!(request.advance(event), lost);
        assert_eq!(request.phase, Http3Phase::Failed(failure));
    }
    let mut leased = Http3Request::on_lease(Ok(()), 7, false);
    assert_eq!(leased.phase, Http3Phase::Sending(7));
    leased.advance(Http3Event::Responded);
    assert_eq!(leased.phase, Http3Phase::Delivered(7));
    let refused = Http3Request::on_lease(Err(failure), 7, false);
    assert_eq!(refused.phase, Http3Phase::Failed(failure));
}

#[test]
fn a_request_without_a_protocol_tries_a_slot_and_waits_for_a_setup() {
    let mut acquisition = Acquisition::new(false);
    assert!(acquisition.selection && !acquisition.slot);
    let looked = |before| AcquireEvent::Looked(before);
    assert_eq!(
        acquisition.advance(looked(BeforeAdmission::Admission(None))),
        AcquireStep::TrySlot
    );
    assert_eq!(
        acquisition.advance(AcquireEvent::SlotTried { granted: false }),
        AcquireStep::AwaitSetup
    );
    assert_eq!(
        acquisition.advance(AcquireEvent::SetupAwaited { waited: false }),
        AcquireStep::QueueSlot(None)
    );
    assert_eq!(
        acquisition.advance(AcquireEvent::SlotGranted),
        AcquireStep::Attempt
    );
    assert!(acquisition.slot);
    let failure = error(RequestErrorKind::Connect);
    assert_eq!(
        acquisition.advance(AcquireEvent::AttemptFailed(failure)),
        AcquireStep::RetryDelay(failure)
    );
    assert!(!acquisition.slot && acquisition.selection);
    assert_eq!(
        acquisition.advance(AcquireEvent::RetryDecided {
            error: failure,
            retry: true
        }),
        AcquireStep::Look
    );
    assert_eq!(
        acquisition.advance(looked(BeforeAdmission::Http2)),
        AcquireStep::AdmitHttp2
    );
    assert_eq!(
        acquisition.advance(AcquireEvent::Http2Admitted(None)),
        AcquireStep::Look
    );
    assert_eq!(
        acquisition.advance(looked(BeforeAdmission::Admission(Some(HttpProtocol::Http1)))),
        AcquireStep::QueueSlot(Some(HttpProtocol::Http1))
    );
    acquisition.advance(AcquireEvent::SlotGranted);
    assert_eq!(
        acquisition.advance(AcquireEvent::Acquired(Acquired::Http1(3))),
        AcquireStep::SendHttp1(3)
    );
    assert!(!acquisition.selection);
}

#[test]
fn a_setup_wait_is_bounded_by_the_connect_deadline() {
    let timeouts = RequestTimeouts::new().connect(Duration::from_millis(50));
    let mut acquisition = Acquisition::new(false);
    let limit = Some(Duration::from_millis(80));
    let Ok(wait) = acquisition.await_http2_setup(limit, budget(timeouts), at(0)) else {
        panic!("the wait starts");
    };
    assert_eq!(wait.poll(false, at(49)), SetupPoll::Pending);
    assert_eq!(wait.poll(true, at(90)), SetupPoll::Finished);
    let SetupPoll::Failed(late) = wait.poll(false, at(50)) else {
        panic!("the connect deadline passed");
    };
    assert_eq!(late.timeout_phase(), Some(TimeoutPhase::Connect));
    assert_eq!(wait.poll(false, at(80)), SetupPoll::LimitPassed);

    // The deadline started with the first wait.
    let Ok(again) = acquisition.await_http2_setup(limit, budget(timeouts), at(30)) else {
        panic!("the wait starts");
    };
    assert_eq!(again.connect, wait.connect);
    let forever = Some(Duration { nanos: u128::MAX });
    assert_eq!(
        acquisition.await_http2_setup(forever, budget(timeouts), at(0)),
        Err(error(RequestErrorKind::InvalidTimeout))
    );
    assert_eq!(
        acquisition.advance(AcquireEvent::Http2SetupAwaited { finished: false }),
        AcquireStep::Look
    );
    assert!(acquisition.setup_wait_expired);
}

fn negotiated_sending(lease: Lease, repeatable: bool) -> NegotiatedRequest {
    let mut request = NegotiatedRequest::new(repeatable, false, false, Some(lease));
    request.advance(NegotiatedEvent::Checked(Ok(())));
    assert_eq!(request.phase, NegotiatedPhase::Sending(lease));
    request
}

#[test]
fn a_negotiated_request_is_replayed_through_selection() {
    let graceful = goodbye(Http2FailureKind::ConnectionError, Some(0));
    let mut request = negotiated_sending(Lease::Http2(4), true);
    assert_eq!(
        request.advance(NegotiatedEvent::Http2Failed(graceful)),
        Some(4)
    );
    assert_eq!(request.phase, NegotiatedPhase::Selecting);
    request.advance(NegotiatedEvent::Selection(Ok(())));
    request.advance(NegotiatedEvent::Acquiring(AcquireEvent::Acquired(
        Acquired::Http1(6),
    )));
    assert_eq!(request.phase, NegotiatedPhase::Sending(Lease::Http1(6)));
    request.advance(NegotiatedEvent::Http1Sent(Sent::Response(200)));
    assert_eq!(
        request.phase,
        NegotiatedPhase::Ended(NegotiatedEnd::Delivered(Lease::Http1(6)))
    );

    let mut request = negotiated_sending(Lease::Http2(4), false);
    request.advance(NegotiatedEvent::Http2Failed(graceful));
    assert_eq!(
        request.phase,
        NegotiatedPhase::Ended(NegotiatedEnd::Broken {
            error: graceful.error,
            lease: Lease::Http2(4),
            retire: false
        })
    );
}

#[test]
fn a_fresh_connection_is_wanted_for_the_first_attempt() {
    let mut request = NegotiatedRequest::new(true, false, true, None);
    request.advance(NegotiatedEvent::Checked(Ok(())));
    assert_eq!(request.phase, NegotiatedPhase::Selecting);
    request.advance(NegotiatedEvent::Selection(Ok(())));
    let NegotiatedPhase::Acquiring(acquisition, AcquireStep::Look) = request.phase else {
        panic!("the request looks for a connection");
    };
    assert!(acquisition.force_new_connection);
    assert!(!request.fresh_http1);
    let late = error(RequestErrorKind::Timeout);
    request.advance(NegotiatedEvent::Acquiring(AcquireEvent::WaitFailed(late)));
    assert_eq!(
        request.phase,
        NegotiatedPhase::Ended(NegotiatedEnd::Refused(late))
    );
}

#[test]
fn host_comes_before_the_fields() {
    let origin = Endpoint::new("origin.test:8443", "origin.test", 8443);
    let wire = http1_wire_headers(&origin, &vec![header("Accept", "*/*")]);
    assert_eq!(
        wire,
        [header("Host", "origin.test:8443"), header("Accept", "*/*")]
    );
    assert_eq!(http1_sent_headers(&wire), [header("Accept", "*/*")]);
}

#[test]
fn negotiated_fields_carry_hints_for_both_protocols() {
    let origin = Endpoint::new("origin.test", "origin.test", 443);
    let settings = ClientHintSettings::new(vec![ClientHint::new(
        "sec-ch-ua",
        b"brand",
        ClientHintDelivery::Default,
    )]);
    let context = Some(ClientHintContext::new(
        &origin,
        "https://origin.test",
        &settings,
    ));
    let fields = negotiated_fields(
        &origin,
        vec![header("Accept", "1")],
        &vec![header("accept", "2")],
        &context,
        &mut None,
    );
    let Ok(fields) = fields else {
        panic!("the hints have a place");
    };
    assert_eq!(
        fields.http1_wire_headers,
        [
            header("Host", "origin.test"),
            header("sec-ch-ua", "brand"),
            header("Accept", "1")
        ]
    );
    assert_eq!(
        fields.http2_validation_headers,
        [header("sec-ch-ua", "brand"), header("accept", "2")]
    );
    assert_eq!(
        prepare_headers(&None, &mut None, vec![header("a", "b")], None),
        Ok(vec![header("a", "b")])
    );
}

#[test]
fn a_pooled_session_is_looked_for_again_after_admission() {
    let mut search = SessionSearch::new(&Route::Direct);
    assert_eq!(search, SessionSearch::Looking(SessionQuery::Negotiated));
    search.advance(SearchEvent::Looked(Some(1)));
    assert_eq!(search, SessionSearch::Admission(SessionQuery::Negotiated));
    let mut found = search;
    found.advance(SearchEvent::Admitted(Ok(Some(2))));
    assert_eq!(found, SessionSearch::Found(SessionQuery::Negotiated, 2));
    let full = error(RequestErrorKind::Capacity);
    let mut failed = search;
    failed.advance(SearchEvent::Admitted(Err(full)));
    assert_eq!(failed, SessionSearch::Failed(full));

    // The session was retired while the stream waited.
    search.advance(SearchEvent::Admitted(Ok(None)));
    assert_eq!(search, SessionSearch::Looking(SessionQuery::Exact));
    search.advance(SearchEvent::Looked(None));
    assert_eq!(search, SessionSearch::Missing);

    assert_eq!(
        SessionSearch::new(&proxy(false, false, false)),
        SessionSearch::Looking(SessionQuery::Exact)
    );
}
