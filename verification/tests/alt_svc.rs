use phantom::alt_svc::policy::{AltSvcBrokenBackoff, AltSvcPolicy, AltSvcRace};
use phantom::alt_svc::snapshot::{
    AltSvcSnapshot, AltSvcSnapshotEntry, AltSvcSnapshotError, AltSvcSnapshotErrorKind,
};
use phantom::alt_svc::store::{
    canonical_origin, AltSvcFrame, AltSvcLocation, AltSvcSelection, AltSvcStore,
};
use phantom::alt_svc::target::{invalidates_alternative, AlternativeTarget};
use phantom::endpoint::{
    Endpoint, HttpProtocol, RequestHeader, Route, Socks5DnsMode, Socks5Proxy,
};
use phantom::error::{BuildErrorKind, RequestError, RequestErrorKind};
use phantom::time::{Duration, Instant, SystemTime};
use phantom::timeout::TimeoutPhase;

type TestResult<T = ()> = Result<T, Box<dyn std::error::Error>>;

/// The route every test below uses unless it is about route scoping.
const DIRECT: Route = Route::Direct;

fn start() -> Instant {
    Instant {
        nanos: 1_000_000_000_000,
    }
}

fn after(now: Instant, length: Duration) -> Instant {
    Instant {
        nanos: now.nanos + length.nanos,
    }
}

fn learn_fields_at(
    store: &mut AltSvcStore,
    origin: &Endpoint,
    route: &Route,
    fields: &[(&str, &[u8])],
    now: Instant,
) {
    let fields: Vec<RequestHeader> = fields
        .iter()
        .map(|(name, value)| RequestHeader::new(name, value))
        .collect();
    store.learn(origin, route, &fields, now);
}

fn learn_frames_at(
    store: &mut AltSvcStore,
    origin: &Endpoint,
    route: &Route,
    frames: &[(Option<&[u8]>, &[u8])],
    now: Instant,
) {
    let frames: Vec<AltSvcFrame> = frames
        .iter()
        .map(|(origin, value)| AltSvcFrame {
            origin: origin.map(|bytes| bytes.to_vec()),
            value: value.to_vec(),
        })
        .collect();
    store.learn_frames(origin, route, &frames, now);
}

#[test]
fn only_alternative_service_failures_trigger_alt_svc_eviction() {
    assert!(!invalidates_alternative(&RequestError::new(
        RequestErrorKind::RequestBody,
        None
    )));
    assert!(!invalidates_alternative(&RequestError::new(
        RequestErrorKind::Capacity,
        Some(HttpProtocol::Http3)
    )));
    assert!(invalidates_alternative(&RequestError::timeout(
        TimeoutPhase::ResponseHead,
        Some(HttpProtocol::Http3)
    )));
}

#[test]
fn selects_first_fresh_h3_and_canonicalizes_its_location() -> TestResult {
    let origin = endpoint("Origin.Example:443")?;
    let mut store = AltSvcStore::new(1);
    let now = start();
    learn_fields_at(&mut store, &origin, &DIRECT, &[
            (
                "Alt-Svc",
                b"h2=\"other.example:443\", h3=\"expired.example:7443\"; ma=0, h3=\"ALT.Example:8443\"; ma=60; unknown=ok".as_slice(),
            ),
            ("alt-svc", b"h3=\"later.example:9443\"; ma=120".as_slice()),
        ],
        now,
    );

    assert_eq!(
        store
            .get(&origin, &DIRECT, now)
            .map(|selected| selected.location),
        Some(AltSvcLocation {
            host: "alt.example".to_owned(),
            port: 8443,
        })
    );
    Ok(())
}

#[test]
fn empty_host_uses_origin_and_ipv6_loses_wire_brackets() -> TestResult {
    let origin = endpoint("origin.example:443")?;
    let mut store = AltSvcStore::new(1);
    let now = start();

    learn_fields_at(&mut store, &origin, &DIRECT, &[("alt-svc", b"h3=\":8443\"".as_slice())],
        now,
    );
    assert_eq!(
        store
            .get(&origin, &DIRECT, now)
            .ok_or("same-host alternative missing")?
            .location.host,
        "origin.example"
    );

    learn_fields_at(&mut store, &origin, &DIRECT, &[("alt-svc", b"h3=\"[2001:db8::1]:9443\"".as_slice())],
        now,
    );
    let ipv6 = store
        .get(&origin, &DIRECT, now)
        .ok_or("IPv6 alternative missing")?;
    assert_eq!(ipv6.location.host, "2001:db8::1");
    assert_eq!(ipv6.location.port, 9443);
    Ok(())
}

#[test]
fn applies_default_max_age_age_subtraction_and_expiry() -> TestResult {
    let origin = endpoint("origin.example:443")?;
    let mut store = AltSvcStore::new(1);
    let now = start();
    learn_fields_at(&mut store, &origin, &DIRECT, &[
            ("alt-svc", b"h3=\":8443\"".as_slice()),
            ("age", b"60".as_slice()),
        ],
        now,
    );

    assert!(
        store
            .get(&origin, &DIRECT, after(now, Duration::from_secs(86_339)))
            .is_some()
    );
    assert!(
        store
            .get(&origin, &DIRECT, after(now, Duration::from_secs(86_340)))
            .is_none()
    );
    Ok(())
}

#[test]
fn max_age_zero_and_age_exhaustion_replace_with_no_entry() -> TestResult {
    let origin = endpoint("origin.example:443")?;
    let mut store = AltSvcStore::new(1);
    let now = start();
    learn(&mut store, &origin, b"h3=\":8443\"; ma=60", now);
    learn(&mut store, &origin, b"h3=\":9443\"; ma=0", now);
    assert!(store.get(&origin, &DIRECT, now).is_none());

    learn(&mut store, &origin, b"h3=\":8443\"; ma=60", now);
    learn_fields_at(&mut store, &origin, &DIRECT, &[
            ("alt-svc", b"h3=\":9443\"; ma=60".as_slice()),
            ("age", b"60".as_slice()),
        ],
        now,
    );
    assert!(store.get(&origin, &DIRECT, now).is_none());
    Ok(())
}

#[test]
fn clear_wins_even_when_combined_with_an_invalid_alternative() -> TestResult {
    let origin = endpoint("origin.example:443")?;
    let mut store = AltSvcStore::new(1);
    let now = start();
    learn(&mut store, &origin, b"h3=\":8443\"", now);
    learn(&mut store, &origin, b"h3=not-quoted, clear", now);

    assert!(store.get(&origin, &DIRECT, now).is_none());
    Ok(())
}

#[test]
fn malformed_field_preserves_previous_entry() -> TestResult {
    let origin = endpoint("origin.example:443")?;
    let mut store = AltSvcStore::new(1);
    let now = start();
    learn(&mut store, &origin, b"h3=\":8443\"; ma=60", now);

    for malformed in [
        b"h3=not-quoted".as_slice(),
        b"h3=\"unterminated".as_slice(),
        b"h3=\":0\"".as_slice(),
        b"h3=\":9443\"; ma=nope".as_slice(),
        b"h3=\":9443\"; ma=\"60\"".as_slice(),
        b"h3=\":9443\"; ma=1; ma=2".as_slice(),
        b"h%33=\":9443\"".as_slice(),
        b"h2=\"missing-port\"".as_slice(),
    ] {
        learn(&mut store, &origin, malformed, now);
        assert_eq!(
            store
                .get(&origin, &DIRECT, now)
                .ok_or("prior alternative was not retained")?
                .location.port,
            8443
        );
    }
    Ok(())
}

#[test]
fn valid_unsupported_list_replaces_previous_h3_entry() -> TestResult {
    let origin = endpoint("origin.example:443")?;
    let mut store = AltSvcStore::new(1);
    let now = start();
    learn(&mut store, &origin, b"h3=\":8443\"", now);
    learn(&mut store, &origin, b"h2=\":443\"", now);

    assert!(store.get(&origin, &DIRECT, now).is_none());
    Ok(())
}

#[test]
fn replacement_lru_and_explicit_removal_are_origin_scoped() -> TestResult {
    let first = endpoint("first.example:443")?;
    let second = endpoint("second.example:443")?;
    let third = endpoint("third.example:443")?;
    let mut store = AltSvcStore::new(2);
    let now = start();
    learn(&mut store, &first, b"h3=\":8001\"", now);
    learn(&mut store, &second, b"h3=\":8002\"", now);
    assert!(store.get(&first, &DIRECT, now).is_some());
    learn(&mut store, &third, b"h3=\":8003\"", now);

    assert!(store.get(&first, &DIRECT, now).is_some());
    assert!(store.get(&second, &DIRECT, now).is_none());
    assert!(store.get(&third, &DIRECT, now).is_some());
    store.remove(&first, &DIRECT);
    assert!(store.get(&first, &DIRECT, now).is_none());
    assert_eq!(store.capacity(), 2);
    Ok(())
}

#[test]
fn duplicate_or_malformed_age_preserves_previous_entry() -> TestResult {
    let origin = endpoint("origin.example:443")?;
    let mut store = AltSvcStore::new(1);
    let now = start();
    learn(&mut store, &origin, b"h3=\":8443\"", now);

    learn_fields_at(&mut store, &origin, &DIRECT, &[
            ("alt-svc", b"h3=\":9443\"".as_slice()),
            ("age", b"1".as_slice()),
            ("Age", b"2".as_slice()),
        ],
        now,
    );
    assert_eq!(
        store
            .get(&origin, &DIRECT, now)
            .ok_or("duplicate Age replaced the prior alternative")?
            .location.port,
        8443
    );
    learn_fields_at(&mut store, &origin, &DIRECT, &[
            ("alt-svc", b"h3=\":9443\"".as_slice()),
            ("age", b"invalid".as_slice()),
        ],
        now,
    );
    assert_eq!(
        store
            .get(&origin, &DIRECT, now)
            .ok_or("malformed Age replaced the prior alternative")?
            .location.port,
        8443
    );
    Ok(())
}

#[test]
fn stale_failure_does_not_remove_a_newer_advertisement() -> TestResult {
    let origin = endpoint("origin.example:443")?;
    let mut store = AltSvcStore::new(1);
    let now = start();
    learn(&mut store, &origin, b"h3=\":8443\"", now);
    let stale_generation = store
        .get(&origin, &DIRECT, now)
        .ok_or("first alternative missing")?
        .generation;
    learn(&mut store, &origin, b"h3=\":9443\"", now);

    store.remove_if_current(&origin, &DIRECT, stale_generation);

    assert_eq!(
        store
            .get(&origin, &DIRECT, now)
            .ok_or("newer alternative was removed")?
            .location.port,
        9443
    );
    Ok(())
}

#[test]
fn oversized_delta_seconds_saturate_instead_of_becoming_malformed() -> TestResult {
    let origin = endpoint("origin.example:443")?;
    let mut store = AltSvcStore::new(1);
    let now = start();
    let oversized = b"999999999999999999999999999999999999999999999999";
    learn_fields_at(&mut store, &origin, &DIRECT, &[(
            "alt-svc",
            [b"h3=\":8443\"; ma=".as_slice(), oversized]
                .concat()
                .as_slice(),
        )],
        now,
    );
    assert!(
        store
            .get(&origin, &DIRECT, after(now, Duration::from_secs(60)))
            .is_some()
    );

    learn_fields_at(&mut store, &origin, &DIRECT, &[
            (
                "alt-svc",
                b"h3=\":9443\"; ma=999999999999999999999".as_slice(),
            ),
            ("age", oversized.as_slice()),
        ],
        now,
    );
    assert!(store.get(&origin, &DIRECT, now).is_none());
    Ok(())
}

fn endpoint(authority: &str) -> TestResult<Endpoint> {
    Ok(Endpoint::parse(authority, 443).ok_or("bad authority")?)
}

fn learn(store: &mut AltSvcStore, origin: &Endpoint, value: &[u8], now: Instant) {
    learn_on(store, origin, &DIRECT, value, now);
}

fn learn_on(
    store: &mut AltSvcStore,
    origin: &Endpoint,
    route: &Route,
    value: &[u8],
    now: Instant,
) {
    learn_fields_at(store, origin, route, &[("alt-svc", value)], now);
}

#[test]
fn canonical_origin_brackets_ipv6_and_omits_default_port() -> TestResult {
    assert_eq!(
        canonical_origin(&endpoint("Origin.Example:443")?),
        "https://origin.example"
    );
    assert_eq!(
        canonical_origin(&endpoint("origin.example:8443")?),
        "https://origin.example:8443"
    );
    assert_eq!(
        canonical_origin(&endpoint("[::1]:8443")?),
        "https://[::1]:8443"
    );
    Ok(())
}

#[test]
fn stream_zero_frames_apply_only_to_the_exact_canonical_origin() -> TestResult {
    let origin = endpoint("origin.example:8443")?;
    let mut store = AltSvcStore::new(1);
    let now = start();
    for foreign in [
        b"https://other.example:8443".as_slice(),
        b"https://ORIGIN.example:8443".as_slice(),
        b"https://origin.example:8443/".as_slice(),
        b"http://origin.example:8443".as_slice(),
        b"https://origin.example".as_slice(),
    ] {
        learn_frames_at(&mut store, &origin, &DIRECT, &[(Some(foreign), b"h3=\":9443\"".as_slice())],
            now,
        );
        assert!(store.get(&origin, &DIRECT, now).is_none(), "{foreign:?}");
    }

    learn_frames_at(&mut store, &origin, &DIRECT, &[(
            Some(b"https://origin.example:8443".as_slice()),
            b"h3=\":9443\"".as_slice(),
        )],
        now,
    );
    assert_eq!(
        store
            .get(&origin, &DIRECT, now)
            .ok_or("frame not learned")?
            .location.port,
        9443
    );
    Ok(())
}

#[test]
fn stream_frames_apply_in_arrival_order() -> TestResult {
    let origin = endpoint("origin.example:443")?;
    let mut store = AltSvcStore::new(1);
    let now = start();
    learn_frames_at(&mut store, &origin, &DIRECT, &[
            (None, b"h3=\":8001\"".as_slice()),
            (None, b"h3=\":8002\"".as_slice()),
        ],
        now,
    );
    assert_eq!(
        store
            .get(&origin, &DIRECT, now)
            .ok_or("frame not learned")?
            .location.port,
        8002
    );
    learn_frames_at(&mut store, &origin, &DIRECT, &[(None, b"clear".as_slice())], now);
    assert!(store.get(&origin, &DIRECT, now).is_none());
    Ok(())
}

fn backoff() -> TestResult<AltSvcBrokenBackoff> {
    AltSvcBrokenBackoff::new(Duration::from_secs(10), Duration::from_secs(60))
        .map_err(|error| error.message.into())
}

fn broken_at(store: &mut AltSvcStore, origin: &Endpoint, now: Instant) -> TestResult<bool> {
    Ok(store
        .get(origin, &DIRECT, now)
        .ok_or("alternative not learned")?
        .broken)
}

fn location(
    store: &mut AltSvcStore,
    origin: &Endpoint,
    now: Instant,
) -> TestResult<AltSvcLocation> {
    Ok(store
        .get(origin, &DIRECT, now)
        .ok_or("alternative not learned")?
        .location)
}

#[test]
fn broken_alternative_is_not_raced_until_backoff_expires() -> TestResult {
    let origin = endpoint("origin.example:443")?;
    let other = endpoint("other.example:443")?;
    let mut store = AltSvcStore::new(4);
    let now = start();
    learn(&mut store, &origin, b"h3=\":8443\"", now);
    learn(&mut store, &other, b"h3=\":8443\"", now);
    assert!(!broken_at(&mut store, &origin, now)?);

    let broken = location(&mut store, &origin, now)?;
    store.mark_broken(&origin, &DIRECT, &broken, backoff()?, now);
    assert!(broken_at(&mut store, &origin, now)?);
    assert!(broken_at(&mut store,
        &origin,
        after(now, Duration::from_millis(9_999))
    )?);
    // Brokenness belongs to the origin and alternative pair.
    assert!(!broken_at(&mut store, &other, now)?);
    // A repeated advertisement does not clear brokenness.
    learn(&mut store,
        &origin,
        b"h3=\":8443\"",
        after(now, Duration::from_secs(1)),
    );
    assert!(broken_at(&mut store, &origin, after(now, Duration::from_secs(1)))?);
    // A different alternative for the same origin is not broken.
    learn(&mut store,
        &origin,
        b"h3=\":9443\"",
        after(now, Duration::from_secs(2)),
    );
    assert!(!broken_at(&mut store, &origin, after(now, Duration::from_secs(2)))?);
    learn(&mut store,
        &origin,
        b"h3=\":8443\"",
        after(now, Duration::from_secs(3)),
    );
    assert!(broken_at(&mut store, &origin, after(now, Duration::from_secs(3)))?);

    assert!(!broken_at(&mut store, &origin, after(now, Duration::from_secs(10)))?);
    Ok(())
}

#[test]
fn broken_backoff_doubles_and_is_capped() -> TestResult {
    let backoff = backoff()?;
    assert_eq!(
        (0..6)
            .map(|failures| backoff.period(failures))
            .collect::<Vec<_>>(),
        [10, 20, 40, 60, 60, 60].map(Duration::from_secs)
    );
    assert_eq!(backoff.period(u32::MAX), Duration::from_secs(60));

    let origin = endpoint("origin.example:443")?;
    let mut store = AltSvcStore::new(1);
    let mut now = start();
    learn(&mut store, &origin, b"h3=\":8443\"; ma=86400", now);
    let broken = location(&mut store, &origin, now)?;
    for expected in [10, 20, 40, 60, 60] {
        store.mark_broken(&origin, &DIRECT, &broken, backoff, now);
        let period = Duration::from_secs(expected);
        assert!(broken_at(&mut store,
            &origin,
            after(now, Duration { nanos: period.nanos - 1_000_000 })
        )?);
        assert!(!broken_at(&mut store, &origin, after(now, period))?);
        now = after(now, period);
    }

    // A successful alternative connection clears the failure history.
    store.confirm(&origin, &DIRECT, &broken, now);
    assert!(!broken_at(&mut store, &origin, now)?);
    store.mark_broken(&origin, &DIRECT, &broken, backoff, now);
    assert!(!broken_at(&mut store, &origin, after(now, Duration::from_secs(10)))?);

    // Clearing the store clears brokenness with the advertisements.
    store.mark_broken(&origin, &DIRECT, &broken, backoff, now);
    store.clear();
    learn(&mut store, &origin, b"h3=\":8443\"", now);
    assert!(!broken_at(&mut store, &origin, now)?);
    Ok(())
}

#[test]
fn failure_during_broken_period_counts_without_extending_it() -> TestResult {
    let backoff = backoff()?;
    let origin = endpoint("origin.example:443")?;
    let mut store = AltSvcStore::new(1);
    let now = start();
    learn(&mut store, &origin, b"h3=\":8443\"; ma=86400", now);
    let broken = location(&mut store, &origin, now)?;

    // Two races that lost concurrently report the same alternative.
    store.mark_broken(&origin, &DIRECT, &broken, backoff, now);
    store.mark_broken(
        &origin,
        &DIRECT,
        &broken,
        backoff,
        after(now, Duration::from_secs(1)),
    );
    assert!(broken_at(&mut store,
        &origin,
        after(now, Duration::from_millis(9_999))
    )?);
    assert!(!broken_at(&mut store, &origin, after(now, Duration::from_secs(10)))?);

    // Both failures count, as in Chromium, so the next period is 10 s << 2.
    let later = after(now, Duration::from_secs(10));
    store.mark_broken(&origin, &DIRECT, &broken, backoff, later);
    assert!(broken_at(&mut store,
        &origin,
        after(later, Duration::from_millis(39_999))
    )?);
    assert!(!broken_at(&mut store,
        &origin,
        after(later, Duration::from_secs(40))
    )?);
    Ok(())
}

fn socks5(uri: &str) -> TestResult<Route> {
    let (scheme, authority) = uri.split_once("://").ok_or("no scheme")?;
    let (host, port) = authority.split_once(':').ok_or("no port")?;
    Ok(Route::Socks5(Socks5Proxy {
        host: host.to_owned(),
        port: port.parse()?,
        dns_mode: if scheme == "socks5h" {
            Socks5DnsMode::Remote
        } else {
            Socks5DnsMode::Local
        },
        credentials: None,
    }))
}

#[test]
fn alternatives_are_scoped_to_the_route_that_learned_them() -> TestResult {
    let origin = endpoint("origin.example:443")?;
    let proxied = socks5("socks5h://proxy.example:1080")?;
    let other_proxy = socks5("socks5h://other.example:1080")?;
    let mut store = AltSvcStore::new(4);
    let now = start();

    learn(&mut store, &origin, b"h3=\":8443\"", now);
    // A proxy route never inherits the direct route's advertisement.
    assert!(store.get(&origin, &proxied, now).is_none());

    learn_on(&mut store, &origin, &proxied, b"h3=\":9443\"", now);
    assert_eq!(
        store
            .get(&origin, &DIRECT, now)
            .ok_or("direct alternative missing")?
            .location.port,
        8443
    );
    assert_eq!(
        store
            .get(&origin, &proxied, now)
            .ok_or("proxied alternative missing")?
            .location.port,
        9443
    );
    // Another proxy is another route, even to the same origin.
    assert!(store.get(&origin, &other_proxy, now).is_none());

    // Eviction is per route as well.
    store.remove(&origin, &proxied);
    assert!(store.get(&origin, &proxied, now).is_none());
    assert!(store.get(&origin, &DIRECT, now).is_some());
    Ok(())
}

#[test]
fn broken_state_is_scoped_to_the_route_that_failed() -> TestResult {
    let origin = endpoint("origin.example:443")?;
    let proxied = socks5("socks5://proxy.example:1080")?;
    let mut store = AltSvcStore::new(4);
    let now = start();
    learn(&mut store, &origin, b"h3=\":8443\"; ma=86400", now);
    learn_on(&mut store, &origin, &proxied, b"h3=\":8443\"; ma=86400", now);

    let broken = location(&mut store, &origin, now)?;
    store.mark_broken(&origin, &DIRECT, &broken, backoff()?, now);

    assert!(broken_at(&mut store, &origin, now)?);
    assert!(
        !store
            .get(&origin, &proxied, now)
            .ok_or("proxied alternative missing")?
            .broken,
        "the same location broken on one route must not be broken on another"
    );
    Ok(())
}

#[test]
fn snapshots_carry_direct_route_alternatives_only() -> TestResult {
    let origin = endpoint("origin.example:443")?;
    let proxied_origin = endpoint("proxied.example:443")?;
    let proxied = socks5("socks5h://proxy.example:1080")?;
    let mut store = AltSvcStore::new(4);
    let now = start();
    learn(&mut store, &origin, b"h3=\":8443\"; ma=86400", now);
    learn_on(&mut store,
        &proxied_origin,
        &proxied,
        b"h3=\":9443\"; ma=86400",
        now,
    );

    let snapshot = store.export(now, SystemTime::from_unix_secs(1_700_000_000));

    assert_eq!(
        snapshot
            .entries()
            .iter()
            .map(|entry| entry.origin())
            .collect::<Vec<_>>(),
        ["https://origin.example"]
    );
    Ok(())
}

fn allows_early_data(
    store: &mut AltSvcStore,
    origin: &Endpoint,
    now: Instant,
) -> TestResult<bool> {
    let selection = store
        .get(origin, &DIRECT, now)
        .ok_or("alternative not learned")?;
    Ok(AlternativeTarget::new(&selection).allows_early_data())
}

#[test]
fn early_data_waits_until_quic_to_the_origin_connects_again() -> TestResult {
    let origin = endpoint("origin.example:443")?;
    let mut store = AltSvcStore::new(4);
    let now = start();
    learn(&mut store, &origin, b"h3=\"alt.example:8443\"", now);
    assert!(allows_early_data(&mut store, &origin, now)?);

    // A failure of another alternative location does not count.
    let alternative = location(&mut store, &origin, now)?;
    store.mark_broken(&origin, &DIRECT, &alternative, backoff()?, now);
    assert!(allows_early_data(&mut store, &origin, now)?);

    // Chromium keys the check by QUIC at the origin's own host and port, and
    // it holds after the broken period until that location connects again.
    let own = AltSvcLocation::origin(&origin);
    store.mark_broken(&origin, &DIRECT, &own, backoff()?, now);
    assert!(!allows_early_data(&mut store, &origin, now)?);
    let later = after(now, Duration::from_secs(3600));
    assert!(!store.is_broken(&origin, &DIRECT, &own, later));
    assert!(!allows_early_data(&mut store, &origin, later)?);
    store.confirm(&origin, &DIRECT, &own, later);
    assert!(allows_early_data(&mut store, &origin, later)?);
    Ok(())
}

#[test]
fn a_failed_early_handshake_disallows_early_data_without_breaking_the_alternative() -> TestResult {
    let origin = endpoint("origin.example:443")?;
    let mut store = AltSvcStore::new(4);
    let now = start();
    learn(&mut store, &origin, b"h3=\"alt.example:8443\"", now);

    store.mark_origin_quic_recently_broken(&origin, &DIRECT, now);
    let later = start();
    assert!(!allows_early_data(&mut store, &origin, later)?);
    assert!(!broken_at(&mut store, &origin, later)?);

    // A completed handshake to the alternative confirms QUIC to the origin.
    let alternative = location(&mut store, &origin, later)?;
    store.confirm(&origin, &DIRECT, &alternative, later);
    assert!(allows_early_data(&mut store, &origin, later)?);
    Ok(())
}

fn selected(store: &mut AltSvcStore, origin: &Endpoint, now: Instant) -> TestResult<AltSvcSelection> {
    Ok(store.get(origin, &DIRECT, now).ok_or("no alternative")?)
}

#[test]
fn an_exported_alternative_is_restored_with_its_lifetime() -> TestResult {
    let origin = endpoint("origin.example:8443")?;
    let now = start();
    let wall = SystemTime::from_unix_secs(1_700_000_000);
    let mut store = AltSvcStore::new(2);
    learn(&mut store, &origin, b"h3=\"alt.example:9443\"; ma=60", now);
    let snapshot = store.export(now, wall);
    assert_eq!(snapshot.len(), 1);
    let entry = &snapshot.entries()[0];
    assert_eq!(entry.origin(), "https://origin.example:8443");
    assert_eq!(entry.alternative_host(), "alt.example");
    assert_eq!(entry.alternative_port(), 9443);
    assert_eq!(entry.expires_at(), SystemTime::from_unix_secs(1_700_000_060));

    let mut restored = AltSvcStore::new(2);
    restored
        .import(&snapshot, now, wall)
        .map_err(|error| error.message())?;
    let found = selected(&mut restored, &origin, now)?;
    assert_eq!(found.location.host, "alt.example");
    assert_eq!(found.location.port, 9443);
    assert!(restored
        .get(&origin, &DIRECT, after(now, Duration::from_millis(59_999)))
        .is_some());
    assert!(restored
        .get(&origin, &DIRECT, after(now, Duration::from_secs(60)))
        .is_none());
    Ok(())
}

fn import_error(entry: AltSvcSnapshotEntry) -> TestResult<AltSvcSnapshotError> {
    let mut store = AltSvcStore::new(2);
    let snapshot = AltSvcSnapshot::new(vec![entry]);
    let wall = SystemTime::from_unix_secs(1_700_000_000);
    Ok(store
        .import(&snapshot, start(), wall)
        .err()
        .ok_or("an invalid entry was imported")?)
}

#[test]
fn an_import_refuses_noncanonical_entries() -> TestResult {
    let later = SystemTime::from_unix_secs(1_800_000_000);
    for origin in [
        "http://origin.example",
        "https://Origin.example",
        "https://origin.example/",
        "https://origin.example:443",
        "not a url",
    ] {
        let error = import_error(AltSvcSnapshotEntry::new(origin, "alt.example", 443, later))?;
        assert_eq!(error.kind(), AltSvcSnapshotErrorKind::NoncanonicalOrigin, "{origin}");
        assert_eq!(error.entry_index(), Some(0));
    }
    for (host, port) in [("ALT.example", 443), ("", 443), ("alt.example", 0), ("[::1]", 443)] {
        let error = import_error(AltSvcSnapshotEntry::new(
            "https://origin.example",
            host,
            port,
            later,
        ))?;
        assert_eq!(error.kind(), AltSvcSnapshotErrorKind::InvalidAlternative, "{host}");
    }
    assert_eq!(AltSvcSnapshotError::disabled().kind(), AltSvcSnapshotErrorKind::Disabled);
    assert_eq!(AltSvcSnapshotError::disabled().entry_index(), None);
    Ok(())
}

#[test]
fn held_alternatives_win_over_imported_ones() -> TestResult {
    let held = endpoint("held.example:443")?;
    let now = start();
    let wall = SystemTime::from_unix_secs(1_700_000_000);
    let later = SystemTime::from_unix_secs(1_700_000_500);
    let mut store = AltSvcStore::new(2);
    learn(&mut store, &held, b"h3=\":8443\"", now);
    let snapshot = AltSvcSnapshot::new(vec![
        AltSvcSnapshotEntry::new("https://old.example", "old.example", 1, later),
        AltSvcSnapshotEntry::new("https://held.example", "other.example", 2, later),
        AltSvcSnapshotEntry::new("https://new.example", "new.example", 3, later),
        AltSvcSnapshotEntry::new("https://gone.example", "gone.example", 4, wall),
    ]);
    store.import(&snapshot, now, wall).map_err(|error| error.message())?;
    assert_eq!(selected(&mut store, &held, now)?.location.port, 8443);
    let newest = endpoint("new.example:443")?;
    assert_eq!(selected(&mut store, &newest, now)?.location.port, 3);
    assert!(store.get(&endpoint("old.example:443")?, &DIRECT, now).is_none());
    assert!(store.get(&endpoint("gone.example:443")?, &DIRECT, now).is_none());
    assert_eq!(store.len(), 2);
    Ok(())
}

#[test]
fn an_import_keeps_the_order_and_prefers_later_entries() -> TestResult {
    let now = start();
    let wall = SystemTime::from_unix_secs(1_700_000_000);
    let later = SystemTime::from_unix_secs(1_700_000_500);
    let mut store = AltSvcStore::new(4);
    learn(&mut store, &endpoint("held.example:443")?, b"h3=\":8443\"", now);
    let snapshot = AltSvcSnapshot::new(vec![
        AltSvcSnapshotEntry::new("https://early.example", "early.example", 1, later),
        AltSvcSnapshotEntry::new("https://twice.example", "first.example", 2, later),
        AltSvcSnapshotEntry::new("https://b.example", "b.example", 3, later),
        AltSvcSnapshotEntry::new("https://twice.example", "second.example", 4, later),
        AltSvcSnapshotEntry::new("https://a.example", "a.example", 5, later),
    ]);
    store.import(&snapshot, now, wall).map_err(|error| error.message())?;
    let listed: Vec<(String, u16)> = store
        .export(now, wall)
        .entries()
        .iter()
        .map(|entry| (entry.origin.clone(), entry.alternative_port))
        .collect();
    let expected = [
        ("https://b.example", 3),
        ("https://twice.example", 4),
        ("https://a.example", 5),
        ("https://held.example", 8443),
    ];
    assert_eq!(listed, expected.map(|(origin, port)| (origin.to_owned(), port)));
    Ok(())
}

#[test]
fn broken_periods_double_until_the_cap_however_many_failures() -> TestResult {
    let backoff = AltSvcBrokenBackoff::new(Duration { nanos: 1 }, Duration::from_secs(3600))
        .map_err(|error| format!("{error:?}"))?;
    assert_eq!(backoff.period(31), Duration { nanos: 2_147_483_648 });
    assert_eq!(backoff.period(32), Duration { nanos: 4_294_967_296 });
    assert_eq!(backoff.period(41), Duration { nanos: 2_199_023_255_552 });
    assert_eq!(backoff.period(42), Duration::from_secs(3600));
    assert_eq!(backoff.period(u32::MAX), Duration::from_secs(3600));
    Ok(())
}

#[test]
fn a_backoff_needs_a_positive_period_within_its_cap() {
    let refused = AltSvcBrokenBackoff::new(Duration::from_secs(0), Duration::from_secs(1));
    assert!(matches!(refused, Err(error) if error.kind() == BuildErrorKind::InvalidPolicy));
    let refused = AltSvcBrokenBackoff::new(Duration::from_secs(2), Duration::from_secs(1));
    assert!(matches!(
        refused,
        Err(error) if error.message == "Alt-Svc broken backoff needs 0 < initial <= maximum"
    ));
    let chromium = AltSvcBrokenBackoff::chromium_153();
    assert_eq!(chromium.initial(), Duration::from_secs(300));
    assert_eq!(chromium.maximum(), Duration::from_secs(172_800));
    assert_eq!(chromium.period(1), Duration::from_secs(600));
}

#[test]
fn a_racing_policy_needs_a_representable_delay() {
    let race = AltSvcRace::new(Duration::from_millis(300), AltSvcBrokenBackoff::chromium_153());
    assert_eq!(race.origin_delay(), Duration::from_millis(300));
    assert_eq!(AltSvcPolicy::race(race).race_settings(), Some(race));
    assert_eq!(AltSvcPolicy::sequential().race_settings(), None);
    assert!(AltSvcPolicy::race(race).validate(start()).is_ok());
    let endless = AltSvcRace::new(
        Duration { nanos: u128::MAX },
        AltSvcBrokenBackoff::chromium_153(),
    );
    assert!(matches!(
        AltSvcPolicy::race(endless).validate(start()),
        Err(error) if error.message == "Alt-Svc origin delay is not representable"
    ));
}

#[test]
fn a_stored_alternative_names_itself_on_the_wire() -> TestResult {
    let origin = endpoint("origin.example:443")?;
    let mut store = AltSvcStore::new(1);
    learn(&mut store, &origin, b"h3=\"[2001:db8::1]:9443\"", start());
    let target = AlternativeTarget::new(&selected(&mut store, &origin, start())?);
    assert_eq!(target.alt_used().map(String::as_str), Some("[2001:db8::1]:9443"));
    assert_eq!(target.generation(), Some(1));
    let record = AlternativeTarget::https_record(&origin, false, false);
    assert_eq!(record.alt_used(), None);
    assert_eq!(record.generation(), None);
    assert_eq!(record.location, AltSvcLocation::origin(&origin));
    assert!(record.allows_early_data());
    assert!(!record.without_early_data().allows_early_data());
    Ok(())
}

#[test]
fn a_snapshot_shows_neither_origins_nor_hosts() {
    let later = SystemTime::from_unix_secs(1_800_000_000);
    let entry = AltSvcSnapshotEntry::new("https://origin.example", "alt.example", 8443, later);
    let snapshot = AltSvcSnapshot::new(vec![entry.clone()]);
    assert!(snapshot.clone() == snapshot);
    assert!(snapshot != AltSvcSnapshot::default());
    assert!(entry != AltSvcSnapshotEntry::new("https://origin.example", "alt.example", 1, later));
    assert_eq!(snapshot.redacted(), [entry.redacted()]);
    assert_eq!(entry.redacted().alternative_port, 8443);
    assert_eq!(entry.redacted().expires_at, later);
    let shown = format!("{:?}", snapshot.redacted());
    assert!(!shown.contains("example"), "{shown}");
}

#[test]
fn a_url_without_a_host_is_no_origin_however_deep_it_nests() -> TestResult {
    let later = SystemTime::from_unix_secs(1_800_000_000);
    let nested = "blob:".repeat(100_000);
    for origin in ["blob:https://origin.example", nested.as_str()] {
        let error = import_error(AltSvcSnapshotEntry::new(origin, "alt.example", 443, later))?;
        assert_eq!(error.kind(), AltSvcSnapshotErrorKind::NoncanonicalOrigin);
    }
    Ok(())
}
