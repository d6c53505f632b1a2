use phantom::endpoint::{
    Credentials, Endpoint, HttpProtocol, HttpProxy, Route, Socks5DnsMode, Socks5Proxy,
};
use phantom::error::{RequestError, RequestErrorKind};
use phantom::pool::admission::{refusal, Admission, Admitted};
use phantom::pool::connection_set::{Checkout, ConnectionSet};
use phantom::pool::http1_or_2_pool::{Acquisition, Http1Or2Pool, SetupPoll};
use phantom::pool::http1_pool::Http1Pool;
use phantom::pool::http2_connections::Http2Spread;
use phantom::pool::http2_keys::{Http2Keys, MAX_HTTP2_KEYS};
use phantom::pool::http2_pool::{Http2Entry, Http2Pool};
use phantom::pool::http3_pool::{
    Http3Entry, Http3Pool, Http3TransportTarget, TransportLocation,
};
use phantom::pool::key::{Http1ConnectionMode, Http2ConnectionMode, KeyMode, PoolKey};
use phantom::pool::negotiated::{
    Acquired, BeforeAdmission, EntryConnections, Http2Seen, PooledConnection,
};
use phantom::time::{Duration, Instant};
use phantom::timeout::{RequestTimeouts, TimeoutBudget};

type TestResult<T = ()> = Result<T, Box<dyn std::error::Error>>;

fn endpoint(authority: &str) -> TestResult<Endpoint> {
    Ok(Endpoint::parse(authority, 443).ok_or("bad authority")?)
}

fn key(host: &str) -> TestResult<PoolKey> {
    Ok(PoolKey::new(
        &endpoint(&format!("{host}:443"))?,
        &Route::Direct,
        KeyMode::Negotiated,
    ))
}

fn socks5(host: &str, port: u16) -> Route {
    Route::Socks5(Socks5Proxy {
        host: host.to_owned(),
        port,
        dns_mode: Socks5DnsMode::Local,
        credentials: None,
    })
}

fn http_proxy(host: &str, tls: bool, http2: bool, credentials: Option<Credentials>) -> Route {
    Route::HttpProxy(HttpProxy {
        host: host.to_owned(),
        port: 8080,
        tls,
        http2,
        credentials,
        connect_headers: vec![],
    })
}

// One exact HTTP/1.1 key.

#[test]
fn tests_per_origin_admission_survives_lru_eviction() -> TestResult {
    let mut pool = Http1Pool::new(1, 1, 1);
    let (first, second) = (endpoint("first.test:443")?, endpoint("second.test:443")?);
    let mode = Http1ConnectionMode::TlsOrigin;
    let key = |origin: &Endpoint| PoolKey::new(origin, &Route::Direct, KeyMode::Http1(mode));

    let entry = pool.entry(&first, &Route::Direct, mode);
    assert_eq!(pool.admissions.acquire(key(&first)), Admitted::Granted);
    let evicting = pool.entry(&second, &Route::Direct, mode);
    assert_eq!(evicting.evicted, Some(entry.id));
    let replacement = pool.entry(&first, &Route::Direct, mode);
    assert!(replacement.created);
    assert_ne!(replacement.id, entry.id);

    assert_eq!(pool.admissions.get(&key(&first)).available_active(), 0);
    pool.admissions.release(key(&first));
    assert_eq!(pool.admissions.get(&key(&first)).available_active(), 1);
    Ok(())
}

#[test]
fn pool_key_admits_as_many_requests_as_the_connection_bound() -> TestResult {
    let mut pool = Http1Pool::new(1, 6, 1);
    let origin = endpoint("origin.test:443")?;
    let mode = Http1ConnectionMode::TlsOrigin;
    assert!(pool.entry(&origin, &Route::Direct, mode).created);
    let key = PoolKey::new(&origin, &Route::Direct, KeyMode::Http1(mode));

    assert_eq!(pool.admissions.get(&key).available_active(), 6);
    assert_eq!(pool.max_active(), 6);
    assert_eq!((pool.capacity(), pool.max_pending()), (1, 1));
    Ok(())
}

fn reserve_http1(connections: &mut ConnectionSet) -> TestResult {
    let reusable = vec![true; connections.idle.len()];
    match connections.checkout(false, &reusable) {
        Checkout::Reserved => Ok(()),
        Checkout::Idle(_) => Err("an empty pool key leased an idle connection".into()),
    }
}

#[test]
fn returned_connection_is_leased_again_before_a_slot_is_reserved() -> TestResult {
    let mut connections = ConnectionSet::new(2);
    reserve_http1(&mut connections)?;
    connections.release(7, true, false);
    assert_eq!(connections.open(), 1);

    assert_eq!(connections.checkout(false, &vec![true]), Checkout::Idle(7));
    assert_eq!(connections.open(), 1);
    connections.release(7, true, false);
    assert_eq!(connections.open(), 1);
    Ok(())
}

#[test]
fn busy_connection_is_not_leased_to_a_second_request() -> TestResult {
    let mut connections = ConnectionSet::new(2);
    reserve_http1(&mut connections)?;
    reserve_http1(&mut connections).map_err(|_| "a busy connection was leased twice")?;
    assert_eq!(connections.open(), 2);
    Ok(())
}

#[test]
fn abandoned_connection_setup_frees_its_slot() -> TestResult {
    let mut connections = ConnectionSet::new(1);
    reserve_http1(&mut connections)?;
    assert_eq!(connections.open(), 1);

    connections.abandon();
    assert_eq!(connections.open(), 0);
    Ok(())
}

#[test]
fn retired_connection_is_not_returned_to_idle() -> TestResult {
    let mut connections = ConnectionSet::new(2);
    reserve_http1(&mut connections)?;
    connections.release(7, true, true);

    assert_eq!(connections.open(), 0);
    assert_eq!(connections.checkout(false, &vec![]), Checkout::Reserved);
    Ok(())
}

#[test]
fn closed_idle_connection_is_discarded_instead_of_leased() -> TestResult {
    let mut connections = ConnectionSet::new(2);
    reserve_http1(&mut connections)?;
    connections.release(7, true, false);

    assert_eq!(connections.checkout(false, &vec![false]), Checkout::Reserved);
    connections.abandon();
    assert_eq!(connections.open(), 0);
    Ok(())
}

#[test]
fn fresh_connection_below_the_bound_keeps_idle_connections() -> TestResult {
    let mut connections = ConnectionSet::new(2);
    reserve_http1(&mut connections)?;
    connections.release(7, true, false);

    assert_eq!(connections.checkout(true, &vec![true]), Checkout::Reserved);
    assert_eq!(connections.open(), 2);
    connections.abandon();
    assert_eq!(connections.open(), 1);
    Ok(())
}

#[test]
fn fresh_connection_at_the_bound_closes_an_idle_connection() -> TestResult {
    let mut connections = ConnectionSet::new(1);
    reserve_http1(&mut connections)?;
    connections.release(7, true, false);

    assert_eq!(connections.checkout(true, &vec![true]), Checkout::Reserved);
    assert_eq!(connections.open(), 1);
    connections.abandon();
    assert_eq!(connections.open(), 0);
    Ok(())
}

#[test]
fn the_most_recently_used_idle_connection_is_leased_first() {
    let mut connections = ConnectionSet::new(3);
    for connection in [1, 2, 3] {
        assert_eq!(
            connections.checkout(true, &vec![true; connections.idle.len()]),
            Checkout::Reserved
        );
        connections.release(connection, true, false);
    }
    // The middle one was closed by its server.
    let reusable = vec![true, false, true];
    assert_eq!(connections.checkout(false, &reusable), Checkout::Idle(3));
    assert_eq!(connections.idle, vec![1]);
}

// Admission.

#[test]
fn waiting_requests_run_as_others_end() {
    let mut admission = Admission::new(1, 1);
    assert_eq!(admission.acquire(), Admitted::Granted);
    assert!(!admission.try_acquire());
    assert_eq!(admission.acquire(), Admitted::Waiting);
    assert_eq!(admission.acquire(), Admitted::Refused);
    assert!(admission.release());
    assert_eq!((admission.active, admission.pending), (1, 0));
    assert_eq!(admission.acquire(), Admitted::Waiting);
    admission.withdraw();
    assert!(!admission.release());
    assert!(admission.try_acquire());
}

#[test]
fn a_refused_request_names_its_protocol() {
    let error = refusal(Admitted::Refused, Some(HttpProtocol::Http1));
    assert_eq!(
        error,
        Some(RequestError::new(
            RequestErrorKind::Capacity,
            Some(HttpProtocol::Http1)
        ))
    );
    assert_eq!(refusal(Admitted::Waiting, None), None);
}

// Negotiated keys.

/// The connections of a key that has never selected HTTP/2.
fn connections(max: usize) -> EntryConnections {
    EntryConnections::new(max, Http2Spread::new(1, usize::MAX), false)
}

/// Every HTTP/2 connection reusable, with no limit reported.
fn seen(connections: &EntryConnections) -> Vec<Http2Seen> {
    vec![
        Http2Seen {
            reusable: true,
            peer_limit: None,
        };
        connections.http2.len()
    ]
}

fn before(connections: &mut EntryConnections, expired: bool) -> BeforeAdmission {
    let seen = seen(connections);
    connections.before_admission(&seen, expired)
}

fn checkout(connections: &mut EntryConnections, force: bool, expired: bool) -> Acquired {
    let seen = seen(connections);
    let reusable = vec![true; connections.http1_idle.len()];
    connections.checkout(&seen, &reusable, force, expired)
}

fn reserve(connections: &mut EntryConnections) -> TestResult {
    match checkout(connections, false, false) {
        Acquired::Reserved => Ok(()),
        _ => Err("a pool key without a free connection found one".into()),
    }
}

/// A memory of its own.
struct Memory {
    keys: Http2Keys,
    key: PoolKey,
}

fn memory() -> TestResult<Memory> {
    Ok(Memory {
        keys: Http2Keys::new(),
        key: key("origin.test")?,
    })
}

fn finish(
    connections: &mut EntryConnections,
    memory: &mut Memory,
    connection: PooledConnection,
) -> (Acquired, Vec<u64>) {
    let seen = seen(connections);
    let finished = connections.finish(connection, &seen, &mut memory.keys, &memory.key);
    (finished.acquired, finished.closed)
}

fn current(connections: &mut EntryConnections) -> Option<u64> {
    let seen = seen(connections);
    connections.current_http2(&seen)
}

fn open_stream(connections: &mut EntryConnections) -> Option<u64> {
    let seen = seen(connections);
    connections.open_http2_stream(&seen)
}

#[test]
fn pre_selection_admission_survives_lru_eviction() -> TestResult {
    let mut pool = Http1Or2Pool::new(1, 1, 1, 1, 1, 1);
    let (first, second) = (endpoint("first.test:443")?, endpoint("second.test:443")?);
    let key = |origin: &Endpoint| PoolKey::new(origin, &Route::Direct, KeyMode::Negotiated);

    let entry = pool.entry(&first, &Route::Direct).entered;
    assert_eq!(
        pool.selection_admissions.acquire(key(&first)),
        Admitted::Granted
    );
    pool.entry(&second, &Route::Direct);
    let replacement = pool.entry(&first, &Route::Direct).entered;

    // A held permit keeps its count, so the recreated entry finds it.
    assert_ne!(entry.id, replacement.id);
    assert_eq!(
        pool.selection_admissions.get(&key(&first)).available_active(),
        0
    );
    pool.selection_admissions.release(key(&first));
    assert_eq!(
        pool.selection_admissions.get(&key(&first)).available_active(),
        1
    );
    Ok(())
}

#[test]
fn pool_key_admits_as_many_connection_slots_as_the_http1_bound() -> TestResult {
    let mut pool = Http1Or2Pool::new(1, 6, 1, 1, 1, 1);
    let origin = endpoint("origin.test:443")?;
    let entry = pool.entry(&origin, &Route::Direct);
    let key = PoolKey::new(&origin, &Route::Direct, KeyMode::Negotiated);

    let admission = pool
        .admission(&key, HttpProtocol::Http1)
        .map_err(|_| "no admission")?;
    assert_eq!(admission.available_active(), 6);
    assert_eq!(entry.connections.ok_or("no connections")?.max_http1, 6);
    // Before ALPN chooses, every request that may open a connection passes.
    assert_eq!(pool.selection_admissions.get(&key).available_active(), 6);
    // HTTP/3 is never negotiated here.
    assert_eq!(
        pool.admission(&key, HttpProtocol::Http3).err(),
        Some(RequestError::new(
            RequestErrorKind::ProtocolUnavailable,
            Some(HttpProtocol::Http3)
        ))
    );
    Ok(())
}

#[test]
fn unknown_protocol_reserves_parallel_setups_up_to_the_bound() -> TestResult {
    let mut connections = connections(2);
    let mut memory = memory()?;
    assert_eq!(
        before(&mut connections, false),
        BeforeAdmission::Admission(None)
    );
    reserve(&mut connections)?;
    // The first setup has not chosen a protocol, so the next request does not
    // wait for it.
    assert_eq!(
        before(&mut connections, false),
        BeforeAdmission::Admission(None)
    );
    reserve(&mut connections)?;
    assert_eq!(connections.counts(), (0, 0, 2));

    let (lease, _) = finish(&mut connections, &mut memory, PooledConnection::Http1(1));
    assert_eq!(lease, Acquired::Http1(1));
    assert_eq!(connections.counts(), (0, 1, 1));
    assert_eq!(
        before(&mut connections, false),
        BeforeAdmission::Admission(Some(HttpProtocol::Http1))
    );
    connections.release_http1(1, true, false);
    assert_eq!(connections.counts(), (1, 0, 1));
    connections.abandon();
    assert_eq!(connections.counts(), (1, 0, 0));
    Ok(())
}

#[test]
fn idle_http1_connection_is_leased_before_a_setup_is_reserved() -> TestResult {
    let mut connections = connections(2);
    let mut memory = memory()?;
    reserve(&mut connections)?;
    finish(&mut connections, &mut memory, PooledConnection::Http1(1));
    connections.release_http1(1, true, false);
    assert_eq!(connections.counts(), (1, 0, 0));

    assert_eq!(checkout(&mut connections, false, false), Acquired::Http1(1));
    assert_eq!(connections.counts(), (0, 1, 0));
    // A busy connection is not leased twice.
    reserve(&mut connections)?;
    assert_eq!(connections.counts(), (0, 1, 1));
    Ok(())
}

#[test]
fn fresh_connection_at_the_bound_closes_the_least_recently_used_idle_one() -> TestResult {
    let mut connections = connections(1);
    let mut memory = memory()?;
    reserve(&mut connections)?;
    finish(&mut connections, &mut memory, PooledConnection::Http1(1));
    connections.release_http1(1, true, false);
    assert_eq!(connections.counts(), (1, 0, 0));

    assert_eq!(checkout(&mut connections, true, false), Acquired::Reserved);
    assert_eq!(connections.counts(), (0, 0, 1));
    Ok(())
}

#[test]
fn retired_http1_connection_is_not_returned_to_idle() -> TestResult {
    let mut connections = connections(2);
    let mut memory = memory()?;
    reserve(&mut connections)?;
    finish(&mut connections, &mut memory, PooledConnection::Http1(1));
    connections.release_http1(1, true, true);
    assert_eq!(connections.counts(), (0, 0, 0));
    Ok(())
}

#[test]
fn a_key_never_has_more_connections_than_admitted_requests() {
    let mut admission = Admission::new(2, 4);
    let mut set = ConnectionSet::new(2);
    let mut leases: Vec<u64> = Vec::new();
    let mut next = 0;
    for round in 0..12_u32 {
        match admission.acquire() {
            Admitted::Granted => {
                let reusable = vec![true; set.idle.len()];
                match set.checkout(round % 3 == 0, &reusable) {
                    Checkout::Idle(number) => leases.push(number),
                    Checkout::Reserved => {
                        leases.push(next);
                        next += 1;
                    }
                }
            }
            Admitted::Waiting | Admitted::Refused => {
                let number = leases.remove(0);
                set.release(number, round % 2 == 0, false);
                while admission.pending > 0 {
                    admission.withdraw();
                }
                assert!(!admission.release());
            }
        }
        assert_eq!(leases.len(), admission.active);
        assert!(set.open() <= 2);
    }
}

#[test]
fn an_http1_connection_that_closed_meanwhile_is_not_returned_to_idle() -> TestResult {
    let mut set = ConnectionSet::new(2);
    reserve_http1(&mut set)?;
    set.release(7, false, false);
    assert_eq!(set.open(), 0);

    let mut connections = connections(2);
    let mut memory = memory()?;
    reserve(&mut connections)?;
    finish(&mut connections, &mut memory, PooledConnection::Http1(1));
    connections.release_http1(1, false, false);
    assert_eq!(connections.counts(), (0, 0, 0));
    Ok(())
}

#[test]
fn known_http2_key_waits_for_the_setup_in_flight() -> TestResult {
    let mut connections = connections(6);
    let mut memory = memory()?;
    reserve(&mut connections)?;
    let (lease, _) = finish(&mut connections, &mut memory, PooledConnection::Http2(1));
    assert_eq!(lease, Acquired::Http2);
    assert_eq!(current(&mut connections), Some(1));
    connections.invalidate_http2(1);
    assert!(current(&mut connections).is_none());

    // The key has selected H2, so one setup in flight holds back the rest.
    reserve(&mut connections)?;
    assert_eq!(before(&mut connections, false), BeforeAdmission::AwaitSetup);
    assert_eq!(checkout(&mut connections, false, false), Acquired::AwaitSetup);
    assert!(connections.setup_in_flight());

    let (lease, _) = finish(&mut connections, &mut memory, PooledConnection::Http2(2));
    assert_eq!(lease, Acquired::Http2);
    assert!(!connections.setup_in_flight());
    // The new connection replaced the invalidated one.
    assert_eq!(current(&mut connections), Some(2));
    assert_eq!(connections.http2.len(), 1);
    Ok(())
}

#[test]
fn failed_setup_releases_requests_waiting_for_it() -> TestResult {
    let mut connections = connections(6);
    let mut memory = memory()?;
    reserve(&mut connections)?;
    finish(&mut connections, &mut memory, PooledConnection::Http2(1));
    connections.invalidate_http2(1);

    reserve(&mut connections)?;
    assert!(connections.setup_in_flight());
    connections.abandon();
    assert!(!connections.setup_in_flight());
    assert_eq!(
        before(&mut connections, false),
        BeforeAdmission::Admission(None)
    );
    Ok(())
}

#[test]
fn second_http2_connection_is_closed_in_favor_of_the_current_one() -> TestResult {
    let mut connections = connections(6);
    let mut memory = memory()?;
    reserve(&mut connections)?;
    reserve(&mut connections)?;
    reserve(&mut connections)?;
    finish(&mut connections, &mut memory, PooledConnection::Http1(9));
    connections.release_http1(9, true, false);
    assert_eq!(connections.counts(), (1, 0, 2));

    let (lease, closed) = finish(&mut connections, &mut memory, PooledConnection::Http2(1));
    assert_eq!(lease, Acquired::Http2);
    assert_eq!(current(&mut connections), Some(1));
    // The new H2 connection carries the key; its idle H1 connection closes.
    assert_eq!(closed, vec![9]);
    assert_eq!(connections.counts(), (0, 0, 1));

    let (lease, closed) = finish(&mut connections, &mut memory, PooledConnection::Http2(2));
    assert_eq!(lease, Acquired::Http2);
    assert_eq!(closed, vec![2]);
    assert_eq!(current(&mut connections), Some(1));
    assert_eq!(connections.http2.len(), 1);
    assert_eq!(connections.counts(), (0, 0, 0));
    Ok(())
}

#[test]
fn negotiated_connections_are_never_shared_across_routes() -> TestResult {
    let mut pool = Http1Or2Pool::new(4, 4, 4, 4, 4, 4);
    let endpoint = endpoint("origin.test:443")?;
    let proxy = socks5("proxy.test", 1080);
    let other = socks5("other.test", 1080);

    let direct = pool.entry(&endpoint, &Route::Direct).entered;
    let proxied = pool.entry(&endpoint, &proxy).entered;
    let same_proxy = pool.entry(&endpoint, &proxy).entered;

    assert_ne!(direct.id, proxied.id);
    assert_eq!(proxied.id, same_proxy.id);
    assert!(!same_proxy.created);
    assert_ne!(proxied.id, pool.entry(&endpoint, &other).entered.id);
    Ok(())
}

#[test]
fn negotiated_connections_through_http_proxies_are_keyed_by_proxy() -> TestResult {
    let mut pool = Http1Or2Pool::new(8, 8, 8, 8, 8, 8);
    let endpoint = endpoint("origin.test:443")?;
    let routes = [
        Route::Direct,
        http_proxy("proxy.test", false, false, None),
        http_proxy("other.test", false, false, None),
        http_proxy("proxy.test", true, false, None),
        http_proxy("proxy.test", true, true, None),
        http_proxy(
            "proxy.test",
            false,
            false,
            Some(Credentials {
                username: "user".to_owned(),
                password: "secret".to_owned(),
            }),
        ),
        socks5("proxy.test", 8080),
    ];

    let mut entries = Vec::new();
    for route in &routes {
        entries.push(pool.entry(&endpoint, route).entered.id);
    }
    for (index, entry) in entries.iter().enumerate() {
        for other in &entries[index + 1..] {
            assert_ne!(entry, other);
        }
    }
    assert_eq!(entries[1], pool.entry(&endpoint, &routes[1]).entered.id);
    Ok(())
}

#[test]
fn http2_selection_is_remembered_beyond_the_pool_entry() -> TestResult {
    let mut pool = Http1Or2Pool::new(1, 6, 1, 1, 1, 1);
    let (first, second) = (endpoint("first.test:443")?, endpoint("second.test:443")?);

    let mut entry = pool
        .entry(&first, &Route::Direct)
        .connections
        .ok_or("no connections")?;
    reserve(&mut entry)?;
    let key = PoolKey::new(&first, &Route::Direct, KeyMode::Negotiated);
    entry.finish(
        PooledConnection::Http2(1),
        &vec![],
        &mut pool.http2_keys,
        &key,
    );
    // The single retained entry is evicted, then recreated.
    pool.entry(&second, &Route::Direct);
    let mut recreated = pool
        .entry(&first, &Route::Direct)
        .connections
        .ok_or("the evicted entry was found")?;

    // The new entry already knows the key selects H2, so a setup in flight
    // holds back the next request.
    reserve(&mut recreated)?;
    assert_eq!(before(&mut recreated, false), BeforeAdmission::AwaitSetup);
    // Another route to the same origin is still a first contact.
    let mut other_route = pool
        .entry(&first, &socks5("proxy.test", 1080))
        .connections
        .ok_or("no connections")?;
    reserve(&mut other_route)?;
    assert_eq!(
        before(&mut other_route, false),
        BeforeAdmission::Admission(None)
    );
    Ok(())
}

#[test]
fn http1_selection_does_not_forget_http2() -> TestResult {
    let mut connections = connections(6);
    let mut memory = memory()?;
    reserve(&mut connections)?;
    finish(&mut connections, &mut memory, PooledConnection::Http2(1));
    connections.invalidate_http2(1);
    reserve(&mut connections)?;
    finish(&mut connections, &mut memory, PooledConnection::Http1(2));

    reserve(&mut connections)?;
    assert_eq!(before(&mut connections, false), BeforeAdmission::AwaitSetup);
    Ok(())
}

#[test]
fn remembered_http2_keys_are_bounded_least_recently_used_first() -> TestResult {
    let mut keys = Http2Keys::new();
    let oldest = key("key-0.test")?;
    keys.insert(&oldest);
    for index in 1..MAX_HTTP2_KEYS {
        keys.insert(&key(&format!("key-{index}.test"))?);
    }
    // A lookup marks the oldest key recently used, so the next one goes.
    assert!(keys.contains(&oldest));
    keys.insert(&key("newest.test")?);
    assert!(keys.contains(&oldest));
    assert!(!keys.contains(&key("key-1.test")?));
    assert_eq!(keys.len(), MAX_HTTP2_KEYS);
    Ok(())
}

#[test]
fn full_http2_connections_open_another_up_to_the_limit() -> TestResult {
    // Two H2 connections per key, one stream each before a connection is full.
    let mut connections = EntryConnections::new(6, Http2Spread::new(2, 1), false);
    let mut memory = memory()?;
    reserve(&mut connections)?;
    finish(&mut connections, &mut memory, PooledConnection::Http2(1));
    assert_eq!(open_stream(&mut connections), Some(1));

    // The only connection is full, so the next requests open more rather
    // than wait for a stream.
    assert_eq!(
        before(&mut connections, false),
        BeforeAdmission::Admission(None)
    );
    reserve(&mut connections)?;
    // A third request would wait for that setup; this one's wait expired.
    assert_eq!(checkout(&mut connections, false, true), Acquired::Reserved);
    finish(&mut connections, &mut memory, PooledConnection::Http2(2));
    assert_eq!(connections.http2.len(), 2);
    assert_eq!(open_stream(&mut connections), Some(2));

    // Both are full at the limit: the key queues on the least loaded one and
    // closes the third connection when it selects H2.
    assert_eq!(before(&mut connections, false), BeforeAdmission::Http2);
    let (_, closed) = finish(&mut connections, &mut memory, PooledConnection::Http2(3));
    assert_eq!(closed, vec![3]);
    assert_eq!(connections.http2.len(), 2);

    // A finished stream frees its connection for the next one.
    connections.end_http2_stream(1);
    assert_eq!(open_stream(&mut connections), Some(1));
    Ok(())
}

#[test]
fn an_expired_setup_wait_opens_a_connection_instead() -> TestResult {
    let mut connections = connections(6);
    let mut memory = memory()?;
    reserve(&mut connections)?;
    finish(&mut connections, &mut memory, PooledConnection::Http2(1));
    connections.invalidate_http2(1);
    reserve(&mut connections)?;

    assert_eq!(
        before(&mut connections, true),
        BeforeAdmission::Admission(None)
    );
    assert_eq!(checkout(&mut connections, false, true), Acquired::Reserved);
    Ok(())
}

#[test]
fn setup_wait_ends_at_the_limit_only_when_one_is_set() -> TestResult {
    let origin = endpoint("origin.test:443")?;
    let start = Instant { nanos: 1_000 };
    let budget = TimeoutBudget::new(RequestTimeouts::new(), start)
        .map_err(|error| format!("{error:?}"))?;
    for limit in [Some(Duration::from_millis(20)), None] {
        let mut pool = Http1Or2Pool::new(6, 6, 6, 6, 6, 6).with_setup_wait_limit(limit);
        let entry = pool.entry(&origin, &Route::Direct);
        let mut connections = entry.connections.ok_or("the entry is new")?;
        let mut memory = memory()?;
        reserve(&mut connections)?;
        finish(&mut connections, &mut memory, PooledConnection::Http2(1));
        let selected = current(&mut connections).ok_or("no connection")?;
        connections.invalidate_http2(selected);
        reserve(&mut connections)?;
        assert_eq!(before(&mut connections, false), BeforeAdmission::AwaitSetup);

        let mut acquisition = Acquisition::new(false);
        let wait = acquisition
            .await_http2_setup(pool.limits.setup_wait_limit, budget, start)
            .map_err(|error| format!("{error:?}"))?;
        let later = start
            .checked_add(Duration::from_millis(500))
            .ok_or("the clock ended")?;
        match limit {
            // The limit passed while the setup was still in flight.
            Some(_) => assert_eq!(wait.poll(false, later), SetupPoll::LimitPassed),
            // Without a limit, the request still waits, as Firefox does.
            None => assert_eq!(wait.poll(false, later), SetupPoll::Pending),
        }
    }
    Ok(())
}

#[test]
fn a_full_http2_connection_still_counts_as_available() -> TestResult {
    // Two H2 connections per key, one stream each.
    let mut pool = Http1Or2Pool::new(6, 6, 6, 6, 1, 6).with_max_http2_connections(2);
    let origin = endpoint("origin.test:443")?;
    let mut memory = memory()?;
    let mut connections = pool
        .entry(&origin, &Route::Direct)
        .connections
        .ok_or("no connections")?;
    assert!(!pool.has_available_http2(&origin, &Route::Direct, current(&mut connections)));
    reserve(&mut connections)?;
    finish(&mut connections, &mut memory, PooledConnection::Http2(1));
    assert_eq!(open_stream(&mut connections), Some(1));

    // A new request would open another connection, yet WebSocket reuse and
    // the Alt-Svc race still see the key's H2 connection.
    assert_eq!(
        before(&mut connections, false),
        BeforeAdmission::Admission(None)
    );
    assert!(current(&mut connections).is_some());
    assert!(pool.has_available_http2(&origin, &Route::Direct, current(&mut connections)));
    Ok(())
}

// Exact HTTP/2 and HTTP/3 keys.

#[test]
fn http2_pool_per_origin_admission_survives_lru_eviction() -> TestResult {
    let mut pool = Http2Pool::new(1, 1, 1);
    let (first, second) = (endpoint("first.test:443")?, endpoint("second.test:443")?);
    let mode = Http2ConnectionMode::TlsOrigin;
    let key = |origin: &Endpoint| PoolKey::new(origin, &Route::Direct, KeyMode::Http2(mode));

    let entry = pool.entry(&first, &Route::Direct, mode);
    assert_eq!(pool.existing(&first, &Route::Direct), Some(entry.id));
    assert_eq!(pool.admissions.acquire(key(&first)), Admitted::Granted);
    pool.entry(&second, &Route::Direct, mode);
    assert_eq!(pool.existing(&first, &Route::Direct), None);
    pool.entry(&first, &Route::Direct, mode);

    assert_eq!(pool.admissions.get(&key(&first)).available_active(), 0);
    pool.admissions.release(key(&first));
    assert_eq!(pool.admissions.get(&key(&first)).available_active(), 1);
    Ok(())
}

#[test]
fn an_exact_http2_key_shares_one_connection_by_default() {
    let seen = |reusable| {
        vec![Http2Seen {
            reusable,
            peer_limit: None,
        }]
    };
    let mut entry = Http2Entry::new(Http2Spread::new(1, 100));
    assert_eq!(entry.acquire(&vec![]), None);
    entry.opened(7);
    assert_eq!(entry.acquire(&seen(true)), Some(7));
    assert_eq!(entry.slots[0].streams, 2);
    entry.end(7);
    assert_eq!(entry.slots[0].streams, 1);
    assert_eq!(entry.current_reusable(&seen(true)), Some(7));
    // A closed connection is replaced.
    assert_eq!(entry.acquire(&seen(false)), None);
    assert!(entry.slots.is_empty());
    entry.opened(8);
    entry.invalidate(7);
    assert_eq!(entry.slots.len(), 1);
    entry.invalidate(8);
    assert!(entry.slots.is_empty());
}

#[test]
fn http3_pool_per_origin_admission_survives_lru_eviction() -> TestResult {
    let mut pool = Http3Pool::new(1, 1, 1);
    let (first, second) = (endpoint("first.test:443")?, endpoint("second.test:443")?);
    let key = |origin: &Endpoint| PoolKey::new(origin, &Route::Direct, KeyMode::Http3);

    pool.entry(&first, &Route::Direct);
    assert_eq!(pool.admissions.acquire(key(&first)), Admitted::Granted);
    pool.entry(&second, &Route::Direct);
    assert!(pool.entry(&first, &Route::Direct).created);

    assert_eq!(pool.admissions.get(&key(&first)).available_active(), 0);
    pool.admissions.release(key(&first));
    assert_eq!(pool.admissions.get(&key(&first)).available_active(), 1);
    assert_eq!(
        (pool.capacity(), pool.max_active(), pool.max_pending()),
        (1, 1, 1)
    );
    Ok(())
}

#[test]
fn connect_turn_serializes_one_transport_location_only() -> TestResult {
    let endpoint = endpoint("origin.test:443")?;
    let mut entry = Http3Entry::new();
    let alternative = TransportLocation::new(&Http3TransportTarget::new("alt.test", 8443));
    let origin = TransportLocation::new(&Http3TransportTarget::for_origin(&endpoint));

    assert_eq!(entry.connect_turn(&alternative), Admitted::Granted);
    // Exact H3 to the origin location does not wait for the alternative.
    assert_eq!(entry.connect_turn(&origin), Admitted::Granted);
    // A second setup to the same location waits until the turn ends.
    assert_eq!(entry.connect_turn(&alternative), Admitted::Waiting);
    assert!(entry.end_turn(&alternative));

    assert!(!entry.end_turn(&origin));
    assert!(!entry.turns_are_free());
    assert!(!entry.end_turn(&alternative));
    assert!(entry.turns_are_free());
    Ok(())
}

#[test]
fn a_setup_that_gives_up_leaves_the_queue() {
    let mut entry = Http3Entry::new();
    let location = TransportLocation::new(&Http3TransportTarget::new("alt.test", 8443));
    assert_eq!(entry.connect_turn(&location), Admitted::Granted);
    assert_eq!(entry.connect_turn(&location), Admitted::Waiting);
    entry.leave_turn(&location);
    assert!(!entry.end_turn(&location));
    assert!(entry.turns_are_free());
}

#[test]
fn transport_location_is_separate_from_origin_pool_identity() -> TestResult {
    let endpoint = endpoint("origin.test:443")?;
    let key = PoolKey::new(&endpoint, &Route::Direct, KeyMode::Http3);
    let alternative = TransportLocation::new(&Http3TransportTarget::new("Alt.Test", 8443));
    let matching = TransportLocation::new(&Http3TransportTarget::new("alt.test", 8443));
    let origin = TransportLocation::new(&Http3TransportTarget::for_origin(&endpoint));

    assert_eq!(key, PoolKey::new(&endpoint, &Route::Direct, KeyMode::Http3));
    assert_eq!(alternative, matching);
    assert_ne!(alternative, origin);
    Ok(())
}

#[test]
fn an_entry_keeps_four_transport_locations() {
    let location =
        |port| TransportLocation::new(&Http3TransportTarget::new("alt.test", port));
    let mut entry = Http3Entry::new();
    for port in 1..=4 {
        entry.opened(&location(port), u64::from(port));
    }
    // A used location is not the one that leaves.
    assert_eq!(entry.take(&location(1), true), Some(1));
    entry.opened(&location(5), 5);
    assert_eq!(entry.kept(&location(1)), Some(1));
    assert_eq!(entry.kept(&location(2)), None);
    // A connection that cannot be reused is forgotten.
    assert_eq!(entry.take(&location(3), false), None);
    assert_eq!(entry.kept(&location(3)), None);
    entry.invalidate(5);
    assert_eq!(entry.kept(&location(5)), None);
    assert_eq!(entry.kept(&location(4)), Some(4));
}
