use phantom::alt_svc::https_records::{
    advertises_h3, lookup_outcome, result_ttl, tcp_ech, Discovery, HttpsAnswer, HttpsLookup,
    HttpsRecord, HttpsRecordDiscovery,
};
use phantom::endpoint::Endpoint;
use phantom::time::{Duration, Instant};

type TestResult<T> = Result<T, Box<dyn std::error::Error>>;

const HOST: &str = "origin.test";
const OWNER: &str = "_8443._https.origin.test";

fn rdata(priority: u16, target: &[&str], params: &[(u16, &[u8])]) -> Vec<u8> {
    let mut bytes = priority.to_be_bytes().to_vec();
    for label in target {
        bytes.push(u8::try_from(label.len()).unwrap_or(u8::MAX));
        bytes.extend_from_slice(label.as_bytes());
    }
    bytes.push(0);
    for (key, value) in params {
        bytes.extend_from_slice(&key.to_be_bytes());
        bytes.extend_from_slice(&u16::try_from(value.len()).unwrap_or(u16::MAX).to_be_bytes());
        bytes.extend_from_slice(value);
    }
    bytes
}

fn answer(bytes: &[u8], ttl: u32) -> TestResult<HttpsAnswer> {
    Ok(HttpsAnswer {
        owner: OWNER.to_owned(),
        ttl,
        record: HttpsRecord::from_rdata(bytes).ok_or("malformed record data")?,
    })
}

fn answers(records: &[Vec<u8>], ttl: u32) -> TestResult<Vec<HttpsAnswer>> {
    records.iter().map(|bytes| answer(bytes, ttl)).collect()
}

fn advertises(records: &[Vec<u8>]) -> TestResult<bool> {
    Ok(advertises_h3(&answers(records, 300)?, &HOST.to_owned(), 8443))
}

const H3: (u16, &[u8]) = (1, b"\x02h3");

#[test]
fn service_record_listing_h3_for_the_origin_advertises_it() -> TestResult<()> {
    assert!(advertises(&[rdata(1, &[], &[H3])])?);
    assert!(advertises(&[rdata(1, &["Origin", "Test"], &[H3])])?);
    assert!(advertises(&[rdata(
        1,
        &["_8443", "_https", "origin", "test"],
        &[H3]
    )])?);
    assert!(advertises(&[rdata(
        1,
        &[],
        &[H3, (3, &8443_u16.to_be_bytes())]
    )])?);
    // Any kept record may carry h3, whatever its priority.
    assert!(advertises(&[
        rdata(1, &[], &[(1, b"\x02h2")]),
        rdata(2, &[], &[H3]),
    ])?);
    Ok(())
}

#[test]
fn records_chromium_ignores_do_not_advertise_h3() -> TestResult<()> {
    let cases = [
        ("no h3", vec![rdata(1, &[], &[(1, b"\x02h2")])]),
        ("no records", vec![]),
        (
            "an alias record hides every record",
            vec![rdata(0, &["cdn", "test"], &[]), rdata(1, &[], &[H3])],
        ),
        ("another target", vec![rdata(1, &["cdn", "test"], &[H3])]),
        (
            "another port",
            vec![rdata(1, &[], &[H3, (3, &443_u16.to_be_bytes())])],
        ),
        (
            "an unsupported mandatory key",
            vec![rdata(1, &[], &[(0, &[0, 7]), H3, (7, b"x")])],
        ),
        (
            "every record sets no-default-alpn",
            vec![rdata(1, &[], &[H3, (2, b"")])],
        ),
    ];
    for (name, records) in cases {
        assert!(!advertises(&records)?, "{name}");
    }
    // One record without no-default-alpn keeps the others.
    assert!(advertises(&[
        rdata(1, &[], &[H3, (2, b"")]),
        rdata(2, &[], &[(1, b"\x02h2")]),
    ])?);
    // A supported mandatory key keeps the record.
    assert!(advertises(&[rdata(1, &[], &[(0, &[0, 1]), H3])])?);
    Ok(())
}

fn endpoint(authority: &str) -> TestResult<Endpoint> {
    Ok(Endpoint::parse(authority, 443).ok_or("bad authority")?)
}

fn at(seconds: u128) -> Instant {
    Instant {
        nanos: seconds * 1_000_000_000,
    }
}

/// What a server that answers every query with one `h3` record finds.
fn found(ttl: u32) -> TestResult<HttpsLookup> {
    Ok(HttpsLookup {
        answers: answers(&[rdata(1, &[], &[H3])], ttl)?,
        negative_ttl: None,
    })
}

/// Runs the lookup that an uncached origin needs, counting queries.
fn settle(
    discovery: &mut HttpsRecordDiscovery,
    origin: &Endpoint,
    lookup: Option<&HttpsLookup>,
    queries: &mut usize,
    now: Instant,
) -> TestResult<bool> {
    match discovery.discover(origin, true, now) {
        Discovery::Pending { lookup: number, start } => {
            if start {
                *queries += 1;
            }
            let (advertises, ttl) = lookup_outcome(lookup, &HOST.to_owned(), 8443);
            discovery.complete(origin, number, advertises, ttl, now);
            Ok(advertises)
        }
        Discovery::Advertised => Ok(true),
        Discovery::NotAdvertised => Ok(false),
    }
}

#[test]
fn concurrent_requests_share_one_lookup_and_reuse_its_result() -> TestResult<()> {
    let lookup = found(300)?;
    let mut discovery = HttpsRecordDiscovery::new(4);
    let origin = endpoint("origin.test:8443")?;
    let now = at(1);

    let first = discovery.discover(&origin, true, now);
    let second = discovery.discover(&origin, true, now);
    let (
        Discovery::Pending { lookup: one, start: true },
        Discovery::Pending { lookup: two, start: false },
    ) = (first, second)
    else {
        return Err("an uncached origin did not start a lookup".into());
    };
    assert_eq!(one, two);
    let (advertises, ttl) = lookup_outcome(Some(&lookup), &HOST.to_owned(), 8443);
    assert!(advertises);
    discovery.complete(&origin, one, advertises, ttl, now);
    assert!(matches!(
        discovery.discover(&origin, true, now),
        Discovery::Advertised
    ));
    Ok(())
}

#[test]
fn expired_results_are_looked_up_again() -> TestResult<()> {
    let lookup = found(0)?;
    let mut discovery = HttpsRecordDiscovery::new(4);
    let origin = endpoint("origin.test:8443")?;
    let mut queries = 0;
    assert!(settle(&mut discovery, &origin, Some(&lookup), &mut queries, at(1))?);
    assert!(matches!(
        discovery.discover(&origin, true, at(1)),
        Discovery::Pending { start: true, .. }
    ));
    Ok(())
}

#[test]
fn cache_holds_at_most_its_capacity() -> TestResult<()> {
    let lookup = found(300)?;
    let mut discovery = HttpsRecordDiscovery::new(1);
    let first = endpoint("origin.test:8443")?;
    let second = endpoint("other.test")?;
    let mut queries = 0;
    assert!(settle(&mut discovery, &first, Some(&lookup), &mut queries, at(1))?);
    assert!(settle(&mut discovery, &second, Some(&lookup), &mut queries, at(1))?);
    assert_eq!(discovery.len(), 1);
    // The first origin was evicted, so it is queried again.
    assert!(settle(&mut discovery, &first, Some(&lookup), &mut queries, at(1))?);
    assert_eq!(queries, 3);
    Ok(())
}

#[test]
fn failed_lookup_is_remembered_as_no_advertisement() -> TestResult<()> {
    let mut discovery = HttpsRecordDiscovery::new(4);
    let origin = endpoint("origin.test:8443")?;
    let mut queries = 0;
    assert!(!settle(&mut discovery, &origin, None, &mut queries, at(1))?);
    assert_eq!(queries, 1);
    assert!(matches!(
        discovery.discover(&origin, true, at(1)),
        Discovery::NotAdvertised
    ));
    // A failure is forgotten after a minute.
    assert!(matches!(
        discovery.discover(&origin, true, at(60)),
        Discovery::NotAdvertised
    ));
    assert!(matches!(
        discovery.discover(&origin, true, at(61)),
        Discovery::Pending { start: true, .. }
    ));
    Ok(())
}

#[test]
fn ip_literal_origins_are_never_queried() -> TestResult<()> {
    let mut discovery = HttpsRecordDiscovery::new(4);
    for authority in ["127.0.0.1:8443", "[::1]:8443"] {
        assert!(matches!(
            discovery.discover(&endpoint(authority)?, true, at(1)),
            Discovery::NotAdvertised
        ));
    }
    assert_eq!(discovery.len(), 0);
    Ok(())
}

fn ech(records: &[Vec<u8>]) -> TestResult<Option<Vec<u8>>> {
    let alpn = vec![b"h2".to_vec(), b"http/1.1".to_vec()];
    Ok(tcp_ech(&answers(records, 300)?, &HOST.to_owned(), 8443, &alpn))
}

const ECH_A: (u16, &[u8]) = (5, b"\x00\x01\xaa");
const ECH_B: (u16, &[u8]) = (5, b"\x00\x01\xbb");
const H2: (u16, &[u8]) = (1, b"\x02h2");
const NO_DEFAULT_ALPN: (u16, &[u8]) = (2, b"");

#[test]
fn tcp_uses_the_ech_of_the_first_record_by_priority() -> TestResult<()> {
    let records = [rdata(2, &[], &[H2, ECH_B]), rdata(1, &[], &[H2, ECH_A])];
    assert_eq!(ech(&records)?.as_deref(), Some(&b"\x00\x01\xaa"[..]));
    Ok(())
}

#[test]
fn a_first_record_without_ech_means_no_ech() -> TestResult<()> {
    let records = [rdata(1, &[], &[H2]), rdata(2, &[], &[H2, ECH_A])];
    assert_eq!(ech(&records)?, None);
    Ok(())
}

#[test]
fn records_tcp_cannot_use_are_skipped() -> TestResult<()> {
    // HTTP/3 only: no `h2`, and `no-default-alpn` drops `http/1.1`.
    let quic_only = rdata(1, &[], &[H3, NO_DEFAULT_ALPN, ECH_B]);
    let records = [quic_only, rdata(2, &[], &[H2, ECH_A])];
    assert_eq!(ech(&records)?.as_deref(), Some(&b"\x00\x01\xaa"[..]));
    Ok(())
}

#[test]
fn records_chromium_ignores_carry_no_ech() -> TestResult<()> {
    let alias = rdata(0, &["elsewhere", "test"], &[]);
    assert_eq!(ech(&[alias, rdata(1, &[], &[H2, ECH_A])])?, None);
    let other_port = rdata(1, &[], &[H2, (3, b"\x00\x01"), ECH_A]);
    assert_eq!(ech(&[other_port])?, None);
    let other_target = rdata(1, &["cdn", "test"], &[H2, ECH_A]);
    assert_eq!(ech(&[other_target])?, None);
    Ok(())
}

#[test]
fn a_result_keeps_its_lowest_ttl_for_a_day_at_most() -> TestResult<()> {
    let mut both = answers(&[rdata(1, &[], &[H3])], 300)?;
    both.extend(answers(&[rdata(2, &[], &[H2])], 30)?);
    let lookup = HttpsLookup { answers: both, negative_ttl: Some(7) };
    assert_eq!(result_ttl(&lookup), Duration::from_secs(30));
    assert_eq!(result_ttl(&found(200_000)?), Duration::from_secs(86_400));
    let empty = HttpsLookup { answers: vec![], negative_ttl: Some(7) };
    assert_eq!(result_ttl(&empty), Duration::from_secs(7));
    let untimed = HttpsLookup { answers: vec![], negative_ttl: None };
    assert_eq!(result_ttl(&untimed), Duration::from_secs(60));
    Ok(())
}

#[test]
fn malformed_record_data_is_refused() {
    assert!(HttpsRecord::from_rdata(&[]).is_none());
    assert!(HttpsRecord::from_rdata(&[0]).is_none());
    // A label that runs past the end.
    assert!(HttpsRecord::from_rdata(&[0, 1, 5, b'a']).is_none());
    // Parameters out of order.
    let disordered = rdata(1, &[], &[(3, &[1, 187]), H3]);
    assert!(HttpsRecord::from_rdata(&disordered).is_none());
    // Without a runtime nothing is started.
    let mut discovery = HttpsRecordDiscovery::new(1);
    let origin = Endpoint::new("origin.test", "origin.test", 443);
    assert!(matches!(
        discovery.discover(&origin, false, at(1)),
        Discovery::NotAdvertised
    ));
    assert_eq!(discovery.capacity(), 1);
}
