use phantom::pool::http2_connections::{Http2Load, Http2Spread};
use phantom::pool::http3_connections::{Candidate, Http3Spread};
use phantom::pool::spread::Choice;
use phantom::pool::stream_count::StreamCount;

fn candidate(peer_limit: Option<u64>, streams: usize) -> Candidate {
    Candidate {
        peer_limit,
        streams,
    }
}

#[test]
fn http3_connections_one_connection_takes_every_stream_by_default() {
    let spread = Http3Spread::new(1, 100);
    assert_eq!(spread.select(&vec![]), Choice::Open);
    // Past the server's limit, the single allowed connection still serves.
    assert_eq!(spread.select(&vec![candidate(Some(1), 3)]), Choice::Use(0));
    assert_eq!(spread.max_connections(), 1);
}

#[test]
fn a_saturated_connection_opens_another_up_to_the_limit() {
    let spread = Http3Spread::new(2, 100);
    assert_eq!(spread.select(&vec![candidate(Some(1), 0)]), Choice::Use(0));
    assert_eq!(spread.select(&vec![candidate(Some(1), 1)]), Choice::Open);
    assert_eq!(
        spread.select(&vec![candidate(Some(1), 1), candidate(Some(1), 0)]),
        Choice::Use(1)
    );
    // Both are full and the location is at its limit: the least loaded,
    // then the earliest, takes the stream.
    assert_eq!(
        spread.select(&vec![candidate(Some(1), 2), candidate(Some(1), 1)]),
        Choice::Use(1)
    );
    assert_eq!(
        spread.select(&vec![candidate(Some(1), 1), candidate(Some(1), 1)]),
        Choice::Use(0)
    );
}

#[test]
fn the_local_bound_caps_a_larger_server_limit() {
    let spread = Http3Spread::new(2, 2);
    assert_eq!(
        spread.select(&vec![candidate(Some(100), 1)]),
        Choice::Use(0)
    );
    assert_eq!(spread.select(&vec![candidate(Some(100), 2)]), Choice::Open);
}

#[test]
fn a_connection_before_its_handshake_uses_its_location_s_reported_limit() {
    let spread = Http3Spread::new(3, 100);
    // Nothing reported yet: the local bound applies.
    assert_eq!(spread.select(&vec![candidate(None, 50)]), Choice::Use(0));
    assert_eq!(
        spread.select(&vec![candidate(Some(2), 2), candidate(None, 1)]),
        Choice::Use(1)
    );
    assert_eq!(
        spread.select(&vec![candidate(Some(2), 2), candidate(None, 2)]),
        Choice::Open
    );
}

#[test]
fn a_zero_server_limit_counts_as_one_stream() {
    let spread = Http3Spread::new(2, 100);
    assert_eq!(spread.select(&vec![candidate(Some(0), 0)]), Choice::Use(0));
    assert_eq!(spread.select(&vec![candidate(Some(0), 1)]), Choice::Open);
}

fn load(streams: &StreamCount) -> Http2Load {
    Http2Load {
        peer_limit: None,
        streams: streams.get(),
    }
}

#[test]
fn http2_connections_one_connection_takes_every_stream_by_default() {
    let mut streams = StreamCount::new();
    let mut spread = Http2Spread::new(1, 2);
    assert_eq!(spread.select(&vec![]), Choice::Open);

    streams.open();
    streams.open();
    streams.open();
    // Past the local bound, the single allowed connection still serves.
    assert_eq!(spread.select(&vec![load(&streams)]), Choice::Use(0));
}

#[test]
fn a_full_connection_opens_another_up_to_the_limit() {
    let (mut first, mut second) = (StreamCount::new(), StreamCount::new());
    let mut spread = Http2Spread::new(2, 2);

    first.open();
    first.open();
    assert_eq!(spread.select(&vec![load(&first)]), Choice::Open);

    assert_eq!(
        spread.select(&vec![load(&first), load(&second)]),
        Choice::Use(1)
    );
    second.open();
    assert_eq!(
        spread.select(&vec![load(&first), load(&second)]),
        Choice::Use(1)
    );
    second.open();
    // Both are full and the key is at its limit: the least loaded, then
    // the oldest, takes the stream.
    assert_eq!(
        spread.select(&vec![load(&first), load(&second)]),
        Choice::Use(0)
    );
    first.end();
    first.end();
    assert_eq!(
        spread.select(&vec![load(&first), load(&second)]),
        Choice::Use(0)
    );
}

#[test]
fn an_http2_spread_remembers_the_last_reported_limit() {
    let mut spread = Http2Spread::new(2, 100);
    let reported = Http2Load {
        peer_limit: Some(1),
        streams: 1,
    };
    assert_eq!(spread.select(&vec![reported]), Choice::Open);
    assert_eq!(spread.learned_peer_limit, Some(1));
    // A later connection without settings of its own uses it.
    let silent = Http2Load {
        peer_limit: None,
        streams: 1,
    };
    assert_eq!(spread.select(&vec![silent]), Choice::Open);
}
