//! How requests are admitted and which connection each uses.

use vstd::prelude::*;
use crate::endpoint::HttpProtocol;
use crate::error::RequestErrorKind;
use crate::pool::admission::{refused_with, Admission, Admitted};
use crate::pool::connection_set::{retained, returned, Checkout, ConnectionSetView};
use crate::pool::http1_or_2_pool::{Http1Or2Pool, NegotiatedLimits};
use crate::pool::http2_connections::{learned, Http2Load, Http2Spread};
use crate::pool::http2_keys::MAX_HTTP2_KEYS;
use crate::pool::http2_pool::Http2EntryView;
use crate::pool::http3_connections::{reported, Candidate, Http3Spread};
use crate::pool::http3_pool::MAX_TRANSPORT_LOCATIONS_PER_ENTRY;
use crate::pool::key::PoolKeyView;
use crate::pool::negotiated::{
    ended, less_one, live, loads, Acquired, BeforeAdmission, ConnectionsView, Http2Seen, Http2Slot,
};
use crate::pool::spread::{choice, eligible, least, lemma_choice, lemma_some_least, Choice};

verus! {

/// A request runs while fewer than the bound run, waits while fewer than the
/// other bound wait, and is refused for want of capacity otherwise.
pub proof fn a_request_runs_waits_or_is_refused(
    admission: Admission,
    protocol: Option<HttpProtocol>,
)
    requires
        admission.wf(),
    ensures
        ({
            let (after, admitted) = admission.admitted();
            &&& admission.active < admission.max_active ==> admitted == Admitted::Granted
                && after.active == admission.active + 1 && after.pending == admission.pending
            &&& admission.active == admission.max_active && admission.pending
                < admission.max_pending ==> admitted == Admitted::Waiting && after.active
                == admission.active && after.pending == admission.pending + 1
            &&& admission.active == admission.max_active && admission.pending
                == admission.max_pending ==> admitted == Admitted::Refused && after == admission
            &&& after.max_active == admission.max_active && after.max_pending
                == admission.max_pending
            &&& admitted == Admitted::Refused ==> (refused_with(admitted, protocol) matches Some(
                error,
            ) && error.kind == RequestErrorKind::Capacity && error.protocol == protocol)
            &&& admitted != Admitted::Refused ==> refused_with(admitted, protocol) is None
        }),
{
}

/// A request that ends lets one that waits run in its place, or else leaves
/// room; one that stops waiting leaves a place to wait.
pub proof fn a_request_that_ends_leaves_its_place(admission: Admission)
    requires
        admission.wf(),
        admission.active > 0,
    ensures
        ({
            let (after, next) = admission.released();
            &&& next == (admission.pending > 0)
            &&& next ==> after.active == admission.active && after.pending == admission.pending - 1
            &&& !next ==> after.active == admission.active - 1 && after.pending == 0
            &&& admission.pending > 0 ==> admission.withdrawn().pending == admission.pending - 1
                && admission.withdrawn().active == admission.active
        }),
{
}

/// Whether a connection is the least loaded of some: no other of them has
/// fewer streams, and none before it as few.
pub open spec fn fewest(streams: Seq<usize>, some: spec_fn(int) -> bool, i: int) -> bool {
    &&& 0 <= i < streams.len()
    &&& some(i)
    &&& forall|j: int| 0 <= j < streams.len() && some(j) ==> streams[i] <= #[trigger] streams[j]
    &&& forall|j: int| 0 <= j < i && some(j) ==> streams[i] < #[trigger] streams[j]
}

/// A stream goes to the least loaded connection with room, the earliest at a
/// tie; with none, another connection opens below the limit, and at the limit
/// the least loaded one takes it.
pub proof fn a_stream_goes_to_the_least_loaded_connection(
    streams: Seq<usize>,
    rooms: Seq<usize>,
    limit: usize,
)
    requires
        streams.len() == rooms.len(),
        streams.len() <= usize::MAX,
    ensures
        match choice(streams, rooms, limit) {
            Choice::Use(i) => if exists|j: int|
                0 <= j < streams.len() && #[trigger] streams[j] < rooms[j] {
                fewest(streams, |j: int| streams[j] < rooms[j], i as int)
            } else {
                streams.len() >= limit && fewest(streams, |j: int| true, i as int)
            },
            Choice::Open => (streams.len() < limit || streams.len() == 0) && forall|j: int|
                0 <= j < streams.len() ==> #[trigger] streams[j] >= rooms[j],
        },
{
    let roomy = |j: int| streams[j] < rooms[j];
    let any = |j: int| true;
    if exists|j: int| 0 <= j < streams.len() && #[trigger] streams[j] < rooms[j] {
        let j = choose|j: int| 0 <= j < streams.len() && #[trigger] streams[j] < rooms[j];
        assert(eligible(streams, rooms, false, j));
        lemma_some_least(streams, rooms, false, streams.len() as int, j);
        let i = choose|i: int| least(streams, rooms, false, i);
        assert(fewest(streams, roomy, i));
    } else {
        assert forall|i: int| !least(streams, rooms, false, i) by {
            if least(streams, rooms, false, i) {
                assert(streams[i] < rooms[i]);
            }
        }
        if streams.len() >= limit && streams.len() > 0 {
            assert(eligible(streams, rooms, true, 0));
            lemma_some_least(streams, rooms, true, streams.len() as int, 0);
            let i = choose|i: int| least(streams, rooms, true, i);
            assert(fewest(streams, any, i));
        }
    }
}

/// An HTTP/2 connection has room for as many streams as the client allows and
/// its peer does; without a word from the peer, as many as another peer of
/// the key said last.
pub proof fn an_http2_connection_has_the_room_its_peer_allows(
    spread: Http2Spread,
    connections: Seq<Http2Load>,
    i: int,
)
    requires
        0 <= i < connections.len(),
    ensures
        ({
            let room = spread.room(connections, i);
            &&& room <= spread.local_streams
            &&& connections[i].peer_limit matches Some(limit) ==> room <= limit && (room == limit
                || room == spread.local_streams)
            &&& (forall|j: int|
                0 <= j <= i ==> (#[trigger] connections[j]).peer_limit is None)
                && spread.learned_peer_limit is None ==> room == spread.local_streams
            &&& (forall|j: int|
                0 <= j <= i ==> (#[trigger] connections[j]).peer_limit is None) ==> (
            spread.learned_peer_limit matches Some(limit) ==> room <= limit && (room == limit
                || room == spread.local_streams))
        }),
        (forall|j: int|
            0 <= j < connections.len() ==> (#[trigger] connections[j]).peer_limit is None)
            ==> spread.after(connections) == spread,
        connections.last().peer_limit is Some ==> spread.after(connections).learned_peer_limit
            == connections.last().peer_limit,
{
    let first = connections.take(i + 1);
    assert(first.last() == connections[i]);
    lemma_none_learned(first, spread.learned_peer_limit);
    lemma_none_learned(connections, spread.learned_peer_limit);
    if forall|j: int| 0 <= j <= i ==> (#[trigger] connections[j]).peer_limit is None {
        assert forall|j: int| 0 <= j < first.len() implies (#[trigger] first[j]).peer_limit is None by {
            assert(first[j] == connections[j]);
        }
    }
}

proof fn lemma_none_learned(connections: Seq<Http2Load>, earlier: Option<usize>)
    ensures
        (forall|j: int|
            0 <= j < connections.len() ==> (#[trigger] connections[j]).peer_limit is None)
            ==> learned(connections, earlier) == earlier,
    decreases connections.len(),
{
    if connections.len() > 0 && (forall|j: int|
        0 <= j < connections.len() ==> (#[trigger] connections[j]).peer_limit is None) {
        let front = connections.drop_last();
        assert forall|j: int| 0 <= j < front.len() implies (#[trigger] front[j]).peer_limit is None by {
            assert(front[j] == connections[j]);
        }
        lemma_none_learned(front, earlier);
        assert(connections[connections.len() - 1].peer_limit is None);
    }
}

/// An HTTP/3 connection has room for as many streams as the client allows and
/// its server does, where a limit of none counts as one.
pub proof fn an_http3_connection_has_the_room_its_server_allows(
    spread: Http3Spread,
    candidates: Seq<Candidate>,
    i: int,
)
    requires
        0 <= i < candidates.len(),
        spread.local_streams > 0,
    ensures
        ({
            let room = spread.room(candidates, i);
            &&& 0 < room <= spread.local_streams
            &&& candidates[i].peer_limit matches Some(limit) ==> {
                &&& limit > 0 ==> room <= limit
                &&& limit == 0 ==> room == 1
                &&& limit >= spread.local_streams && limit > 0 ==> room == spread.local_streams
                &&& 0 < limit <= spread.local_streams ==> room == limit
            }
            &&& (forall|j: int|
                0 <= j < candidates.len() ==> (#[trigger] candidates[j]).peer_limit is None)
                ==> room == spread.local_streams
        }),
{
    lemma_reported(candidates);
}

proof fn lemma_reported(candidates: Seq<Candidate>)
    ensures
        (forall|j: int|
            0 <= j < candidates.len() ==> (#[trigger] candidates[j]).peer_limit is None)
            ==> reported(candidates) is None,
        reported(candidates) matches Some(limit) ==> limit > 0,
    decreases candidates.len(),
{
    if candidates.len() > 0 {
        let front = candidates.drop_last();
        lemma_reported(front);
        if forall|j: int|
            0 <= j < candidates.len() ==> (#[trigger] candidates[j]).peer_limit is None {
            assert forall|j: int| 0 <= j < front.len() implies (
            #[trigger] front[j]).peer_limit is None by {
                assert(front[j] == candidates[j]);
            }
            assert(candidates[candidates.len() - 1].peer_limit is None);
        }
    }
}

/// The choice of a key's connections goes by the streams that each of them
/// has and the room that each has for more.
pub proof fn a_key_chooses_by_streams_and_rooms(
    http2: Http2Spread,
    connections: Seq<Http2Load>,
    http3: Http3Spread,
    candidates: Seq<Candidate>,
    i: int,
)
    ensures
        ({
            let streams = Seq::new(connections.len(), |k: int| connections[k].streams);
            http2.chosen(connections) == choice(
                streams,
                http2.rooms(connections),
                http2.max_connections,
            )
        }),
        ({
            let streams = Seq::new(candidates.len(), |k: int| candidates[k].streams);
            http3.chosen(candidates) == choice(
                streams,
                http3.rooms(candidates),
                http3.max_connections,
            )
        }),
        0 <= i < connections.len() ==> http2.rooms(connections)[i] == http2.room(connections, i),
        0 <= i < candidates.len() ==> http3.rooms(candidates)[i] == http3.room(candidates, i),
        http2.rooms(connections).len() == connections.len(),
        http3.rooms(candidates).len() == candidates.len(),
{
    assert(connections.map_values(|connection: Http2Load| connection.streams) =~= Seq::new(
        connections.len(),
        |k: int| connections[k].streams,
    ));
    assert(candidates.map_values(|candidate: Candidate| candidate.streams) =~= Seq::new(
        candidates.len(),
        |k: int| candidates[k].streams,
    ));
}

/// Only connections that take new streams count, in order, with their own
/// streams and limits.
pub proof fn only_reusable_connections_count(
    slots: Seq<Http2Slot>,
    seen: Seq<Http2Seen>,
    slot: Http2Slot,
    look: Http2Seen,
)
    requires
        slots.len() == seen.len(),
    ensures
        live(slots.push(slot), seen.push(look)) == (if look.reusable {
            live(slots, seen).push(slot)
        } else {
            live(slots, seen)
        }),
        loads(slots.push(slot), seen.push(look)) == (if look.reusable {
            loads(slots, seen).push(
                Http2Load { peer_limit: look.peer_limit, streams: slot.streams },
            )
        } else {
            loads(slots, seen)
        }),
        live(Seq::empty(), Seq::empty()).len() == 0,
        loads(Seq::empty(), Seq::empty()).len() == 0,
{
    assert(slots.push(slot).drop_last() =~= slots);
    assert(seen.push(look).drop_last() =~= seen);
}

/// A stream that ends is one less on its own connection.
pub proof fn a_stream_ends_on_its_connection(slots: Seq<Http2Slot>, connection: u64, i: int)
    requires
        0 <= i < slots.len(),
    ensures
        ended(slots, connection).len() == slots.len(),
        ended(slots, connection)[i].connection == slots[i].connection,
        slots[i].connection != connection ==> ended(slots, connection)[i] == slots[i],
        slots[i].connection == connection && slots[i].streams > 0 ==> ended(
            slots,
            connection,
        )[i].streams == slots[i].streams - 1,
{
}

/// A request takes a stream of the connection that is chosen, which has one
/// more then, or opens one.
pub proof fn a_request_takes_a_stream_of_the_chosen_connection(
    entry: Http2EntryView,
    seen: Seq<Http2Seen>,
    j: int,
)
    requires
        entry.slots.len() == seen.len(),
        entry.slots.len() <= usize::MAX,
        forall|i: int| 0 <= i < entry.slots.len() ==> (#[trigger] entry.slots[i]).streams < usize::MAX,
    ensures
        ({
            let (after, taken) = entry.acquired(seen);
            let before = live(entry.slots, seen);
            match entry.choice(seen) {
                Choice::Use(i) => {
                    &&& i < before.len()
                    &&& taken == Some(before[i as int].connection)
                    &&& after.slots.len() == before.len()
                    &&& after.slots[i as int].connection == before[i as int].connection
                    &&& after.slots[i as int].streams == before[i as int].streams + 1
                    &&& 0 <= j < before.len() && j != i ==> after.slots[j] == before[j]
                },
                Choice::Open => taken is None && after.slots == before,
            }
        }),
        entry.choice(seen) == entry.spread.chosen(loads(entry.slots, seen)),
{
    crate::pool::negotiated::lemma_live(entry.slots, seen);
    let list = loads(entry.slots, seen);
    let counts = list.map_values(|connection: Http2Load| connection.streams);
    lemma_choice(counts, entry.spread.rooms(list), entry.spread.max_connections);
    crate::pool::negotiated::lemma_room(entry.slots, seen);
}

/// What a lease gives back is idle again exactly when it can be reused and
/// was not retired, and then it is the most recently used.
pub proof fn a_lease_gives_back_what_can_be_reused(
    set: ConnectionSetView,
    connection: u64,
    reusable: bool,
    retired: bool,
)
    requires
        set.leased > 0,
    ensures
        ({
            let after = set.released(returned(connection, reusable, retired));
            &&& after.leased == set.leased - 1
            &&& reusable && !retired ==> after.idle == set.idle.push(connection)
            &&& !reusable || retired ==> after.idle == set.idle
            &&& after.max == set.max
        }),
{
}

/// Of the idle connections those that can be reused stay, in order.
pub proof fn reusable_connections_stay_in_order(
    connections: Seq<u64>,
    flags: Seq<bool>,
    connection: u64,
    flag: bool,
)
    requires
        connections.len() == flags.len(),
    ensures
        retained(connections.push(connection), flags.push(flag)) == (if flag {
            retained(connections, flags).push(connection)
        } else {
            retained(connections, flags)
        }),
        retained(Seq::empty(), Seq::empty()).len() == 0,
{
    assert(connections.push(connection).drop_last() =~= connections);
    assert(flags.push(flag).drop_last() =~= flags);
}

/// A request takes the most recently used idle connection that can be
/// reused, or opens one where there is none; one that needs a fresh
/// connection opens one and, at the bound, the least recently used idle one
/// goes for it.
pub proof fn a_request_takes_the_most_recently_used_connection(
    set: ConnectionSetView,
    force: bool,
    reusable: Seq<bool>,
)
    ensures
        ({
            let idle = retained(set.idle, reusable);
            let (after, taken) = set.checked_out(force, reusable);
            &&& after.leased == set.leased + 1
            &&& after.max == set.max
            &&& !force && idle.len() > 0 ==> taken == Checkout::Idle(idle[idle.len() - 1])
                && after.idle == idle.take(idle.len() - 1)
            &&& !force && idle.len() == 0 ==> taken == Checkout::Reserved && after.idle.len() == 0
            &&& force ==> taken == Checkout::Reserved
            &&& force && idle.len() + set.leased < set.max ==> after.idle == idle
            &&& force && idle.len() + set.leased >= set.max && idle.len() > 0 ==> after.idle
                == idle.subrange(1, idle.len() as int)
        }),
{
    let idle = retained(set.idle, reusable);
    if idle.len() > 0 {
        assert(idle.drop_last() =~= idle.take(idle.len() - 1));
        assert(idle.skip(1) =~= idle.subrange(1, idle.len() as int));
    }
}

/// What a request can do at a key: use HTTP/2 where a connection takes it,
/// wait for a setup where the key selected HTTP/2 before and has one under
/// way, and take a slot otherwise, of HTTP/1.1 where the key has such
/// connections.
pub proof fn a_request_asks_for_what_its_key_has(
    connections: ConnectionsView,
    seen: Seq<Http2Seen>,
    expired: bool,
)
    ensures
        ({
            let asks = connections.before(seen, expired);
            let http2 = connections.spread.chosen(loads(connections.http2, seen)) is Use;
            let waits = connections.selected_http2 && connections.connecting > 0 && !expired;
            &&& http2 ==> asks == BeforeAdmission::Http2
            &&& !http2 && waits ==> asks == BeforeAdmission::AwaitSetup
            &&& !http2 && !waits && connections.http1_idle.len() + connections.http1_leased > 0
                ==> asks == BeforeAdmission::Admission(Some(HttpProtocol::Http1))
            &&& !http2 && !waits && connections.http1_idle.len() + connections.http1_leased == 0
                ==> asks == BeforeAdmission::Admission(None)
        }),
{
}

/// What a request with a slot takes: HTTP/2 or a wait as before, else the
/// most recently used idle HTTP/1.1 connection that can be reused, else it
/// sets one up, which counts as under way. One that needs a fresh connection
/// takes no idle one and, at the bound, the least recently used goes for it.
pub proof fn a_slot_takes_an_idle_connection_or_sets_one_up(
    connections: ConnectionsView,
    seen: Seq<Http2Seen>,
    reusable: Seq<bool>,
    force: bool,
    expired: bool,
)
    ensures
        ({
            let (after, taken) = connections.checked_out(seen, reusable, force, expired);
            let idle = retained(connections.http1_idle, reusable);
            let http2 = connections.spread.chosen(loads(connections.http2, seen)) is Use;
            let waits = connections.selected_http2 && connections.connecting > 0 && !expired;
            &&& http2 ==> taken == Acquired::Http2
            &&& !http2 && waits ==> taken == Acquired::AwaitSetup
            &&& http2 || waits ==> after.http1_idle == connections.http1_idle && after.http1_leased
                == connections.http1_leased && after.connecting == connections.connecting
            &&& !http2 && !waits && !force && idle.len() > 0 ==> {
                &&& taken == Acquired::Http1(idle[idle.len() - 1])
                &&& after.http1_idle == idle.take(idle.len() - 1)
                &&& after.http1_leased == connections.http1_leased + 1
                &&& after.connecting == connections.connecting
            }
            &&& !http2 && !waits && (force || idle.len() == 0) ==> {
                &&& taken == Acquired::Reserved
                &&& after.connecting == connections.connecting + 1
                &&& after.http1_leased == connections.http1_leased
                &&& idle.len() + connections.http1_leased + connections.connecting
                    < connections.max_http1 ==> after.http1_idle == idle
                &&& idle.len() > 0 && idle.len() + connections.http1_leased
                    + connections.connecting >= connections.max_http1 ==> after.http1_idle
                    == idle.subrange(1, idle.len() as int)
            }
        }),
{
    let idle = retained(connections.http1_idle, reusable);
    if idle.len() > 0 {
        assert(idle.drop_last() =~= idle.take(idle.len() - 1));
        assert(idle.skip(1) =~= idle.subrange(1, idle.len() as int));
    }
}

/// A setup that ends is no longer under way: an HTTP/1.1 connection is then
/// leased, an HTTP/2 one serves the key unless another does, and a failed one
/// leaves nothing. The key remembers that it selected HTTP/2.
pub proof fn a_setup_ends_with_a_connection_or_without(
    connections: ConnectionsView,
    connection: u64,
    seen: Seq<Http2Seen>,
)
    requires
        connections.connecting > 0,
    ensures
        connections.with_http1().connecting == connections.connecting - 1,
        connections.with_http1().http1_leased == connections.http1_leased + 1,
        connections.with_http1().http1_idle == connections.http1_idle,
        connections.with_http1().http2 == connections.http2,
        connections.abandoned().connecting == connections.connecting - 1,
        connections.abandoned().http1_leased == connections.http1_leased,
        connections.abandoned().http1_idle == connections.http1_idle,
        ({
            let (after, closed) = connections.with_http2(connection, seen);
            let kept = live(connections.http2, seen);
            let served = connections.spread.chosen(loads(connections.http2, seen)) is Use;
            &&& after.connecting == connections.connecting - 1
            &&& after.selected_http2
            &&& after.http1_leased == connections.http1_leased
            &&& served ==> after.http2 == kept && closed == seq![connection] && after.http1_idle
                == connections.http1_idle
            &&& !served ==> after.http2 == kept.push(Http2Slot { connection, streams: 0 })
            &&& !served && kept.len() > 0 ==> closed.len() == 0 && after.http1_idle
                == connections.http1_idle
            &&& !served && kept.len() == 0 ==> closed == connections.http1_idle
                && after.http1_idle.len() == 0
        }),
{
}

/// A request that gives its HTTP/1.1 connection back leaves it idle where it
/// can be reused.
pub proof fn a_request_gives_its_http1_connection_back(
    connections: ConnectionsView,
    connection: u64,
    reusable: bool,
    retired: bool,
)
    requires
        connections.http1_leased > 0,
    ensures
        ({
            let after = connections.released(returned(connection, reusable, retired));
            &&& after.http1_leased == connections.http1_leased - 1
            &&& reusable && !retired ==> after.http1_idle == connections.http1_idle.push(connection)
            &&& !reusable || retired ==> after.http1_idle == connections.http1_idle
            &&& after.connecting == connections.connecting
            &&& after.http2 == connections.http2
        }),
        less_one(connections.http1_leased) == connections.http1_leased - 1,
{
}

/// Before a protocol is selected a key admits as many requests as the more
/// generous protocol does, and after that as many as the selected one does.
pub proof fn selection_admits_what_either_protocol_would(
    limits: NegotiatedLimits,
    pool: &Http1Or2Pool,
    key: PoolKeyView,
)
    requires
        pool.wf(),
    ensures
        ({
            let (active, pending) = limits.selection();
            &&& active >= limits.max_http1_active && active >= limits.max_http2_active
            &&& active == limits.max_http1_active || active == limits.max_http2_active
            &&& pending >= limits.max_http1_pending && pending >= limits.max_http2_pending
            &&& pending == limits.max_http1_pending || pending == limits.max_http2_pending
        }),
        pool.admission_at(key, HttpProtocol::Http1) matches Ok(admission) && admission.max_active
            == pool.limits.max_http1_active && admission.max_pending
            == pool.limits.max_http1_pending && admission == pool.http1_admissions.at(key),
        pool.admission_at(key, HttpProtocol::Http2) matches Ok(admission) && admission.max_active
            == pool.limits.max_http2_active && admission.max_pending
            == pool.limits.max_http2_pending && admission == pool.http2_admissions.at(key),
        pool.admission_at(key, HttpProtocol::Http3) matches Err(error) && error.kind
            == RequestErrorKind::ProtocolUnavailable,
{
    pool.http1_admissions.lemma_at(key);
    pool.http2_admissions.lemma_at(key);
}

/// A key starts without connections, under the pool's bounds, and with what
/// is remembered of it.
pub proof fn a_key_starts_without_connections(pool: &Http1Or2Pool, selected: bool)
    ensures
        ({
            let fresh = pool.fresh_connections(selected);
            &&& fresh.http2.len() == 0 && fresh.http1_idle.len() == 0
            &&& fresh.http1_leased == 0 && fresh.connecting == 0
            &&& fresh.selected_http2 == selected
            &&& fresh.max_http1 == pool.limits.max_http1_active
            &&& fresh.spread.max_connections == pool.limits.max_http2_connections
            &&& fresh.spread.local_streams == pool.limits.max_http2_active
            &&& fresh.spread.learned_peer_limit is None
        }),
{
}

/// What is remembered is bounded: five hundred keys that selected HTTP/2, and
/// four locations of an HTTP/3 entry.
pub proof fn memory_is_bounded()
    ensures
        MAX_HTTP2_KEYS == 500,
        MAX_TRANSPORT_LOCATIONS_PER_ENTRY == 4,
{
}

/// Admission starts with the bounds it is given, with nothing running and
/// nothing waiting.
pub proof fn admission_starts_empty(max_active: usize, max_pending: usize)
    ensures
        ({
            let admission = Admission::fresh(max_active, max_pending);
            &&& admission.active == 0
            &&& admission.pending == 0
            &&& admission.max_active == max_active
            &&& admission.max_pending == max_pending
        }),
{
}

} // verus!
