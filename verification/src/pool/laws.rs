//! What holds of a pool as a whole.

use vstd::prelude::*;
use crate::lru::{
    lemma_position, lemma_stored, lemma_touched, lemma_without, position, stored, touched,
    unique_keys, with_room, without,
};
use crate::pool::admission::{Admission, Admitted};
use crate::pool::connection_set::lemma_retained;
use crate::pool::http1_or_2_pool::{AcquireEvent, AcquireStep, Acquisition};
use crate::pool::http2_connections::Http2Load;
use crate::pool::http2_keys::MAX_HTTP2_KEYS;
use crate::pool::key::PoolKeyView;
use crate::pool::negotiated::{
    first_of, invalidated, lemma_live, live, loads, Acquired, BeforeAdmission, ConnectionsView,
    Http2Seen, Http2Slot,
};
use crate::pool::spread::{a_connection_opens_only_when_needed, least, lemma_choice, Choice};

verus! {

/// Requests never exceed the bounds of their key, and one that is refused
/// changes nothing.
pub proof fn admission_keeps_within_its_bounds(admission: Admission)
    requires
        admission.wf(),
    ensures
        admission.admitted().0.wf(),
        admission.active > 0 ==> admission.released().0.wf(),
        admission.pending > 0 ==> admission.withdrawn().wf(),
        admission.admitted().1 == Admitted::Refused ==> admission.admitted().0 == admission,
        admission.admitted().1 == Admitted::Refused <==> admission.active == admission.max_active
            && admission.pending == admission.max_pending,
{
}

/// The end of a request lets one that waits run, and the number of running
/// requests stays the same.
pub proof fn a_released_permit_goes_to_a_waiting_request(admission: Admission)
    requires
        admission.wf(),
        admission.pending > 0,
    ensures
        admission.released().1,
        admission.released().0.active == admission.active,
        admission.released().0.pending == admission.pending - 1,
{
}

/// Admitting a request and ending it leaves the key as it was.
pub proof fn a_request_leaves_no_trace(admission: Admission)
    requires
        admission.wf(),
        admission.admitted().1 == Admitted::Granted,
    ensures
        admission.admitted().0.released() == (admission, false),
{
}

/// Whatever happens to a key's connections, its bounds are kept. A request
/// that checks a connection out holds one of `max_http1` slots.
pub proof fn negotiated_connections_keep_within_the_bounds(
    connections: ConnectionsView,
    seen: Seq<Http2Seen>,
    reusable: Seq<bool>,
    force: bool,
    expired: bool,
    connection: u64,
)
    requires
        connections.wf(),
        seen.len() == connections.http2.len(),
        reusable.len() == connections.http1_idle.len(),
    ensures
        connections.settled(seen).wf(),
        connections.http1_leased + connections.connecting < connections.max_http1
            ==> connections.checked_out(seen, reusable, force, expired).0.wf(),
        connections.connecting > 0 ==> connections.with_http1().wf(),
        connections.with_http2(connection, seen).0.wf(),
        connections.abandoned().wf(),
        connections.http1_leased > 0 ==> connections.released(Some(connection)).wf(),
        connections.released(None).wf(),
        connections.with_stream(seen).0.wf(),
{
    lemma_live(connections.http2, seen);
    lemma_retained(connections.http1_idle, reusable);
    if connections.http2_choice(seen) == Choice::Open {
        lemma_opens(connections, seen);
    }
    let list = loads(connections.http2, seen);
    lemma_choice(
        list.map_values(|connection: Http2Load| connection.streams),
        connections.spread.rooms(list),
        connections.spread.max_connections,
    );
}

/// Another HTTP/2 connection is kept only below the limit.
proof fn lemma_opens(connections: ConnectionsView, seen: Seq<Http2Seen>)
    requires
        connections.http2_choice(seen) == Choice::Open,
        connections.spread.max_connections > 0,
    ensures
        live(connections.http2, seen).len() < connections.spread.max_connections,
{
    lemma_live(connections.http2, seen);
    let list = loads(connections.http2, seen);
    let counts = list.map_values(|connection: Http2Load| connection.streams);
    a_connection_opens_only_when_needed(
        counts,
        connections.spread.rooms(list),
        connections.spread.max_connections,
    );
}

/// A key that selected HTTP/2 is never forgotten as such by its connections:
/// not by a later connection that selects HTTP/1.1, nor by the loss of its
/// HTTP/2 connections.
pub proof fn a_selected_key_stays_selected(
    connections: ConnectionsView,
    seen: Seq<Http2Seen>,
    reusable: Seq<bool>,
    force: bool,
    expired: bool,
    connection: Option<u64>,
    number: u64,
)
    requires
        connections.selected_http2,
    ensures
        connections.settled(seen).selected_http2,
        connections.checked_out(seen, reusable, force, expired).0.selected_http2,
        connections.with_http1().selected_http2,
        connections.with_http2(number, seen).0.selected_http2,
        connections.abandoned().selected_http2,
        connections.released(connection).selected_http2,
        connections.with_stream(seen).0.selected_http2,
{
}

/// A request to a key that selected HTTP/2 waits while a setup is in flight,
/// until its wait expires; it never opens a connection of its own meanwhile.
pub proof fn a_setup_in_flight_holds_back_the_rest(
    connections: ConnectionsView,
    seen: Seq<Http2Seen>,
    reusable: Seq<bool>,
    force: bool,
)
    requires
        connections.selected_http2,
        connections.connecting > 0,
        connections.http2_choice(seen) == Choice::Open,
    ensures
        connections.before(seen, false) == BeforeAdmission::AwaitSetup,
        connections.checked_out(seen, reusable, force, false).1 == Acquired::AwaitSetup,
        connections.before(seen, true) != BeforeAdmission::AwaitSetup,
        connections.checked_out(seen, reusable, force, true).1 != Acquired::AwaitSetup,
{
}

/// While no connection to a key selected HTTP/2, requests do not wait for
/// each other's setups.
pub proof fn unknown_protocols_set_up_in_parallel(
    connections: ConnectionsView,
    seen: Seq<Http2Seen>,
    reusable: Seq<bool>,
    force: bool,
    expired: bool,
)
    requires
        !connections.selected_http2,
    ensures
        connections.before(seen, expired) != BeforeAdmission::AwaitSetup,
        connections.checked_out(seen, reusable, force, expired).1 != Acquired::AwaitSetup,
{
}

/// The first HTTP/2 connection of a key carries its requests from then on,
/// and the idle HTTP/1.1 connections are closed.
pub proof fn the_first_http2_connection_carries_the_key(
    connections: ConnectionsView,
    seen: Seq<Http2Seen>,
    connection: u64,
    peer_limit: Option<usize>,
)
    requires
        connections.http2.len() == 0,
        seen.len() == 0,
        connections.spread.max_connections == 1,
    ensures
        connections.with_http2(connection, seen).1 == connections.http1_idle,
        connections.with_http2(connection, seen).0.http1_idle.len() == 0,
        connections.with_http2(connection, seen).0.before(
            seq![Http2Seen { reusable: true, peer_limit }],
            false,
        ) == BeforeAdmission::Http2,
{
    let after = connections.with_http2(connection, seen).0;
    let states = seq![Http2Seen { reusable: true, peer_limit }];
    lemma_empty_opens(connections, seen);
    assert(after.http2.len() == 1);
    if after.http2_choice(states) == Choice::Open {
        lemma_opens(after, states);
        assert(after.http2.drop_last() =~= Seq::empty());
        assert(states.drop_last() =~= Seq::empty());
        assert(live(after.http2, states).len() == 1);
    }
}

/// A key without connections opens one.
proof fn lemma_empty_opens(connections: ConnectionsView, seen: Seq<Http2Seen>)
    requires
        connections.http2.len() == 0,
    ensures
        connections.http2_choice(seen) == Choice::Open,
{
    let list = loads(connections.http2, seen);
    assert(list.len() == 0);
    let counts = list.map_values(|connection: Http2Load| connection.streams);
    assert(forall|i: int| !least(counts, connections.spread.rooms(list), false, i));
}

/// An invalidated connection takes no other stream: the key no longer holds
/// it.
pub proof fn an_invalidated_connection_is_gone(connections: ConnectionsView, connection: u64)
    requires
        forall|i: int, j: int|
            0 <= i < j < connections.http2.len() ==> (#[trigger] connections.http2[i]).connection
                != (#[trigger] connections.http2[j]).connection,
    ensures
        forall|i: int|
            0 <= i < invalidated(connections.http2, connection).len() ==> (#[trigger] invalidated(
                connections.http2,
                connection,
            )[i]).connection != connection,
{
    let slots = connections.http2;
    let rest = invalidated(slots, connection);
    if exists|i: int| first_of(slots, connection, i) {
        let k = choose|i: int| first_of(slots, connection, i);
        assert forall|i: int| 0 <= i < rest.len() implies (#[trigger] rest[i]).connection
            != connection by {
            if i < k {
                assert(rest[i] == slots[i]);
            } else {
                assert(rest[i] == slots[i + 1]);
                assert(slots[k].connection != slots[i + 1].connection);
            }
        }
    } else {
        assert forall|i: int| 0 <= i < rest.len() implies (#[trigger] rest[i]).connection
            != connection by {
            if rest[i].connection == connection {
                lemma_first(slots, connection, i);
            }
        }
    }
}

proof fn lemma_first(slots: Seq<Http2Slot>, connection: u64, i: int)
    requires
        0 <= i < slots.len(),
        slots[i].connection == connection,
    ensures
        exists|k: int| first_of(slots, connection, k),
    decreases i,
{
    if exists|j: int| 0 <= j < i && (#[trigger] slots[j]).connection == connection {
        let j = choose|j: int| 0 <= j < i && (#[trigger] slots[j]).connection == connection;
        lemma_first(slots, connection, j);
    } else {
        assert(first_of(slots, connection, i));
    }
}

/// A key that was just remembered is still remembered after any other key is,
/// unless the memory holds a single key; at the bound, the least recently
/// used key is the one that goes.
pub proof fn the_least_recently_used_key_is_forgotten_first(
    keys: Seq<(PoolKeyView, ())>,
    recent: PoolKeyView,
    other: PoolKeyView,
)
    requires
        unique_keys(keys),
        keys.len() <= MAX_HTTP2_KEYS,
        position(keys, recent) is Some,
        recent != other,
    ensures
        position(stored(touched(keys, recent), other, (), MAX_HTTP2_KEYS as nat), recent) is Some,
        position(stored(touched(keys, recent), other, (), MAX_HTTP2_KEYS as nat), other) is Some,
        stored(touched(keys, recent), other, (), MAX_HTTP2_KEYS as nat).len() <= MAX_HTTP2_KEYS,
{
    lemma_touched(keys, recent);
    lemma_position(keys, recent);
    let marked = touched(keys, recent);
    assert(marked.last().0 == recent);
    lemma_stored(marked, other, (), MAX_HTTP2_KEYS as nat);
    let after = stored(marked, other, (), MAX_HTTP2_KEYS as nat);
    let kept = without(marked, other);
    lemma_position(marked, other);
    lemma_without(marked, other);
    assert(kept.len() > 0 && kept.last().0 == recent) by {
        match position(marked, other) {
            Some(p) => {
                assert(p != marked.len() - 1);
                assert(kept[kept.len() - 1] == marked[marked.len() - 1]);
            },
            None => {},
        }
    }
    let room = with_room(kept, MAX_HTTP2_KEYS as nat);
    assert(room.len() > 0);
    assert(room[room.len() - 1].0 == recent);
    assert(after[room.len() - 1].0 == recent);
    lemma_somewhere(after, recent, room.len() - 1);
    lemma_somewhere(after, other, after.len() - 1);
}

proof fn lemma_somewhere(keys: Seq<(PoolKeyView, ())>, key: PoolKeyView, i: int)
    requires
        0 <= i < keys.len(),
        keys[i].0 == key,
    ensures
        position(keys, key) is Some,
{
    lemma_position(keys, key);
    if position(keys, key) is None {
        assert(keys[i].0 != key);
    }
}

/// A request is counted by one bounded admission until it is sent or fails:
/// it gives the selection admission up only then.
pub proof fn a_request_stays_admitted_until_it_is_sent(acquisition: Acquisition, event: AcquireEvent)
    requires
        acquisition.selection,
    ensures
        acquisition.after(event).0.selection || acquisition.after(event).1 is SendHttp1
            || acquisition.after(event).1 is SendHttp2 || acquisition.after(event).1 is Fail,
{
}

/// Whether a step waits for something that another request does.
pub open spec fn waits(step: AcquireStep) -> bool {
    step is AwaitHttp2Setup || step is AwaitSetup || step is RetryDelay || step is AdmitHttp2
        || step is Look || step is Fail
}

/// A request that waits holds no connection slot, so the setup that it awaits
/// never waits for it. It looks and waits without one, and every attempt
/// that does not end in an HTTP/1.1 connection gives it back.
pub proof fn a_waiting_request_holds_no_slot(acquisition: Acquisition, event: AcquireEvent)
    requires
        acquisition.slot ==> event is Acquired || event is AttemptFailed || event is WaitFailed,
        event is Acquired || event is AttemptFailed ==> acquisition.slot,
    ensures
        waits(acquisition.after(event).1) ==> !acquisition.after(event).0.slot,
        acquisition.after(event).1 is Attempt || acquisition.after(event).1 is SendHttp1
            ==> acquisition.after(event).0.slot,
{
}

/// A request waits for a setup to a key that selected HTTP/2 at most once
/// beyond its limit: afterwards it opens a connection of its own.
pub proof fn an_expired_wait_is_not_repeated(
    acquisition: Acquisition,
    connections: ConnectionsView,
    seen: Seq<Http2Seen>,
)
    requires
        acquisition.setup_wait_expired,
    ensures
        forall|event: AcquireEvent|
            #[trigger] acquisition.after(event).0.setup_wait_expired,
        connections.before(seen, acquisition.setup_wait_expired) != BeforeAdmission::AwaitSetup,
{
}

} // verus!
