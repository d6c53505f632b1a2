//! The connections of one key whose protocol ALPN chooses.

use vstd::prelude::*;
use crate::endpoint::HttpProtocol;
use crate::lru::stored;
use crate::pool::connection_set::{retain, retained, returned};
use crate::pool::http2_connections::{Http2Load, Http2Spread};
use crate::pool::http2_keys::{Http2Keys, MAX_HTTP2_KEYS};
use crate::pool::key::PoolKey;
use crate::pool::spread::Choice;

verus! {

/// One of the key's HTTP/2 connections, which requests share.
#[derive(Clone, Copy, Debug, PartialEq, Eq, Structural)]
pub struct Http2Slot {
    pub connection: u64,
    /// Streams in flight on it.
    pub streams: usize,
}

/// What an HTTP/2 connection says of itself.
#[derive(Clone, Copy, Debug, PartialEq, Eq, Structural)]
pub struct Http2Seen {
    /// Whether it takes new streams.
    pub reusable: bool,
    /// The peer's stream limit, once its settings arrived.
    pub peer_limit: Option<usize>,
}

/// The connections of one negotiated pool key.
///
/// Up to the spread's connection limit of reusable HTTP/2 connections, one by
/// default, serve the key. HTTP/1.1 connections, idle or leased, and
/// connections whose setup has not finished, so whose protocol ALPN has not
/// chosen yet, number at most `max_http1` together. A request holds a
/// connection slot from the key's HTTP/1.1 admission, which lets at most
/// `max_http1` requests through, before it leases an HTTP/1.1 connection or
/// opens one, and each such request holds at most one.
#[derive(Debug)]
pub struct EntryConnections {
    pub max_http1: usize,
    /// HTTP/2 connections, oldest first.
    pub http2: Vec<Http2Slot>,
    /// How HTTP/2 streams spread across them.
    pub spread: Http2Spread,
    /// HTTP/1.1 connections with no request, least recently used first.
    pub http1_idle: Vec<u64>,
    /// HTTP/1.1 connections leased to a request.
    pub http1_leased: usize,
    /// Connections being set up.
    pub connecting: usize,
    /// A connection to this key has selected HTTP/2 before. A later
    /// connection that selects HTTP/1.1 does not clear it.
    pub selected_http2: bool,
}

/// What [`EntryConnections`] holds.
pub struct ConnectionsView {
    pub max_http1: usize,
    pub http2: Seq<Http2Slot>,
    pub spread: Http2Spread,
    pub http1_idle: Seq<u64>,
    pub http1_leased: nat,
    pub connecting: nat,
    pub selected_http2: bool,
}

/// What a request can do before it takes a connection slot.
#[derive(Clone, Copy, Debug, PartialEq, Eq, Structural)]
pub enum BeforeAdmission {
    /// An HTTP/2 connection can take the request once HTTP/2 admits it.
    Http2,
    /// Wait for a setup in flight.
    AwaitSetup,
    /// Take a connection slot; the protocol names the capacity error.
    Admission(Option<HttpProtocol>),
}

/// What a request holding a connection slot found.
#[derive(Clone, Copy, Debug, PartialEq, Eq, Structural)]
pub enum Acquired {
    /// An HTTP/1.1 connection, leased to it.
    Http1(u64),
    /// An HTTP/2 connection can take the request once HTTP/2 admits it.
    Http2,
    /// The need to wait for another request's setup.
    AwaitSetup,
    /// No connection can serve the request, so it opens one.
    Reserved,
}

/// A connection whose setup finished, with the protocol that ALPN chose.
#[derive(Clone, Copy, Debug, PartialEq, Eq, Structural)]
pub enum PooledConnection {
    Http1(u64),
    Http2(u64),
}

/// What became of a connection whose setup finished.
#[derive(Debug)]
pub struct Finished {
    pub acquired: Acquired,
    /// The connections that are closed.
    pub closed: Vec<u64>,
}

/// The connections that take new streams, in order.
pub open spec fn live(slots: Seq<Http2Slot>, seen: Seq<Http2Seen>) -> Seq<Http2Slot>
    decreases slots.len(),
{
    if slots.len() == 0 || slots.len() != seen.len() {
        Seq::empty()
    } else {
        let before = live(slots.drop_last(), seen.drop_last());
        if seen.last().reusable {
            before.push(slots.last())
        } else {
            before
        }
    }
}

/// The loads of the connections that take new streams, in order.
pub open spec fn loads(slots: Seq<Http2Slot>, seen: Seq<Http2Seen>) -> Seq<Http2Load>
    decreases slots.len(),
{
    if slots.len() == 0 || slots.len() != seen.len() {
        Seq::empty()
    } else {
        let before = loads(slots.drop_last(), seen.drop_last());
        if seen.last().reusable {
            before.push(
                Http2Load { peer_limit: seen.last().peer_limit, streams: slots.last().streams },
            )
        } else {
            before
        }
    }
}

/// As many connections take new streams as have loads.
pub proof fn lemma_live(slots: Seq<Http2Slot>, seen: Seq<Http2Seen>)
    ensures
        live(slots, seen).len() == loads(slots, seen).len(),
        live(slots, seen).len() <= slots.len(),
    decreases slots.len(),
{
    if slots.len() > 0 && slots.len() == seen.len() {
        lemma_live(slots.drop_last(), seen.drop_last());
    }
}

/// Returns the connections that take new streams, and their loads.
pub fn survey(slots: &Vec<Http2Slot>, seen: &Vec<Http2Seen>) -> (r: (Vec<Http2Slot>, Vec<Http2Load>))
    requires
        seen@.len() == slots@.len(),
    ensures
        r.0@ == live(slots@, seen@),
        r.1@ == loads(slots@, seen@),
        r.0@.len() == r.1@.len(),
{
    let mut kept: Vec<Http2Slot> = Vec::new();
    let mut list: Vec<Http2Load> = Vec::new();
    let mut i: usize = 0;
    while i < slots.len()
        invariant
            i <= slots@.len(),
            seen@.len() == slots@.len(),
            kept@ == live(slots@.take(i as int), seen@.take(i as int)),
            list@ == loads(slots@.take(i as int), seen@.take(i as int)),
        decreases slots@.len() - i,
    {
        assert(slots@.take(i + 1).drop_last() =~= slots@.take(i as int));
        assert(seen@.take(i + 1).drop_last() =~= seen@.take(i as int));
        if seen[i].reusable {
            let slot = slots[i];
            kept.push(slot);
            list.push(Http2Load { peer_limit: seen[i].peer_limit, streams: slot.streams });
        }
        i += 1;
    }
    assert(slots@.take(i as int) =~= slots@);
    assert(seen@.take(i as int) =~= seen@);
    proof {
        lemma_live(slots@, seen@);
    }
    (kept, list)
}

/// The slots with one stream less on `connection`.
pub open spec fn ended(slots: Seq<Http2Slot>, connection: u64) -> Seq<Http2Slot> {
    slots.map_values(
        |slot: Http2Slot|
            if slot.connection == connection && slot.streams > 0 {
                Http2Slot { streams: (slot.streams - 1) as usize, ..slot }
            } else {
                slot
            },
    )
}

/// Whether the slot at `i` is the first of a connection.
pub open spec fn first_of(slots: Seq<Http2Slot>, connection: u64, i: int) -> bool {
    &&& 0 <= i < slots.len()
    &&& slots[i].connection == connection
    &&& forall|j: int| 0 <= j < i ==> (#[trigger] slots[j]).connection != connection
}

/// The slots without the first one of a connection.
pub open spec fn invalidated(slots: Seq<Http2Slot>, connection: u64) -> Seq<Http2Slot> {
    if exists|i: int| first_of(slots, connection, i) {
        slots.remove(choose|i: int| first_of(slots, connection, i))
    } else {
        slots
    }
}

/// One less, but not less than none.
pub open spec fn less_one(n: nat) -> nat {
    if n > 0 {
        (n - 1) as nat
    } else {
        0
    }
}

impl ConnectionsView {
    /// How many HTTP/1.1 connections and setups there are.
    pub open spec fn open_http1_or_connecting(self) -> nat {
        self.http1_idle.len() + self.http1_leased + self.connecting
    }

    /// The bounds are kept.
    pub open spec fn wf(self) -> bool {
        &&& self.max_http1 > 0
        &&& self.spread.max_connections > 0
        &&& self.open_http1_or_connecting() <= self.max_http1
        &&& self.http2.len() <= self.spread.max_connections
    }

    /// The connections after closed HTTP/2 ones were forgotten and reported
    /// limits were learned.
    pub open spec fn settled(self, seen: Seq<Http2Seen>) -> ConnectionsView {
        ConnectionsView {
            http2: live(self.http2, seen),
            spread: self.spread.after(loads(self.http2, seen)),
            ..self
        }
    }

    /// What a new stream does.
    pub open spec fn http2_choice(self, seen: Seq<Http2Seen>) -> Choice {
        self.spread.chosen(loads(self.http2, seen))
    }

    /// Whether a request should wait for a setup in flight rather than open
    /// a connection of its own: once the key has selected HTTP/2, the setup
    /// will most likely select it again and then carry every request.
    pub open spec fn awaits_setup(self) -> bool {
        self.selected_http2 && self.connecting > 0
    }

    /// What a request can do before it takes a connection slot.
    pub open spec fn before(self, seen: Seq<Http2Seen>, expired: bool) -> BeforeAdmission {
        if self.http2_choice(seen) is Use {
            BeforeAdmission::Http2
        } else if !expired && self.awaits_setup() {
            BeforeAdmission::AwaitSetup
        } else if self.http1_idle.len() > 0 || self.http1_leased > 0 {
            BeforeAdmission::Admission(Some(HttpProtocol::Http1))
        } else {
            BeforeAdmission::Admission(None)
        }
    }

    /// The connections after a request with a slot took one, and what it
    /// took.
    pub open spec fn checked_out(
        self,
        seen: Seq<Http2Seen>,
        reusable: Seq<bool>,
        force: bool,
        expired: bool,
    ) -> (ConnectionsView, Acquired) {
        let now = self.settled(seen);
        if self.http2_choice(seen) is Use {
            (now, Acquired::Http2)
        } else if !expired && self.awaits_setup() {
            (now, Acquired::AwaitSetup)
        } else {
            let idle = retained(self.http1_idle, reusable);
            if !force && idle.len() > 0 {
                (
                    ConnectionsView {
                        http1_idle: idle.drop_last(),
                        http1_leased: now.http1_leased + 1,
                        ..now
                    },
                    Acquired::Http1(idle.last()),
                )
            } else {
                let rest = if force && idle.len() > 0 && idle.len() + now.http1_leased
                    + now.connecting >= self.max_http1 {
                    idle.skip(1)
                } else {
                    idle
                };
                (
                    ConnectionsView { http1_idle: rest, connecting: now.connecting + 1, ..now },
                    Acquired::Reserved,
                )
            }
        }
    }

    /// The connections after a setup selected HTTP/1.1.
    pub open spec fn with_http1(self) -> ConnectionsView {
        ConnectionsView {
            connecting: less_one(self.connecting),
            http1_leased: self.http1_leased + 1,
            ..self
        }
    }

    /// The connections after a setup selected HTTP/2, and what is closed: the
    /// new connection where another can carry the request, and all idle
    /// HTTP/1.1 ones where it is the key's first.
    pub open spec fn with_http2(self, connection: u64, seen: Seq<Http2Seen>) -> (
        ConnectionsView,
        Seq<u64>,
    ) {
        let now = ConnectionsView {
            connecting: less_one(self.connecting),
            selected_http2: true,
            ..self.settled(seen)
        };
        if self.http2_choice(seen) is Use {
            (now, seq![connection])
        } else {
            let http2 = now.http2.push(Http2Slot { connection, streams: 0 });
            if now.http2.len() == 0 {
                (
                    ConnectionsView { http2, http1_idle: Seq::empty(), ..now },
                    now.http1_idle,
                )
            } else {
                (ConnectionsView { http2, ..now }, Seq::empty())
            }
        }
    }

    /// The connections after a setup failed or was given up.
    pub open spec fn abandoned(self) -> ConnectionsView {
        ConnectionsView { connecting: less_one(self.connecting), ..self }
    }

    /// The connections after a request gave its HTTP/1.1 connection back.
    pub open spec fn released(self, connection: Option<u64>) -> ConnectionsView {
        ConnectionsView {
            http1_leased: less_one(self.http1_leased),
            http1_idle: match connection {
                Some(connection) => self.http1_idle.push(connection),
                None => self.http1_idle,
            },
            ..self
        }
    }

    /// The connection that a new stream would use, or else the oldest.
    pub open spec fn current(self, seen: Seq<Http2Seen>) -> Option<u64> {
        let slots = live(self.http2, seen);
        match self.http2_choice(seen) {
            Choice::Use(i) => Some(slots[i as int].connection),
            Choice::Open => if slots.len() > 0 {
                Some(slots[0].connection)
            } else {
                None
            },
        }
    }

    /// The connections after a stream was opened, and where.
    pub open spec fn with_stream(self, seen: Seq<Http2Seen>) -> (ConnectionsView, Option<u64>) {
        let now = self.settled(seen);
        match self.http2_choice(seen) {
            Choice::Use(i) => {
                let slot = now.http2[i as int];
                (
                    ConnectionsView {
                        http2: now.http2.update(
                            i as int,
                            Http2Slot { streams: (slot.streams + 1) as usize, ..slot },
                        ),
                        ..now
                    },
                    Some(slot.connection),
                )
            },
            Choice::Open => (now, None),
        }
    }
}

impl View for EntryConnections {
    type V = ConnectionsView;

    open spec fn view(&self) -> ConnectionsView {
        ConnectionsView {
            max_http1: self.max_http1,
            http2: self.http2@,
            spread: self.spread,
            http1_idle: self.http1_idle@,
            http1_leased: self.http1_leased as nat,
            connecting: self.connecting as nat,
            selected_http2: self.selected_http2,
        }
    }
}

impl EntryConnections {
    /// No connection, with what is remembered of the key.
    pub fn new(max_http1: usize, spread: Http2Spread, selected_http2: bool) -> (r: Self)
        requires
            max_http1 > 0,
            spread.max_connections > 0,
        ensures
            r@ == (ConnectionsView {
                max_http1,
                http2: Seq::empty(),
                spread,
                http1_idle: Seq::empty(),
                http1_leased: 0,
                connecting: 0,
                selected_http2,
            }),
            r@.wf(),
    {
        EntryConnections {
            max_http1,
            http2: Vec::new(),
            spread,
            http1_idle: Vec::new(),
            http1_leased: 0,
            connecting: 0,
            selected_http2,
        }
    }

    /// Chooses among the reusable HTTP/2 connections, forgetting closed ones.
    pub fn choose_http2(&mut self, seen: &Vec<Http2Seen>) -> (r: Choice)
        requires
            seen@.len() == old(self)@.http2.len(),
        ensures
            final(self)@ == old(self)@.settled(seen@),
            r == old(self)@.http2_choice(seen@),
            r matches Choice::Use(i) ==> i < final(self)@.http2.len(),
    {
        let (kept, list) = survey(&self.http2, seen);
        self.http2 = kept;
        self.spread.select(&list)
    }

    /// Returns what a request can do before it takes a connection slot.
    ///
    /// `setup_wait_expired` skips the wait for a setup in flight to a key
    /// that selected HTTP/2.
    pub fn before_admission(&mut self, seen: &Vec<Http2Seen>, setup_wait_expired: bool) -> (r:
        BeforeAdmission)
        requires
            seen@.len() == old(self)@.http2.len(),
        ensures
            final(self)@ == old(self)@.settled(seen@),
            r == old(self)@.before(seen@, setup_wait_expired),
    {
        match self.choose_http2(seen) {
            Choice::Use(_) => {
                return BeforeAdmission::Http2;
            },
            Choice::Open => {},
        }
        if !setup_wait_expired && self.selected_http2 && self.connecting > 0 {
            return BeforeAdmission::AwaitSetup;
        }
        if self.http1_idle.len() > 0 || self.http1_leased > 0 {
            BeforeAdmission::Admission(Some(HttpProtocol::Http1))
        } else {
            BeforeAdmission::Admission(None)
        }
    }

    /// Returns whether a setup is in flight; without one there is nothing to
    /// wait for.
    pub fn setup_in_flight(&self) -> (r: bool)
        ensures
            r == (self@.connecting > 0),
    {
        self.connecting > 0
    }

    /// Leases the most recently used idle HTTP/1.1 connection, or reserves a
    /// slot for a new connection, unless an HTTP/2 connection or a setup in
    /// flight serves the request.
    ///
    /// `force_new_connection` skips idle HTTP/1.1 connections, closing the
    /// least recently used one when the key is at its bound. `reusable` says
    /// of each idle connection whether it still is.
    pub fn checkout(
        &mut self,
        seen: &Vec<Http2Seen>,
        reusable: &Vec<bool>,
        force_new_connection: bool,
        setup_wait_expired: bool,
    ) -> (r: Acquired)
        requires
            seen@.len() == old(self)@.http2.len(),
            reusable@.len() == old(self)@.http1_idle.len(),
            old(self)@.http1_leased < usize::MAX,
            old(self)@.connecting < usize::MAX,
        ensures
            (final(self)@, r) == old(self)@.checked_out(
                seen@,
                reusable@,
                force_new_connection,
                setup_wait_expired,
            ),
    {
        match self.choose_http2(seen) {
            Choice::Use(_) => {
                return Acquired::Http2;
            },
            Choice::Open => {},
        }
        if !setup_wait_expired && self.selected_http2 && self.connecting > 0 {
            return Acquired::AwaitSetup;
        }
        let mut idle = retain(&self.http1_idle, reusable);
        let n: usize = idle.len();
        let ghost kept = idle@;
        if !force_new_connection && n > 0 {
            let connection: u64 = idle[n - 1];
            let _ = idle.remove(n - 1);
            assert(idle@ =~= kept.drop_last());
            self.http1_idle = idle;
            self.http1_leased = self.http1_leased + 1;
            return Acquired::Http1(connection);
        }
        if force_new_connection && n > 0 && at_bound(
            n,
            self.http1_leased,
            self.connecting,
            self.max_http1,
        ) {
            let _ = idle.remove(0);
            assert(idle@ =~= kept.skip(1));
        }
        self.http1_idle = idle;
        self.connecting = self.connecting + 1;
        Acquired::Reserved
    }

    /// Records the protocol ALPN selected and leases the connection.
    ///
    /// A second HTTP/2 connection is closed and its request joins the current
    /// one. Only a key allowed more than one HTTP/2 connection, whose
    /// connections are all full, keeps it. The key's first HTTP/2 connection
    /// closes its idle HTTP/1.1 connections, and the key is remembered.
    pub fn finish(
        &mut self,
        connection: PooledConnection,
        seen: &Vec<Http2Seen>,
        keys: &mut Http2Keys,
        key: &PoolKey,
    ) -> (r: Finished)
        requires
            seen@.len() == old(self)@.http2.len(),
            old(self)@.http1_leased < usize::MAX,
            old(keys).wf(),
        ensures
            final(keys).wf(),
            match connection {
                PooledConnection::Http1(connection) => final(self)@ == old(self)@.with_http1()
                    && r.acquired == Acquired::Http1(connection) && r.closed@.len() == 0
                    && final(keys)@ == old(keys)@,
                PooledConnection::Http2(connection) => (final(self)@, r.closed@) == old(
                    self,
                )@.with_http2(connection, seen@) && r.acquired == Acquired::Http2 && final(keys)@
                    == stored(old(keys)@, key@, (), MAX_HTTP2_KEYS as nat),
            },
    {
        if self.connecting > 0 {
            self.connecting = self.connecting - 1;
        }
        match connection {
            PooledConnection::Http1(connection) => {
                self.http1_leased = self.http1_leased + 1;
                Finished { acquired: Acquired::Http1(connection), closed: Vec::new() }
            },
            PooledConnection::Http2(connection) => {
                let mut closed: Vec<u64> = Vec::new();
                self.selected_http2 = true;
                keys.insert(key);
                match self.choose_http2(seen) {
                    Choice::Use(_) => {
                        closed.push(connection);
                        assert(closed@ =~= seq![connection]);
                    },
                    Choice::Open => {
                        if self.http2.len() == 0 {
                            std::mem::swap(&mut closed, &mut self.http1_idle);
                        }
                        self.http2.push(Http2Slot { connection, streams: 0 });
                    },
                }
                Finished { acquired: Acquired::Http2, closed }
            },
        }
    }

    /// Frees the slot of a setup that failed or was given up.
    pub fn abandon(&mut self)
        ensures
            final(self)@ == old(self)@.abandoned(),
    {
        if self.connecting > 0 {
            self.connecting = self.connecting - 1;
        }
    }

    /// Forgets an HTTP/2 connection, if the key still holds it.
    pub fn invalidate_http2(&mut self, connection: u64)
        ensures
            final(self)@ == (ConnectionsView {
                http2: invalidated(old(self)@.http2, connection),
                ..old(self)@
            }),
    {
        invalidate(&mut self.http2, connection);
    }

    /// Frees one leased HTTP/1.1 connection, keeping it idle when it is
    /// reusable and not retired.
    pub fn release_http1(&mut self, connection: u64, reusable: bool, retired: bool)
        ensures
            final(self)@ == old(self)@.released(returned(connection, reusable, retired)),
    {
        if self.http1_leased > 0 {
            self.http1_leased = self.http1_leased - 1;
        }
        if reusable && !retired {
            self.http1_idle.push(connection);
        }
    }

    /// Returns a reusable HTTP/2 connection of the key, whether or not it has
    /// room for another stream: the one a new stream would use, or else the
    /// oldest. WebSocket reuse and the Alt-Svc race treat the key as speaking
    /// HTTP/2 whenever one exists.
    pub fn current_http2(&mut self, seen: &Vec<Http2Seen>) -> (r: Option<u64>)
        requires
            seen@.len() == old(self)@.http2.len(),
        ensures
            final(self)@ == old(self)@.settled(seen@),
            r == old(self)@.current(seen@),
    {
        match self.choose_http2(seen) {
            Choice::Use(i) => Some(self.http2[i].connection),
            Choice::Open => if self.http2.len() > 0 {
                Some(self.http2[0].connection)
            } else {
                None
            },
        }
    }

    /// Opens a counted stream on the HTTP/2 connection chosen now, or returns
    /// `None` when no connection is reusable or the key should open another.
    pub fn open_http2_stream(&mut self, seen: &Vec<Http2Seen>) -> (r: Option<u64>)
        requires
            seen@.len() == old(self)@.http2.len(),
            forall|i: int|
                0 <= i < old(self)@.http2.len() ==> (#[trigger] old(self)@.http2[i]).streams
                    < usize::MAX,
        ensures
            (final(self)@, r) == old(self)@.with_stream(seen@),
    {
        let ghost before = self.http2@;
        match self.choose_http2(seen) {
            Choice::Use(i) => {
                proof {
                    lemma_room(before, seen@);
                }
                let slot = self.http2[i];
                self.http2.set(i, Http2Slot { connection: slot.connection, streams: slot.streams + 1 });
                Some(slot.connection)
            },
            Choice::Open => None,
        }
    }

    /// Counts one stream less on a connection, if the key still holds it.
    pub fn end_http2_stream(&mut self, connection: u64)
        ensures
            final(self)@ == (ConnectionsView {
                http2: ended(old(self)@.http2, connection),
                ..old(self)@
            }),
    {
        self.http2 = end_stream(&self.http2, connection);
    }

    /// Returns how many HTTP/1.1 connections are idle, how many are leased,
    /// and how many connections are being set up.
    pub fn counts(&self) -> (r: (usize, usize, usize))
        ensures
            r == (
                self@.http1_idle.len() as usize,
                self@.http1_leased as usize,
                self@.connecting as usize,
            ),
    {
        (self.http1_idle.len(), self.http1_leased, self.connecting)
    }
}

fn at_bound(idle: usize, leased: usize, connecting: usize, max: usize) -> (r: bool)
    ensures
        r == (idle + leased + connecting >= max),
{
    if idle >= max || leased >= max - idle {
        return true;
    }
    connecting >= max - idle - leased
}

/// Counts one stream less on a connection.
pub fn end_stream(slots: &Vec<Http2Slot>, connection: u64) -> (r: Vec<Http2Slot>)
    ensures
        r@ == ended(slots@, connection),
{
    let mut rest: Vec<Http2Slot> = Vec::new();
    let mut i: usize = 0;
    while i < slots.len()
        invariant
            i <= slots@.len(),
            rest@ == ended(slots@, connection).take(i as int),
        decreases slots@.len() - i,
    {
        let slot = slots[i];
        let streams: usize = if slot.connection == connection && slot.streams > 0 {
            slot.streams - 1
        } else {
            slot.streams
        };
        rest.push(Http2Slot { connection: slot.connection, streams });
        assert(rest@ =~= ended(slots@, connection).take(i + 1));
        i += 1;
    }
    assert(rest@ =~= ended(slots@, connection));
    rest
}

/// Forgets a connection, if it is there.
pub fn invalidate(slots: &mut Vec<Http2Slot>, connection: u64)
    ensures
        final(slots)@ == invalidated(old(slots)@, connection),
{
    let mut i: usize = 0;
    while i < slots.len()
        invariant
            i <= slots@.len(),
            slots@ == old(slots)@,
            forall|j: int| 0 <= j < i ==> (#[trigger] slots@[j]).connection != connection,
        decreases slots@.len() - i,
    {
        if slots[i].connection == connection {
            proof {
                assert(first_of(slots@, connection, i as int));
                let k = choose|k: int| first_of(slots@, connection, k);
                assert(k == i) by {
                    if k < i {
                        assert(slots@[k].connection != connection);
                    } else if i < k {
                        assert(slots@[i as int].connection != connection);
                    }
                }
            }
            let _ = slots.remove(i);
            return;
        }
        i += 1;
    }
    assert(!(exists|k: int| first_of(slots@, connection, k)));
}

/// Connections with room for another stream in their count keep it.
pub proof fn lemma_room(slots: Seq<Http2Slot>, seen: Seq<Http2Seen>)
    requires
        slots.len() == seen.len(),
        forall|i: int| 0 <= i < slots.len() ==> (#[trigger] slots[i]).streams < usize::MAX,
    ensures
        forall|i: int|
            0 <= i < live(slots, seen).len() ==> (#[trigger] live(slots, seen)[i]).streams
                < usize::MAX,
    decreases slots.len(),
{
    if slots.len() > 0 {
        let first = slots.drop_last();
        assert forall|i: int| 0 <= i < first.len() implies (#[trigger] first[i]).streams
            < usize::MAX by {
            assert(first[i] == slots[i]);
        }
        lemma_room(first, seen.drop_last());
        let before = live(first, seen.drop_last());
        assert forall|i: int| 0 <= i < live(slots, seen).len() implies (#[trigger] live(
            slots,
            seen,
        )[i]).streams < usize::MAX by {
            if i < before.len() {
                assert(live(slots, seen)[i] == before[i]);
            } else {
                assert(live(slots, seen)[i] == slots[slots.len() - 1]);
            }
        }
    }
}

} // verus!
