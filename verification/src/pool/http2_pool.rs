//! Exact HTTP/2 connections, grouped by origin and route. Each key keeps one
//! connection, or as many as the caller allows, which all of its requests
//! share.

use vstd::prelude::*;
use crate::endpoint::{Endpoint, HttpProtocol, Route, RouteView};
use crate::error::{RequestError, RequestErrorKind};
use crate::lru::lookup;
use crate::pool::admission::AdmissionRegistry;
use crate::pool::entries::{Entered, Entries};
use crate::pool::http2_connections::{Http2Load, Http2Spread};
use crate::pool::key::{key_of, Http2ConnectionMode, KeyMode, PoolKey};
use crate::pool::negotiated::{
    end_stream, ended, invalidate, invalidated, lemma_room, live, loads, survey, Http2Seen,
    Http2Slot,
};
use crate::pool::plan::{forwards_http2, forwards_plaintext_over_http2, unsupported};
use crate::pool::spread::{lemma_choice, Choice};

verus! {

/// The pool's entries and admissions.
#[derive(Debug)]
pub struct Http2Pool {
    pub entries: Entries,
    pub admissions: AdmissionRegistry<PoolKey>,
    pub max_active: usize,
    pub max_pending: usize,
    pub max_connections: usize,
}

impl Http2Pool {
    /// The bounds of entries and admissions are kept.
    pub open spec fn wf(&self) -> bool {
        &&& self.entries.wf()
        &&& self.admissions.wf()
        &&& self.admissions.bounds() == (self.max_active, self.max_pending)
        &&& self.max_active > 0
        &&& self.max_pending > 0
        &&& self.max_connections > 0
    }

    /// A pool of up to `capacity` entries, with one connection per key.
    pub fn new(capacity: usize, max_active: usize, max_pending: usize) -> (r: Self)
        requires
            capacity > 0,
            max_active > 0,
            max_pending > 0,
        ensures
            r.wf(),
            r.entries.bound() == capacity,
            r.entries@.len() == 0,
            r.entries.next() == 0,
            r.max_active == max_active,
            r.max_pending == max_pending,
            r.max_connections == 1,
    {
        Http2Pool {
            entries: Entries::new(capacity),
            admissions: AdmissionRegistry::new(max_active, max_pending),
            max_active,
            max_pending,
            max_connections: 1,
        }
    }

    /// Lets each pool key keep up to `maximum` connections.
    pub fn with_max_connections(self, maximum: usize) -> (r: Self)
        requires
            self.wf(),
            maximum > 0,
        ensures
            r.wf(),
            r == (Http2Pool { max_connections: maximum, ..self }),
    {
        Http2Pool { max_connections: maximum, ..self }
    }

    /// Returns the most connections of one key.
    pub fn max_connections(&self) -> (r: usize)
        ensures
            r == self.max_connections,
    {
        self.max_connections
    }

    /// Returns the most entries kept.
    pub fn capacity(&self) -> (r: usize)
        ensures
            r == self.entries.bound(),
    {
        self.entries.capacity()
    }

    /// Returns the most requests of one key that run at once.
    pub fn max_active(&self) -> (r: usize)
        ensures
            r == self.max_active,
    {
        self.max_active
    }

    /// Returns the most requests of one key that wait.
    pub fn max_pending(&self) -> (r: usize)
        ensures
            r == self.max_pending,
    {
        self.max_pending
    }

    /// Returns the entry of an origin over a route.
    pub fn entry(&mut self, endpoint: &Endpoint, route: &Route, mode: Http2ConnectionMode) -> (r:
        Entered)
        requires
            old(self).wf(),
            old(self).entries.next() < u64::MAX,
        ensures
            final(self).wf(),
            final(self).admissions == old(self).admissions,
            final(self).entries@ == old(self).entries.after(
                key_of(endpoint, route, KeyMode::Http2(mode)),
            ),
            r == old(self).entries.entered(key_of(endpoint, route, KeyMode::Http2(mode))),
            final(self).entries.bound() == old(self).entries.bound(),
            final(self).entries.next() == old(self).entries.next() + (if r.created {
                1int
            } else {
                0
            }),
            final(self).max_connections == old(self).max_connections,
    {
        self.entries.enter(PoolKey::new(endpoint, route, KeyMode::Http2(mode)))
    }

    /// Returns the entry of an origin over a route if there is one, without
    /// making one or changing which leaves first.
    pub fn existing(&self, endpoint: &Endpoint, route: &Route) -> (r: Option<u64>)
        ensures
            r == lookup(
                self.entries@,
                key_of(endpoint, route, KeyMode::Http2(Http2ConnectionMode::TlsOrigin)),
            ),
    {
        self.entries.peek(
            &PoolKey::new(endpoint, route, KeyMode::Http2(Http2ConnectionMode::TlsOrigin)),
        )
    }
}

/// Whether a request over a route can be sent at all.
pub open spec fn admissible(mode: Http2ConnectionMode, route: RouteView, https_proxy: bool) -> bool {
    &&& Route::proxy_tls(route) ==> https_proxy
    &&& mode == Http2ConnectionMode::Forward ==> forwards_http2(route)
}

/// Lets a checked request pass to its key's admission, or says why not.
pub fn begin(
    checked: Result<(), RequestError>,
    mode: Http2ConnectionMode,
    route: &Route,
    https_proxy: bool,
) -> (r: Result<(), RequestError>)
    ensures
        r == (match checked {
            Err(error) => Err::<(), RequestError>(error),
            Ok(_) => if admissible(mode, route@, https_proxy) {
                Ok(())
            } else {
                Err(unsupported(Some(HttpProtocol::Http2)))
            },
        }),
{
    match checked {
        Err(error) => {
            return Err(error);
        },
        Ok(_) => {},
    }
    if route.proxy_uses_tls() && !https_proxy {
        return Err(RequestError::new(RequestErrorKind::UnsupportedRoute, Some(HttpProtocol::Http2)));
    }
    if mode == Http2ConnectionMode::Forward && !forwards_plaintext_over_http2(route) {
        return Err(RequestError::new(RequestErrorKind::UnsupportedRoute, Some(HttpProtocol::Http2)));
    }
    Ok(())
}

/// The connections of one key, oldest first.
#[derive(Debug)]
pub struct Http2Entry {
    pub slots: Vec<Http2Slot>,
    pub spread: Http2Spread,
}

/// What an [`Http2Entry`] holds.
pub struct Http2EntryView {
    pub slots: Seq<Http2Slot>,
    pub spread: Http2Spread,
}

impl View for Http2Entry {
    type V = Http2EntryView;

    open spec fn view(&self) -> Http2EntryView {
        Http2EntryView { slots: self.slots@, spread: self.spread }
    }
}

impl Http2EntryView {
    /// The entry after closed connections were forgotten and reported limits
    /// were learned.
    pub open spec fn settled(self, seen: Seq<Http2Seen>) -> Http2EntryView {
        Http2EntryView {
            slots: live(self.slots, seen),
            spread: self.spread.after(loads(self.slots, seen)),
        }
    }

    /// What a new stream does.
    pub open spec fn choice(self, seen: Seq<Http2Seen>) -> Choice {
        self.spread.chosen(loads(self.slots, seen))
    }

    /// The entry after a request asked for a stream, and the connection it
    /// has; without one, the request opens a connection.
    pub open spec fn acquired(self, seen: Seq<Http2Seen>) -> (Http2EntryView, Option<u64>) {
        let now = self.settled(seen);
        match self.choice(seen) {
            Choice::Use(i) => {
                let slot = now.slots[i as int];
                (
                    Http2EntryView {
                        slots: now.slots.update(
                            i as int,
                            Http2Slot { streams: (slot.streams + 1) as usize, ..slot },
                        ),
                        ..now
                    },
                    Some(slot.connection),
                )
            },
            Choice::Open => (now, None),
        }
    }

    /// The connection that a new stream would use, or else the oldest.
    pub open spec fn current(self, seen: Seq<Http2Seen>) -> Option<u64> {
        let slots = live(self.slots, seen);
        match self.choice(seen) {
            Choice::Use(i) => Some(slots[i as int].connection),
            Choice::Open => if slots.len() > 0 {
                Some(slots[0].connection)
            } else {
                None
            },
        }
    }
}

impl Http2Entry {
    /// No connection.
    pub fn new(spread: Http2Spread) -> (r: Self)
        ensures
            r@ == (Http2EntryView { slots: Seq::empty(), spread }),
    {
        Http2Entry { slots: Vec::new(), spread }
    }

    fn choose_connection(&mut self, seen: &Vec<Http2Seen>) -> (r: Choice)
        requires
            seen@.len() == old(self)@.slots.len(),
        ensures
            final(self)@ == old(self)@.settled(seen@),
            r == old(self)@.choice(seen@),
            r matches Choice::Use(i) ==> i < final(self)@.slots.len(),
    {
        let (kept, list) = survey(&self.slots, seen);
        self.slots = kept;
        self.spread.select(&list)
    }

    /// Leases a stream on the connection with the fewest, or returns `None`
    /// when the request opens a connection.
    pub fn acquire(&mut self, seen: &Vec<Http2Seen>) -> (r: Option<u64>)
        requires
            seen@.len() == old(self)@.slots.len(),
            forall|i: int|
                0 <= i < old(self)@.slots.len() ==> (#[trigger] old(self)@.slots[i]).streams
                    < usize::MAX,
        ensures
            (final(self)@, r) == old(self)@.acquired(seen@),
    {
        let ghost before = self.slots@;
        match self.choose_connection(seen) {
            Choice::Use(i) => {
                proof {
                    lemma_room(before, seen@);
                }
                let slot = self.slots[i];
                self.slots.set(
                    i,
                    Http2Slot { connection: slot.connection, streams: slot.streams + 1 },
                );
                Some(slot.connection)
            },
            Choice::Open => None,
        }
    }

    /// Returns a reusable connection of the key, whether or not it has room
    /// for another stream.
    pub fn current_reusable(&mut self, seen: &Vec<Http2Seen>) -> (r: Option<u64>)
        requires
            seen@.len() == old(self)@.slots.len(),
        ensures
            final(self)@ == old(self)@.settled(seen@),
            r == old(self)@.current(seen@),
    {
        match self.choose_connection(seen) {
            Choice::Use(i) => Some(self.slots[i].connection),
            Choice::Open => if self.slots.len() > 0 {
                Some(self.slots[0].connection)
            } else {
                None
            },
        }
    }

    /// Keeps a new connection, with the stream of the request that opened it.
    pub fn opened(&mut self, connection: u64)
        ensures
            final(self)@ == (Http2EntryView {
                slots: old(self)@.slots.push(Http2Slot { connection, streams: 1 }),
                ..old(self)@
            }),
    {
        self.slots.push(Http2Slot { connection, streams: 1 });
    }

    /// Counts one stream less on a connection, if the key still holds it.
    pub fn end(&mut self, connection: u64)
        ensures
            final(self)@ == (Http2EntryView {
                slots: ended(old(self)@.slots, connection),
                ..old(self)@
            }),
    {
        self.slots = end_stream(&self.slots, connection);
    }

    /// Forgets a connection, if the key still holds it.
    pub fn invalidate(&mut self, connection: u64)
        ensures
            final(self)@ == (Http2EntryView {
                slots: invalidated(old(self)@.slots, connection),
                ..old(self)@
            }),
    {
        invalidate(&mut self.slots, connection);
    }
}

/// A key that is allowed one connection, as browsers keep one, sends every
/// request on it while it is reusable.
pub proof fn one_connection_carries_every_request(entry: Http2EntryView, seen: Http2Seen)
    requires
        entry.spread.max_connections == 1,
        entry.slots.len() == 1,
        seen.reusable,
    ensures
        entry.acquired(seq![seen]).1 == Some(entry.slots[0].connection),
{
    let all = seq![seen];
    assert(entry.slots.drop_last() =~= Seq::empty());
    assert(all.drop_last() =~= Seq::empty());
    reveal_with_fuel(live, 2);
    reveal_with_fuel(loads, 2);
    let list = loads(entry.slots, all);
    assert(live(entry.slots, all) =~= seq![entry.slots[0]]);
    assert(list.len() == 1);
    let counts = list.map_values(|connection: Http2Load| connection.streams);
    lemma_choice(counts, entry.spread.rooms(list), 1);
}

} // verus!
