//! HTTP/3 connections, grouped by origin and route, and within an entry by
//! the transport location that they reach.

use vstd::prelude::*;
use crate::endpoint::{
    ConnectUdpTcpProtocol, Endpoint, HttpProtocol, Route, RouteView, Socks5DnsMode,
};
use crate::error::{RequestError, RequestErrorKind};
use crate::lru::{
    lemma_position_unique, lemma_without, lookup, stored, touched, unique_keys, without, Key,
    LruList,
};
use crate::pool::admission::{Admission, AdmissionRegistry, Admitted};
use crate::pool::entries::{Entered, Entries};
use crate::pool::key::{key_of, KeyMode, PoolKey};
use crate::pool::plan::unsupported;
use crate::text::{lowercase, to_lowercase};
use crate::timeout::TimeoutPhase;

verus! {

/// Network location used to reach an HTTP/3 origin.
///
/// The origin endpoint still owns TLS authentication, request authority, pool
/// identity, and route policy. This value changes only where QUIC is sent.
#[derive(Debug, PartialEq, Eq)]
pub struct Http3TransportTarget {
    pub host: String,
    pub port: u16,
}

impl Http3TransportTarget {
    /// A location.
    pub fn new(host: &str, port: u16) -> (r: Self)
        ensures
            r.host@ == host@,
            r.port == port,
    {
        Http3TransportTarget { host: host.to_owned(), port }
    }

    /// The location of the origin itself.
    pub fn for_origin(endpoint: &Endpoint) -> (r: Self)
        ensures
            r.host@ == endpoint.host@,
            r.port == endpoint.port,
    {
        Http3TransportTarget { host: endpoint.host.clone(), port: endpoint.port }
    }
}

/// A transport location as connections are kept by it.
#[derive(Debug, PartialEq, Eq)]
pub struct TransportLocation {
    pub host: String,
    pub port: u16,
}

impl View for TransportLocation {
    type V = (Seq<char>, u16);

    open spec fn view(&self) -> (Seq<char>, u16) {
        (self.host@, self.port)
    }
}

impl Key for TransportLocation {
    fn same(&self, other: &Self) -> (r: bool) {
        self.host == other.host && self.port == other.port
    }
}

impl Clone for TransportLocation {
    fn clone(&self) -> (r: Self)
        ensures
            r@ == self@,
    {
        TransportLocation { host: self.host.clone(), port: self.port }
    }
}

impl TransportLocation {
    /// Returns the location of a target, whatever the case of its host.
    pub fn new(target: &Http3TransportTarget) -> (r: Self)
        ensures
            r@ == (lowercase(target.host@), target.port),
    {
        TransportLocation { host: to_lowercase(target.host.as_str()), port: target.port }
    }
}

/// The pool's entries and admissions.
#[derive(Debug)]
pub struct Http3Pool {
    pub entries: Entries,
    pub admissions: AdmissionRegistry<PoolKey>,
    pub max_active: usize,
    pub max_pending: usize,
}

impl Http3Pool {
    /// The bounds of entries and admissions are kept.
    pub open spec fn wf(&self) -> bool {
        &&& self.entries.wf()
        &&& self.admissions.wf()
        &&& self.admissions.bounds() == (self.max_active, self.max_pending)
        &&& self.max_active > 0
        &&& self.max_pending > 0
    }

    /// A pool of up to `capacity` entries.
    pub fn new(capacity: usize, max_active: usize, max_pending: usize) -> (r: Self)
        requires
            capacity > 0,
            max_active > 0,
            max_pending > 0,
        ensures
            r.wf(),
            r.entries.bound() == capacity,
            r.entries@.len() == 0,
            r.entries.next() == 0,
            r.max_active == max_active,
            r.max_pending == max_pending,
    {
        Http3Pool {
            entries: Entries::new(capacity),
            admissions: AdmissionRegistry::new(max_active, max_pending),
            max_active,
            max_pending,
        }
    }

    /// Returns the most entries kept.
    pub fn capacity(&self) -> (r: usize)
        ensures
            r == self.entries.bound(),
    {
        self.entries.capacity()
    }

    /// Returns the most requests of one key that run at once.
    pub fn max_active(&self) -> (r: usize)
        ensures
            r == self.max_active,
    {
        self.max_active
    }

    /// Returns the most requests of one key that wait.
    pub fn max_pending(&self) -> (r: usize)
        ensures
            r == self.max_pending,
    {
        self.max_pending
    }

    /// Returns the entry of an origin over a route.
    pub fn entry(&mut self, endpoint: &Endpoint, route: &Route) -> (r: Entered)
        requires
            old(self).wf(),
            old(self).entries.next() < u64::MAX,
        ensures
            final(self).wf(),
            final(self).admissions == old(self).admissions,
            final(self).entries@ == old(self).entries.after(
                key_of(endpoint, route, KeyMode::Http3),
            ),
            r == old(self).entries.entered(key_of(endpoint, route, KeyMode::Http3)),
            final(self).entries.bound() == old(self).entries.bound(),
            final(self).entries.next() == old(self).entries.next() + (if r.created {
                1int
            } else {
                0
            }),
    {
        self.entries.enter(PoolKey::new(endpoint, route, KeyMode::Http3))
    }
}

/// Transport locations that keep a connection within one origin-and-route
/// entry.
///
/// Exact HTTP/3 dials the origin location while an Alt-Svc attempt dials the
/// alternative; separate slots stop each switch from replacing the other's
/// connection. The least recently used location is closed beyond this bound.
pub const MAX_TRANSPORT_LOCATIONS_PER_ENTRY: usize = 4;

/// The slots of an entry: a connection per location, least recently used
/// first.
pub type Slots = Seq<((Seq<char>, u16), u64)>;

/// The connections of one entry, each named by a number, and the turns to
/// connect.
#[derive(Debug)]
pub struct Http3Entry {
    slots: LruList<TransportLocation, u64>,
    turns: AdmissionRegistry<TransportLocation>,
}

/// Whether the slot at `i` is the first that holds a connection.
pub open spec fn holds_at(slots: Slots, connection: u64, i: int) -> bool {
    &&& 0 <= i < slots.len()
    &&& slots[i].1 == connection
    &&& forall|j: int| 0 <= j < i ==> (#[trigger] slots[j]).1 != connection
}

/// The slots without the first that holds a connection.
pub open spec fn dropped(slots: Slots, connection: u64) -> Slots {
    if exists|i: int| holds_at(slots, connection, i) {
        slots.remove(choose|i: int| holds_at(slots, connection, i))
    } else {
        slots
    }
}

impl Http3Entry {
    /// The connections by location, least recently used first.
    pub closed spec fn view(&self) -> Slots {
        self.slots@
    }

    /// The turns to connect to a location: one at a time.
    pub closed spec fn turns_at(&self, location: (Seq<char>, u16)) -> Admission {
        self.turns.at(location)
    }

    /// Each location has one connection, within the bound, and one setup at a
    /// time.
    pub closed spec fn wf(&self) -> bool {
        &&& self.slots.wf()
        &&& self.slots.bound() == MAX_TRANSPORT_LOCATIONS_PER_ENTRY
        &&& self.turns.wf()
        &&& self.turns.bounds() == (1usize, usize::MAX)
    }

    /// What the invariant says of the connections.
    pub proof fn lemma_wf(&self)
        requires
            self.wf(),
        ensures
            self@.len() <= MAX_TRANSPORT_LOCATIONS_PER_ENTRY,
            unique_keys(self@),
    {
    }

    /// No connection and no setup.
    pub fn new() -> (r: Self)
        ensures
            r.wf(),
            r@ == Seq::<((Seq<char>, u16), u64)>::empty(),
            forall|location: (Seq<char>, u16)|
                #[trigger] r.turns_at(location) == Admission::fresh(1, usize::MAX),
    {
        Http3Entry {
            slots: LruList::new(MAX_TRANSPORT_LOCATIONS_PER_ENTRY),
            turns: AdmissionRegistry::new(1, usize::MAX),
        }
    }

    /// Asks for the turn to set up a connection to a location.
    ///
    /// A request for the same location waits for the turn and then reuses the
    /// connection it pooled, while setup to another location of the entry,
    /// such as exact HTTP/3 beside an Alt-Svc alternative, proceeds
    /// independently.
    pub fn connect_turn(&mut self, location: &TransportLocation) -> (r: Admitted)
        requires
            old(self).wf(),
        ensures
            final(self).wf(),
            final(self)@ == old(self)@,
            (final(self).turns_at(location@), r) == old(self).turns_at(location@).admitted(),
            forall|other: (Seq<char>, u16)|
                other != location@ ==> #[trigger] final(self).turns_at(other) == old(self).turns_at(
                    other,
                ),
    {
        self.turns.acquire(location.clone())
    }

    /// Ends a turn. Returns whether a waiting setup has it now.
    pub fn end_turn(&mut self, location: &TransportLocation) -> (r: bool)
        requires
            old(self).wf(),
            old(self).turns_at(location@).active > 0,
        ensures
            final(self).wf(),
            final(self)@ == old(self)@,
            (final(self).turns_at(location@), r) == old(self).turns_at(location@).released(),
            forall|other: (Seq<char>, u16)|
                other != location@ ==> #[trigger] final(self).turns_at(other) == old(self).turns_at(
                    other,
                ),
    {
        self.turns.release(location.clone())
    }

    /// Takes a setup that was given up out of the waiting ones.
    pub fn leave_turn(&mut self, location: &TransportLocation)
        requires
            old(self).wf(),
            old(self).turns_at(location@).pending > 0,
        ensures
            final(self).wf(),
            final(self)@ == old(self)@,
            final(self).turns_at(location@) == old(self).turns_at(location@).withdrawn(),
            forall|other: (Seq<char>, u16)|
                other != location@ ==> #[trigger] final(self).turns_at(other) == old(self).turns_at(
                    other,
                ),
    {
        self.turns.withdraw(location.clone())
    }

    /// Returns whether nobody sets up or waits to set up a connection.
    pub fn turns_are_free(&self) -> (r: bool)
        requires
            self.wf(),
        ensures
            r ==> forall|location: (Seq<char>, u16)|
                #[trigger] self.turns_at(location) == Admission::fresh(1, usize::MAX),
            !r ==> exists|location: (Seq<char>, u16)|
                (#[trigger] self.turns_at(location)).active > 0 || self.turns_at(location).pending
                    > 0,
    {
        let free = self.turns.is_empty();
        proof {
            if !free {
                let location = choose|location: (Seq<char>, u16)|
                    (#[trigger] self.turns.at(location)).active > 0 || self.turns.at(location).pending
                        > 0;
                assert(self.turns_at(location) == self.turns.at(location));
            }
        }
        free
    }

    /// Returns the connection that is kept for a location.
    pub fn kept(&self, location: &TransportLocation) -> (r: Option<u64>)
        ensures
            r == lookup(self@, location@),
    {
        match self.slots.find(location) {
            Some(i) => {
                let (_, connection) = self.slots.entry(i);
                Some(*connection)
            },
            None => None,
        }
    }

    /// Takes the connection of a location if it can be reused, marking it
    /// recently used; one that cannot is forgotten.
    pub fn take(&mut self, location: &TransportLocation, reusable: bool) -> (r: Option<u64>)
        requires
            old(self).wf(),
        ensures
            final(self).wf(),
            forall|other: (Seq<char>, u16)|
                #[trigger] final(self).turns_at(other) == old(self).turns_at(other),
            reusable ==> final(self)@ == touched(old(self)@, location@) && r == lookup(
                old(self)@,
                location@,
            ),
            !reusable ==> final(self)@ == without(old(self)@, location@) && r is None,
    {
        if reusable {
            let connection = self.kept(location);
            let _ = self.slots.touch(location);
            connection
        } else {
            self.slots.remove(location);
            None
        }
    }

    /// Keeps a new connection to a location as the most recently used one.
    /// At the bound, the least recently used location is closed.
    pub fn opened(&mut self, location: &TransportLocation, connection: u64)
        requires
            old(self).wf(),
        ensures
            final(self).wf(),
            forall|other: (Seq<char>, u16)|
                #[trigger] final(self).turns_at(other) == old(self).turns_at(other),
            final(self)@ == stored(
                old(self)@,
                location@,
                connection,
                MAX_TRANSPORT_LOCATIONS_PER_ENTRY as nat,
            ),
    {
        self.slots.store(location.clone(), connection);
    }

    /// Forgets a connection, if the entry still holds it.
    pub fn invalidate(&mut self, connection: u64)
        requires
            old(self).wf(),
        ensures
            final(self).wf(),
            forall|other: (Seq<char>, u16)|
                #[trigger] final(self).turns_at(other) == old(self).turns_at(other),
            final(self)@ == dropped(old(self)@, connection),
    {
        let mut i: usize = 0;
        while i < self.slots.len()
            invariant
                i <= self.slots@.len(),
                self.wf(),
                *self == *old(self),
                forall|j: int| 0 <= j < i ==> (#[trigger] self.slots@[j]).1 != connection,
            decreases self.slots@.len() - i,
        {
            let (_, held) = self.slots.entry(i);
            if *held == connection {
                proof {
                    assert(holds_at(self.slots@, connection, i as int));
                    let k = choose|k: int| holds_at(self.slots@, connection, k);
                    assert(k == i) by {
                        if k < i {
                            assert(self.slots@[k].1 != connection);
                        } else if i < k {
                            assert(self.slots@[i as int].1 != connection);
                        }
                    }
                    lemma_position_unique(self.slots@, self.slots@[i as int].0, i as int);
                    lemma_without(self.slots@, self.slots@[i as int].0);
                }
                let _ = self.slots.take(i);
                return;
            }
            i += 1;
        }
        assert(!(exists|k: int| holds_at(self.slots@, connection, k)));
    }
}

/// How an HTTP/3 connection reaches its transport location.
#[derive(Clone, Copy, Debug, PartialEq, Eq, Structural)]
pub enum Http3Plan {
    Direct,
    /// A UDP association of a SOCKS5 proxy that gets the location's address or
    /// its name.
    Socks5(Socks5DnsMode),
    /// A CONNECT-UDP request over an outer HTTP/3 connection.
    ConnectUdp,
    /// A CONNECT-UDP request over a TCP connection.
    ConnectUdpOverTcp(ConnectUdpTcpProtocol),
}

/// Which connectors to CONNECT-UDP proxies there are.
#[derive(Clone, Copy, Debug, PartialEq, Eq, Structural)]
pub struct ConnectUdpConnectors {
    /// Outer HTTP/3 connector, absent when proxy verification is disabled or
    /// the profile has no HTTP/3.
    pub http3: bool,
    /// TLS connector for HTTP/1.1 and HTTP/2 legs, absent when proxy
    /// verification is disabled or TLS cannot offer `http/1.1`.
    pub tcp: bool,
}

/// Whether the connector that a CONNECT-UDP route needs is there.
pub open spec fn has_connector(
    connectors: Option<ConnectUdpConnectors>,
    tcp_protocol: Option<ConnectUdpTcpProtocol>,
) -> bool {
    match connectors {
        Some(connectors) => if tcp_protocol is Some {
            connectors.tcp
        } else {
            connectors.http3
        },
        None => false,
    }
}

fn connector_ready(
    connectors: Option<ConnectUdpConnectors>,
    tcp_protocol: Option<ConnectUdpTcpProtocol>,
) -> (r: bool)
    ensures
        r == has_connector(connectors, tcp_protocol),
{
    match connectors {
        Some(connectors) => if tcp_protocol.is_some() {
            connectors.tcp
        } else {
            connectors.http3
        },
        None => false,
    }
}

/// The error of a CONNECT-UDP template that does not expand.
pub open spec fn bad_target() -> RequestError {
    RequestError::of_kind(RequestErrorKind::InvalidTarget, None)
}

/// How an HTTP/3 connection reaches its transport location.
pub open spec fn http3_plan(
    route: RouteView,
    connectors: Option<ConnectUdpConnectors>,
    expands: bool,
) -> Result<Http3Plan, RequestError> {
    match route {
        RouteView::Direct => Ok(Http3Plan::Direct),
        RouteView::Socks5 { dns_mode, .. } => Ok(Http3Plan::Socks5(dns_mode)),
        RouteView::HttpProxy { .. } => Err(unsupported(Some(HttpProtocol::Http3))),
        RouteView::ConnectUdp { tcp_protocol, .. } => if !has_connector(connectors, tcp_protocol) {
            Err(unsupported(Some(HttpProtocol::Http3)))
        } else if !expands {
            Err(bad_target())
        } else {
            Ok(
                match tcp_protocol {
                    None => Http3Plan::ConnectUdp,
                    Some(protocol) => Http3Plan::ConnectUdpOverTcp(protocol),
                },
            )
        },
    }
}

/// What the check of a request's route comes to.
pub open spec fn route_checked(
    checked: Result<(), RequestError>,
    route: RouteView,
    connectors: Option<ConnectUdpConnectors>,
    expands: bool,
    accepted: Result<(), RequestError>,
) -> Result<(), RequestError> {
    match (checked, route) {
        (Err(error), _) => Err(error),
        (Ok(_), RouteView::ConnectUdp { tcp_protocol, .. }) => if !expands {
            Err(bad_target())
        } else if !has_connector(connectors, tcp_protocol) {
            Err(unsupported(Some(HttpProtocol::Http3)))
        } else {
            accepted
        },
        (Ok(_), _) => Ok(()),
    }
}

/// Plans an HTTP/3 connection. `expands` says whether the CONNECT-UDP
/// template expands to a path for the transport location. Every inner
/// connection has an outer connection and a CONNECT-UDP request of its own.
pub fn plan_http3(route: &Route, connectors: Option<ConnectUdpConnectors>, expands: bool) -> (r:
    Result<Http3Plan, RequestError>)
    ensures
        r == http3_plan(route@, connectors, expands),
{
    match route {
        Route::Direct => Ok(Http3Plan::Direct),
        Route::Socks5(proxy) => Ok(Http3Plan::Socks5(proxy.dns_mode)),
        Route::HttpProxy(_) => Err(
            RequestError::new(RequestErrorKind::UnsupportedRoute, Some(HttpProtocol::Http3)),
        ),
        Route::ConnectUdp(proxy) => {
            if !connector_ready(connectors, proxy.tcp_protocol) {
                return Err(
                    RequestError::new(RequestErrorKind::UnsupportedRoute, Some(HttpProtocol::Http3)),
                );
            }
            if !expands {
                return Err(RequestError::new(RequestErrorKind::InvalidTarget, None));
            }
            match proxy.tcp_protocol {
                None => Ok(Http3Plan::ConnectUdp),
                Some(protocol) => Ok(Http3Plan::ConnectUdpOverTcp(protocol)),
            }
        },
    }
}

/// Checks a request's route before any I/O: over CONNECT-UDP the template has
/// to expand, the connector has to be there, and it has to accept the
/// request. The request's own fields were checked already.
pub fn check_route(
    checked: Result<(), RequestError>,
    route: &Route,
    connectors: Option<ConnectUdpConnectors>,
    expands: bool,
    accepted: Result<(), RequestError>,
) -> (r: Result<(), RequestError>)
    ensures
        r == route_checked(checked, route@, connectors, expands, accepted),
{
    match checked {
        Err(error) => {
            return Err(error);
        },
        Ok(_) => {},
    }
    match route {
        Route::ConnectUdp(proxy) => {
            if !expands {
                return Err(RequestError::new(RequestErrorKind::InvalidTarget, None));
            }
            if !connector_ready(connectors, proxy.tcp_protocol) {
                return Err(
                    RequestError::new(RequestErrorKind::UnsupportedRoute, Some(HttpProtocol::Http3)),
                );
            }
            accepted
        },
        _ => Ok(()),
    }
}

/// The failure of a connection attempt that reached its own limit.
pub fn attempt_limit_reached() -> (r: RequestError)
    ensures
        r == RequestError::timed_out(TimeoutPhase::Connect, Some(HttpProtocol::Http3)),
{
    RequestError::timeout(TimeoutPhase::Connect, Some(HttpProtocol::Http3))
}

/// Returns whether a connection takes no other request after one failed on
/// it: it cannot be reused, or it rejected the request and unprocessed
/// requests are replayed, which needs another connection.
pub fn retires_connection(reusable: bool, replays_unprocessed: bool, unprocessed: bool) -> (r: bool)
    ensures
        r == (!reusable || (replays_unprocessed && unprocessed)),
{
    !reusable || (replays_unprocessed && unprocessed)
}

/// HTTP/3 goes straight to its location over a direct route, through a UDP
/// association of the route's SOCKS5 proxy, resolved on the side that the
/// route names, or through a CONNECT-UDP tunnel over the protocol that the
/// route names, never through an HTTP proxy. A tunnel needs a connector for
/// its own leg, over TCP or over HTTP/3, and a template that expands.
pub proof fn http3_takes_the_route_as_it_is(
    route: Route,
    connectors: Option<ConnectUdpConnectors>,
    expands: bool,
)
    ensures
        ({
            let plan = http3_plan(route@, connectors, expands);
            match route {
                Route::Direct => plan == Ok::<Http3Plan, RequestError>(Http3Plan::Direct),
                Route::Socks5(proxy) => plan == Ok::<Http3Plan, RequestError>(
                    Http3Plan::Socks5(proxy.dns_mode),
                ),
                Route::HttpProxy(_) => plan matches Err(error) && error.kind
                    == RequestErrorKind::UnsupportedRoute,
                Route::ConnectUdp(proxy) => {
                    let ready = connectors matches Some(held) && (match proxy.tcp_protocol {
                        Some(_) => held.tcp,
                        None => held.http3,
                    });
                    match plan {
                        Ok(Http3Plan::ConnectUdp) => ready && expands && proxy.tcp_protocol is None,
                        Ok(Http3Plan::ConnectUdpOverTcp(protocol)) => ready && expands
                            && proxy.tcp_protocol == Some(protocol),
                        Ok(_) => false,
                        Err(error) => if ready {
                            !expands && error.kind == RequestErrorKind::InvalidTarget
                        } else {
                            error.kind == RequestErrorKind::UnsupportedRoute
                        },
                    }
                },
            }
        }),
{
}

/// A request passes the check of its route exactly when its own check
/// passed and, over CONNECT-UDP, its template expands, the connector of its
/// leg is there and took the request. What passes can be planned.
pub proof fn a_checked_route_can_be_planned(
    checked: Result<(), RequestError>,
    route: Route,
    connectors: Option<ConnectUdpConnectors>,
    expands: bool,
    accepted: Result<(), RequestError>,
)
    ensures
        ({
            let result = route_checked(checked, route@, connectors, expands, accepted);
            &&& checked matches Err(error) ==> result == Err::<(), RequestError>(error)
            &&& checked is Ok && !(route is ConnectUdp) ==> result is Ok
            &&& route is ConnectUdp && result is Ok ==> http3_plan(
                route@,
                connectors,
                expands,
            ) is Ok && accepted is Ok
            &&& route is ConnectUdp && checked is Ok && http3_plan(
                route@,
                connectors,
                expands,
            ) is Ok ==> result == accepted
        }),
{
}

/// Two setups to one location never run at once, and setups to different
/// locations do not wait for each other.
pub proof fn one_setup_per_location(entry: Http3Entry, one: (Seq<char>, u16), other: (Seq<char>, u16))
    requires
        entry.wf(),
        entry.turns_at(one).active == 1,
        entry.turns_at(other).active == 0,
        entry.turns_at(one).pending < usize::MAX,
    ensures
        entry.turns_at(one).admitted().1 == Admitted::Waiting,
        entry.turns_at(other).admitted().1 == Admitted::Granted,
{
    entry.lemma_turns(one);
    entry.lemma_turns(other);
}

impl Http3Entry {
    /// A location has one turn.
    pub proof fn lemma_turns(&self, location: (Seq<char>, u16))
        requires
            self.wf(),
        ensures
            self.turns_at(location).wf(),
            self.turns_at(location).max_active == 1,
            self.turns_at(location).max_pending == usize::MAX,
    {
        self.turns.lemma_at(location);
    }
}

} // verus!
