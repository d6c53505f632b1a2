//! Pool keys: what keeps connections apart.

use vstd::prelude::*;
use crate::endpoint::{origin_of, Endpoint, OriginKey, OriginView, Route, RouteView};
use crate::lru::Key;

verus! {

/// How an HTTP/1.1 pool connection reaches its origin.
#[derive(Clone, Copy, Debug, PartialEq, Eq, Structural)]
pub enum Http1ConnectionMode {
    /// TLS to the origin, directly or through a tunnel.
    TlsOrigin,
    /// Plaintext to the origin.
    PlaintextOrigin,
    /// To a proxy that forwards plaintext requests.
    Forward,
}

/// How an HTTP/2 pool connection reaches its origin.
#[derive(Clone, Copy, Debug, PartialEq, Eq, Structural)]
pub enum Http2ConnectionMode {
    /// TLS to the origin, directly or through a tunnel.
    TlsOrigin,
    /// A connection to an HTTP/2 proxy that forwards `http://` requests
    /// with `:scheme` `http`.
    Forward,
}

/// How the connections of a key are made.
#[derive(Clone, Copy, Debug, PartialEq, Eq, Structural)]
pub enum KeyMode {
    /// ALPN chooses the protocol.
    Negotiated,
    Http1(Http1ConnectionMode),
    Http2(Http2ConnectionMode),
    Http3,
}

/// An origin, a route to it, and how connections are made.
#[derive(Debug, PartialEq, Eq)]
pub struct PoolKey {
    pub origin: OriginKey,
    pub route: Route,
    pub mode: KeyMode,
}

/// What a [`PoolKey`] holds.
pub struct PoolKeyView {
    pub origin: OriginView,
    pub route: RouteView,
    pub mode: KeyMode,
}

impl View for PoolKey {
    type V = PoolKeyView;

    open spec fn view(&self) -> PoolKeyView {
        PoolKeyView { origin: self.origin@, route: self.route@, mode: self.mode }
    }
}

impl Key for PoolKey {
    fn same(&self, other: &Self) -> (r: bool) {
        self.mode == other.mode && self.origin.same(&other.origin) && self.route.same(&other.route)
    }
}

impl Clone for PoolKey {
    fn clone(&self) -> (r: Self)
        ensures
            r@ == self@,
    {
        PoolKey { origin: self.origin.clone(), route: self.route.clone(), mode: self.mode }
    }
}

/// The key of an endpoint over a route.
pub open spec fn key_of(endpoint: &Endpoint, route: &Route, mode: KeyMode) -> PoolKeyView {
    PoolKeyView { origin: origin_of(endpoint), route: route@, mode }
}

impl PoolKey {
    /// Returns the key of `endpoint` over `route`.
    pub fn new(endpoint: &Endpoint, route: &Route, mode: KeyMode) -> (r: Self)
        ensures
            r@ == key_of(endpoint, route, mode),
    {
        PoolKey { origin: OriginKey::new(endpoint), route: route.clone(), mode }
    }
}

} // verus!
