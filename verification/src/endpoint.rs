//! Where a request goes: its origin endpoint and the route to it.

use vstd::prelude::*;
use crate::host::{http_authority, parse_authority, strip_brackets, unbracketed};
use crate::lru::Key;
use crate::text::{lowercase, same_bytes, to_lowercase};

verus! {

/// An HTTP protocol version.
#[derive(Clone, Copy, Debug, PartialEq, Eq, Structural)]
pub enum HttpProtocol {
    Http1,
    Http2,
    Http3,
}

/// One field of a request, as it is sent.
#[derive(Debug, PartialEq, Eq)]
pub struct RequestHeader {
    pub name: String,
    pub value: Vec<u8>,
}

/// What a [`RequestHeader`] holds.
pub struct HeaderView {
    pub name: Seq<char>,
    pub value: Seq<u8>,
}

impl View for RequestHeader {
    type V = HeaderView;

    open spec fn view(&self) -> HeaderView {
        HeaderView { name: self.name@, value: self.value@ }
    }
}

/// What a list of fields holds.
pub open spec fn headers_view(headers: Seq<RequestHeader>) -> Seq<HeaderView> {
    headers.map_values(|header: RequestHeader| header@)
}

/// Copies bytes.
pub fn copy_bytes(bytes: &[u8]) -> (r: Vec<u8>)
    ensures
        r@ == bytes@,
{
    let mut out: Vec<u8> = Vec::new();
    let mut i: usize = 0;
    while i < bytes.len()
        invariant
            i <= bytes@.len(),
            out@ == bytes@.take(i as int),
        decreases bytes@.len() - i,
    {
        out.push(bytes[i]);
        assert(bytes@.take(i + 1) =~= bytes@.take(i as int).push(bytes@[i as int]));
        i = i + 1;
    }
    assert(bytes@.take(i as int) =~= bytes@);
    out
}

impl RequestHeader {
    /// A field with `name` and `value`.
    pub fn new(name: &str, value: &[u8]) -> (r: Self)
        ensures
            r@ == (HeaderView { name: name@, value: value@ }),
    {
        RequestHeader { name: name.to_owned(), value: copy_bytes(value) }
    }
}

impl Clone for RequestHeader {
    fn clone(&self) -> (r: Self)
        ensures
            r@ == self@,
    {
        RequestHeader { name: self.name.clone(), value: copy_bytes(self.value.as_slice()) }
    }
}

/// Copies a list of fields.
pub fn copy_headers(headers: &Vec<RequestHeader>) -> (r: Vec<RequestHeader>)
    ensures
        headers_view(r@) == headers_view(headers@),
{
    let mut out: Vec<RequestHeader> = Vec::new();
    let mut i: usize = 0;
    while i < headers.len()
        invariant
            i <= headers@.len(),
            out@.len() == i,
            forall|j: int| 0 <= j < i ==> (#[trigger] out@[j])@ == headers@[j]@,
        decreases headers@.len() - i,
    {
        out.push(headers[i].clone());
        i = i + 1;
    }
    assert(headers_view(out@) =~= headers_view(headers@));
    out
}

fn same_headers(a: &Vec<RequestHeader>, b: &Vec<RequestHeader>) -> (r: bool)
    ensures
        r == (headers_view(a@) == headers_view(b@)),
{
    if a.len() != b.len() {
        assert(headers_view(a@).len() != headers_view(b@).len());
        return false;
    }
    let mut i: usize = 0;
    while i < a.len()
        invariant
            a@.len() == b@.len(),
            i <= a@.len(),
            forall|j: int| 0 <= j < i ==> (#[trigger] a@[j])@ == b@[j]@,
        decreases a@.len() - i,
    {
        if a[i].name != b[i].name || !same_bytes(a[i].value.as_slice(), b[i].value.as_slice()) {
            assert(headers_view(a@)[i as int] == a@[i as int]@);
            assert(headers_view(b@)[i as int] == b@[i as int]@);
            return false;
        }
        i = i + 1;
    }
    assert(headers_view(a@) =~= headers_view(b@));
    true
}

/// The origin that a request is for.
///
/// The host stands without the brackets of an IPv6 literal.
#[derive(Debug)]
pub struct Endpoint {
    pub authority: String,
    pub host: String,
    pub port: u16,
}

impl Endpoint {
    /// The origin `host` and `port`, named `authority` in requests.
    pub fn new(authority: &str, host: &str, port: u16) -> (r: Self)
        ensures
            r.authority@ == authority@,
            r.host@ == host@,
            r.port == port,
    {
        Endpoint { authority: authority.to_owned(), host: host.to_owned(), port }
    }
}

impl Endpoint {
    /// The origin that an authority names: its host without the brackets of
    /// an IPv6 literal, and its port or `default_port`.
    pub open spec fn named(authority: Seq<char>, default_port: u16) -> Option<(Seq<char>, u16)> {
        match http_authority(authority) {
            Some(parts) => Some(
                (
                    unbracketed(parts.host),
                    match parts.port {
                        Some(port) => port,
                        None => default_port,
                    },
                ),
            ),
            None => None,
        }
    }

    /// Parses an authority.
    pub fn parse(authority: &str, default_port: u16) -> (r: Option<Self>)
        ensures
            match Self::named(authority@, default_port) {
                Some((host, port)) => r matches Some(endpoint) && endpoint.authority@ == authority@
                    && endpoint.host@ == host && endpoint.port == port,
                None => r is None,
            },
    {
        match parse_authority(authority) {
            Some((host, port)) => Some(
                Endpoint {
                    authority: authority.to_owned(),
                    host: strip_brackets(&host),
                    port: match port {
                        Some(port) => port,
                        None => default_port,
                    },
                },
            ),
            None => None,
        }
    }
}

/// A user name and password for a proxy.
#[derive(Debug, PartialEq, Eq)]
pub struct Credentials {
    pub username: String,
    pub password: String,
}

/// What [`Credentials`] hold.
pub struct CredentialsView {
    pub username: Seq<char>,
    pub password: Seq<char>,
}

impl View for Credentials {
    type V = CredentialsView;

    open spec fn view(&self) -> CredentialsView {
        CredentialsView { username: self.username@, password: self.password@ }
    }
}

/// What optional credentials hold.
pub open spec fn credentials_view(credentials: Option<Credentials>) -> Option<CredentialsView> {
    match credentials {
        Some(credentials) => Some(credentials@),
        None => None,
    }
}

fn copy_credentials(credentials: &Option<Credentials>) -> (r: Option<Credentials>)
    ensures
        credentials_view(r) == credentials_view(*credentials),
{
    match credentials {
        Some(held) => Some(
            Credentials { username: held.username.clone(), password: held.password.clone() },
        ),
        None => None,
    }
}

fn same_credentials(a: &Option<Credentials>, b: &Option<Credentials>) -> (r: bool)
    ensures
        r == (credentials_view(*a) == credentials_view(*b)),
{
    match (a, b) {
        (Some(a), Some(b)) => a.username == b.username && a.password == b.password,
        (None, None) => true,
        _ => false,
    }
}

/// An HTTP proxy.
#[derive(Debug, PartialEq, Eq)]
pub struct HttpProxy {
    pub host: String,
    pub port: u16,
    /// The proxy itself is reached over TLS.
    pub tls: bool,
    /// The TLS connection to the proxy speaks HTTP/2.
    pub http2: bool,
    pub credentials: Option<Credentials>,
    pub connect_headers: Vec<RequestHeader>,
}

/// Which side resolves the origin's name on a SOCKS5 route.
#[derive(Clone, Copy, Debug, PartialEq, Eq, Structural)]
pub enum Socks5DnsMode {
    Local,
    Remote,
}

/// A SOCKS5 proxy.
#[derive(Debug, PartialEq, Eq)]
pub struct Socks5Proxy {
    pub host: String,
    pub port: u16,
    pub dns_mode: Socks5DnsMode,
    pub credentials: Option<Credentials>,
}

/// The TCP protocol of a CONNECT-UDP proxy leg.
#[derive(Clone, Copy, Debug, PartialEq, Eq, Structural)]
pub enum ConnectUdpTcpProtocol {
    Http1,
    Http2,
}

/// A CONNECT-UDP proxy.
#[derive(Debug, PartialEq, Eq)]
pub struct ConnectUdpProxy {
    pub host: String,
    pub port: u16,
    pub authority: String,
    /// The URI template of the tunnel's path.
    pub template: String,
    pub headers: Vec<RequestHeader>,
    pub credentials: Option<Credentials>,
    /// The protocol of a TCP leg; `None` is the default HTTP/3 leg.
    pub tcp_protocol: Option<ConnectUdpTcpProtocol>,
}

/// How connections reach an origin.
#[derive(Debug, PartialEq, Eq)]
pub enum Route {
    Direct,
    HttpProxy(HttpProxy),
    Socks5(Socks5Proxy),
    ConnectUdp(ConnectUdpProxy),
}

/// What a [`Route`] holds.
pub enum RouteView {
    Direct,
    HttpProxy {
        host: Seq<char>,
        port: u16,
        tls: bool,
        http2: bool,
        credentials: Option<CredentialsView>,
        connect_headers: Seq<HeaderView>,
    },
    Socks5 {
        host: Seq<char>,
        port: u16,
        dns_mode: Socks5DnsMode,
        credentials: Option<CredentialsView>,
    },
    ConnectUdp {
        host: Seq<char>,
        port: u16,
        authority: Seq<char>,
        template: Seq<char>,
        headers: Seq<HeaderView>,
        credentials: Option<CredentialsView>,
        tcp_protocol: Option<ConnectUdpTcpProtocol>,
    },
}

impl View for Route {
    type V = RouteView;

    open spec fn view(&self) -> RouteView {
        match self {
            Route::Direct => RouteView::Direct,
            Route::HttpProxy(proxy) => RouteView::HttpProxy {
                host: proxy.host@,
                port: proxy.port,
                tls: proxy.tls,
                http2: proxy.http2,
                credentials: credentials_view(proxy.credentials),
                connect_headers: headers_view(proxy.connect_headers@),
            },
            Route::Socks5(proxy) => RouteView::Socks5 {
                host: proxy.host@,
                port: proxy.port,
                dns_mode: proxy.dns_mode,
                credentials: credentials_view(proxy.credentials),
            },
            Route::ConnectUdp(proxy) => RouteView::ConnectUdp {
                host: proxy.host@,
                port: proxy.port,
                authority: proxy.authority@,
                template: proxy.template@,
                headers: headers_view(proxy.headers@),
                credentials: credentials_view(proxy.credentials),
                tcp_protocol: proxy.tcp_protocol,
            },
        }
    }
}

impl Key for Route {
    fn same(&self, other: &Self) -> (r: bool) {
        match (self, other) {
            (Route::Direct, Route::Direct) => true,
            (Route::HttpProxy(a), Route::HttpProxy(b)) => a.host == b.host && a.port == b.port
                && a.tls == b.tls && a.http2 == b.http2 && same_credentials(
                &a.credentials,
                &b.credentials,
            ) && same_headers(&a.connect_headers, &b.connect_headers),
            (Route::Socks5(a), Route::Socks5(b)) => a.host == b.host && a.port == b.port
                && a.dns_mode == b.dns_mode && same_credentials(&a.credentials, &b.credentials),
            (Route::ConnectUdp(a), Route::ConnectUdp(b)) => a.host == b.host && a.port == b.port
                && a.authority == b.authority && a.template == b.template && same_headers(
                &a.headers,
                &b.headers,
            ) && same_credentials(&a.credentials, &b.credentials) && same_tcp_protocol(
                a.tcp_protocol,
                b.tcp_protocol,
            ),
            _ => false,
        }
    }
}

fn same_tcp_protocol(
    a: Option<ConnectUdpTcpProtocol>,
    b: Option<ConnectUdpTcpProtocol>,
) -> (r: bool)
    ensures
        r == (a == b),
{
    match (a, b) {
        (Some(a), Some(b)) => a == b,
        (None, None) => true,
        _ => false,
    }
}

impl Clone for Route {
    fn clone(&self) -> (r: Self)
        ensures
            r@ == self@,
    {
        match self {
            Route::Direct => Route::Direct,
            Route::HttpProxy(proxy) => Route::HttpProxy(
                HttpProxy {
                    host: proxy.host.clone(),
                    port: proxy.port,
                    tls: proxy.tls,
                    http2: proxy.http2,
                    credentials: copy_credentials(&proxy.credentials),
                    connect_headers: copy_headers(&proxy.connect_headers),
                },
            ),
            Route::Socks5(proxy) => Route::Socks5(
                Socks5Proxy {
                    host: proxy.host.clone(),
                    port: proxy.port,
                    dns_mode: proxy.dns_mode,
                    credentials: copy_credentials(&proxy.credentials),
                },
            ),
            Route::ConnectUdp(proxy) => Route::ConnectUdp(
                ConnectUdpProxy {
                    host: proxy.host.clone(),
                    port: proxy.port,
                    authority: proxy.authority.clone(),
                    template: proxy.template.clone(),
                    headers: copy_headers(&proxy.headers),
                    credentials: copy_credentials(&proxy.credentials),
                    tcp_protocol: proxy.tcp_protocol,
                },
            ),
        }
    }
}

impl Route {
    /// Whether connections go straight to the origin.
    pub fn is_direct(&self) -> (r: bool)
        ensures
            r == (self@ == RouteView::Direct),
    {
        match self {
            Route::Direct => true,
            _ => false,
        }
    }

    /// Whether a route has a UDP path that an HTTP/3 alternative can use:
    /// the direct one or a SOCKS5 association.
    pub open spec fn carries_quic(route: RouteView) -> bool {
        route is Direct || route is Socks5
    }

    /// Returns whether this route can carry an HTTP/3 alternative.
    pub fn carries_quic_alternative(&self) -> (r: bool)
        ensures
            r == Self::carries_quic(self@),
    {
        match self {
            Route::Direct | Route::Socks5(_) => true,
            Route::HttpProxy(_) | Route::ConnectUdp(_) => false,
        }
    }

    /// Whether a proxy of this route is itself reached over TLS.
    pub open spec fn proxy_tls(route: RouteView) -> bool {
        route matches RouteView::HttpProxy { tls, .. } && tls
    }

    /// Returns whether this route is an HTTP proxy reached over TLS.
    pub fn proxy_uses_tls(&self) -> (r: bool)
        ensures
            r == Self::proxy_tls(self@),
    {
        match self {
            Route::HttpProxy(proxy) => proxy.tls,
            _ => false,
        }
    }

    /// Whether a proxy of this route takes basic credentials.
    pub open spec fn proxy_credentials(route: RouteView) -> bool {
        route matches RouteView::HttpProxy { credentials, .. } && credentials is Some
    }

    /// Returns whether this route is an HTTP proxy with basic credentials.
    pub fn has_proxy_credentials(&self) -> (r: bool)
        ensures
            r == Self::proxy_credentials(self@),
    {
        match self {
            Route::HttpProxy(proxy) => proxy.credentials.is_some(),
            _ => false,
        }
    }
}

/// An origin: its host in lower case, and its port.
#[derive(Debug, PartialEq, Eq)]
pub struct OriginKey {
    pub host: String,
    pub port: u16,
}

/// What an [`OriginKey`] holds.
pub struct OriginView {
    pub host: Seq<char>,
    pub port: u16,
}

impl View for OriginKey {
    type V = OriginView;

    open spec fn view(&self) -> OriginView {
        OriginView { host: self.host@, port: self.port }
    }
}

/// The origin of an endpoint.
pub open spec fn origin_of(endpoint: &Endpoint) -> OriginView {
    OriginView { host: lowercase(endpoint.host@), port: endpoint.port }
}

impl Key for OriginKey {
    fn same(&self, other: &Self) -> (r: bool) {
        self.host == other.host && self.port == other.port
    }
}

impl Clone for OriginKey {
    fn clone(&self) -> (r: Self)
        ensures
            r@ == self@,
    {
        OriginKey { host: self.host.clone(), port: self.port }
    }
}

impl OriginKey {
    /// Returns the origin of `endpoint`.
    pub fn new(endpoint: &Endpoint) -> (r: Self)
        ensures
            r@ == origin_of(endpoint),
    {
        OriginKey { host: to_lowercase(endpoint.host.as_str()), port: endpoint.port }
    }
}

} // verus!
