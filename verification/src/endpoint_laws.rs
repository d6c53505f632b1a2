//! What tells origins, routes and pool keys apart.

use vstd::prelude::*;
use crate::endpoint::{headers_view, Credentials, Endpoint, RequestHeader, Route, RouteView};
use crate::host::http_authority;
use crate::pool::key::{key_of, KeyMode};
use crate::text_laws::{lower_case_ignores_ascii_case_alone, same_letters};

verus! {

/// Whether two optional credentials are the same.
pub open spec fn same_login(a: Option<Credentials>, b: Option<Credentials>) -> bool {
    match (a, b) {
        (Some(a), Some(b)) => a.username@ == b.username@ && a.password@ == b.password@,
        (None, None) => true,
        _ => false,
    }
}

/// Whether two lists have the same fields in the same order.
pub open spec fn same_fields(a: Seq<RequestHeader>, b: Seq<RequestHeader>) -> bool {
    a.len() == b.len() && forall|i: int|
        0 <= i < a.len() ==> (#[trigger] a[i]).name@ == b[i].name@ && a[i].value@ == b[i].value@
}

/// Whether two routes are the same in every part.
pub open spec fn same_route(a: Route, b: Route) -> bool {
    match (a, b) {
        (Route::Direct, Route::Direct) => true,
        (Route::HttpProxy(a), Route::HttpProxy(b)) => {
            &&& a.host@ == b.host@ && a.port == b.port
            &&& a.tls == b.tls && a.http2 == b.http2
            &&& same_login(a.credentials, b.credentials)
            &&& same_fields(a.connect_headers@, b.connect_headers@)
        },
        (Route::Socks5(a), Route::Socks5(b)) => {
            &&& a.host@ == b.host@ && a.port == b.port
            &&& a.dns_mode == b.dns_mode
            &&& same_login(a.credentials, b.credentials)
        },
        (Route::ConnectUdp(a), Route::ConnectUdp(b)) => {
            &&& a.host@ == b.host@ && a.port == b.port
            &&& a.authority@ == b.authority@ && a.template@ == b.template@
            &&& same_fields(a.headers@, b.headers@)
            &&& same_login(a.credentials, b.credentials)
            &&& a.tcp_protocol == b.tcp_protocol
        },
        _ => false,
    }
}

proof fn lemma_fields(a: Seq<RequestHeader>, b: Seq<RequestHeader>)
    ensures
        (headers_view(a) == headers_view(b)) == same_fields(a, b),
{
    if headers_view(a) == headers_view(b) {
        assert(headers_view(a).len() == a.len() && headers_view(b).len() == b.len());
        assert forall|i: int| 0 <= i < a.len() implies (#[trigger] a[i]).name@ == b[i].name@
            && a[i].value@ == b[i].value@ by {
            assert(headers_view(a)[i] == a[i]@ && headers_view(b)[i] == b[i]@);
        }
    }
    if same_fields(a, b) {
        assert forall|i: int| 0 <= i < a.len() implies headers_view(a)[i] == headers_view(b)[i] by {
            assert(a[i].name@ == b[i].name@);
        }
        assert(headers_view(a) =~= headers_view(b));
    }
}

/// Routes are the same only when every part of them is: the proxy, whether
/// it is reached over TLS and by which protocol, which side resolves names,
/// credentials, and the fields that a proxy gets.
pub proof fn routes_are_the_same_only_in_every_part(a: Route, b: Route)
    ensures
        (a@ == b@) == same_route(a, b),
{
    match (a, b) {
        (Route::HttpProxy(a), Route::HttpProxy(b)) => {
            lemma_fields(a.connect_headers@, b.connect_headers@);
        },
        (Route::ConnectUdp(a), Route::ConnectUdp(b)) => {
            lemma_fields(a.headers@, b.headers@);
        },
        _ => {},
    }
}

/// Connections are shared under one key exactly by requests to the same host,
/// but for ASCII case, the same port, over the same route and made the same
/// way.
pub proof fn connections_are_shared_for_one_origin_and_route(
    one: &Endpoint,
    other: &Endpoint,
    first: Route,
    second: Route,
    mode: KeyMode,
    way: KeyMode,
)
    ensures
        (key_of(one, &first, mode) == key_of(other, &second, way)) == (same_letters(
            one.host@,
            other.host@,
        ) && one.port == other.port && same_route(first, second) && mode == way),
{
    lower_case_ignores_ascii_case_alone(one.host@, other.host@);
    routes_are_the_same_only_in_every_part(first, second);
}

/// An authority names its host, without the brackets of an address, and its
/// port or the default one.
pub proof fn an_authority_names_an_endpoint(authority: Seq<char>, default_port: u16)
    ensures
        match (http_authority(authority), Endpoint::named(authority, default_port)) {
            (Some(parts), Some((host, port))) => {
                &&& parts.port == Some(port) || parts.port is None && port == default_port
                &&& parts.host.len() >= 2 && parts.host[0] == '[' && parts.host.last() == ']'
                    ==> parts.host == seq!['['] + host + seq![']']
                &&& !(parts.host.len() >= 2 && parts.host[0] == '[' && parts.host.last() == ']')
                    ==> host == parts.host
            },
            (None, None) => true,
            _ => false,
        },
{
    if http_authority(authority) is Some {
        let host = http_authority(authority)->0.host;
        if host.len() >= 2 && host[0] == '[' && host.last() == ']' {
            assert(host =~= seq!['['] + host.subrange(1, host.len() - 1) + seq![']']);
        }
    }
}

/// What a route can do: only a direct and a SOCKS5 route carry an HTTP/3
/// alternative, and only an HTTP proxy is reached over TLS or takes basic
/// credentials, where it says so.
pub proof fn a_route_says_what_it_can_do(route: Route)
    ensures
        Route::carries_quic(route@) == (route is Direct || route is Socks5),
        Route::proxy_tls(route@) == (route matches Route::HttpProxy(proxy) && proxy.tls),
        Route::proxy_credentials(route@) == (route matches Route::HttpProxy(proxy)
            && proxy.credentials is Some),
        (route@ == RouteView::Direct) == (route is Direct),
{
}

} // verus!
