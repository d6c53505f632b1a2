//! How a new connection reaches its origin.

use vstd::prelude::*;
use crate::endpoint::{HttpProtocol, Route, RouteView, Socks5DnsMode};
use crate::error::{RequestError, RequestErrorKind};
use crate::pool::key::{Http1ConnectionMode, Http2ConnectionMode};

verus! {

/// What a new connection is made of. Over every plan but forwarding, the
/// origin's host stays the verified name: a proxy only carries the stream.
#[derive(Clone, Copy, Debug, PartialEq, Eq, Structural)]
pub enum ConnectPlan {
    /// Straight to the origin.
    Direct { tls: bool },
    /// Through a SOCKS5 proxy that gets the origin's address or its name.
    Socks5 { tls: bool, dns_mode: Socks5DnsMode },
    /// To a proxy that forwards requests, itself reached over TLS or not.
    Forward { proxy_tls: bool },
    /// TLS to the origin inside a CONNECT tunnel through a proxy, itself
    /// reached over TLS or not, with or without credentials.
    Tunnel { proxy_tls: bool, authenticated: bool },
}

/// The error of a protocol that a route cannot carry.
pub open spec fn unsupported(protocol: Option<HttpProtocol>) -> RequestError {
    RequestError::of_kind(RequestErrorKind::UnsupportedRoute, protocol)
}

/// A plan, or that the route cannot carry the protocol.
pub open spec fn planned(plan: Option<ConnectPlan>, protocol: Option<HttpProtocol>) -> Result<
    ConnectPlan,
    RequestError,
> {
    match plan {
        Some(plan) => Ok(plan),
        None => Err(unsupported(protocol)),
    }
}

/// TLS to the origin over a route. `https_proxy` says whether proxies can be
/// reached over TLS.
pub open spec fn origin_plan(route: RouteView, https_proxy: bool) -> Option<ConnectPlan> {
    match route {
        RouteView::Direct => Some(ConnectPlan::Direct { tls: true }),
        RouteView::Socks5 { dns_mode, .. } => Some(ConnectPlan::Socks5 { tls: true, dns_mode }),
        RouteView::HttpProxy { tls, credentials, .. } => if tls && !https_proxy {
            None
        } else {
            Some(ConnectPlan::Tunnel { proxy_tls: tls, authenticated: credentials is Some })
        },
        RouteView::ConnectUdp { .. } => None,
    }
}

/// An HTTP/1.1 connection over a route.
pub open spec fn http1_plan(
    mode: Http1ConnectionMode,
    route: RouteView,
    https_proxy: bool,
) -> Option<ConnectPlan> {
    match mode {
        Http1ConnectionMode::Forward => match route {
            RouteView::HttpProxy { tls, .. } => if tls && !https_proxy {
                None
            } else {
                Some(ConnectPlan::Forward { proxy_tls: tls })
            },
            _ => None,
        },
        Http1ConnectionMode::PlaintextOrigin => match route {
            RouteView::Direct => Some(ConnectPlan::Direct { tls: false }),
            RouteView::Socks5 { dns_mode, .. } => Some(
                ConnectPlan::Socks5 { tls: false, dns_mode },
            ),
            _ => None,
        },
        Http1ConnectionMode::TlsOrigin => origin_plan(route, https_proxy),
    }
}

/// An HTTP/2 connection over a route.
pub open spec fn http2_plan(
    mode: Http2ConnectionMode,
    route: RouteView,
    https_proxy: bool,
) -> Option<ConnectPlan> {
    match mode {
        Http2ConnectionMode::Forward => if route is HttpProxy && https_proxy {
            Some(ConnectPlan::Forward { proxy_tls: true })
        } else {
            None
        },
        Http2ConnectionMode::TlsOrigin => origin_plan(route, https_proxy),
    }
}

fn plan_origin(route: &Route, https_proxy: bool) -> (r: Option<ConnectPlan>)
    ensures
        r == origin_plan(route@, https_proxy),
{
    match route {
        Route::Direct => Some(ConnectPlan::Direct { tls: true }),
        Route::Socks5(proxy) => Some(ConnectPlan::Socks5 { tls: true, dns_mode: proxy.dns_mode }),
        Route::HttpProxy(proxy) => {
            if proxy.tls && !https_proxy {
                None
            } else {
                Some(
                    ConnectPlan::Tunnel {
                        proxy_tls: proxy.tls,
                        authenticated: proxy.credentials.is_some(),
                    },
                )
            }
        },
        Route::ConnectUdp(_) => None,
    }
}

/// Plans an HTTP/1.1 connection. Forwarding owns HTTP proxies for plaintext
/// origins, and CONNECT-UDP carries only QUIC: no route is reinterpreted as
/// another transport.
pub fn plan_http1(mode: Http1ConnectionMode, route: &Route, https_proxy: bool) -> (r: Result<
    ConnectPlan,
    RequestError,
>)
    ensures
        r == planned(http1_plan(mode, route@, https_proxy), Some(HttpProtocol::Http1)),
{
    let plan = match mode {
        Http1ConnectionMode::Forward => match route {
            Route::HttpProxy(proxy) => {
                if proxy.tls && !https_proxy {
                    None
                } else {
                    Some(ConnectPlan::Forward { proxy_tls: proxy.tls })
                }
            },
            _ => None,
        },
        Http1ConnectionMode::PlaintextOrigin => match route {
            Route::Direct => Some(ConnectPlan::Direct { tls: false }),
            Route::Socks5(proxy) => Some(
                ConnectPlan::Socks5 { tls: false, dns_mode: proxy.dns_mode },
            ),
            _ => None,
        },
        Http1ConnectionMode::TlsOrigin => plan_origin(route, https_proxy),
    };
    match plan {
        Some(plan) => Ok(plan),
        None => Err(
            RequestError::new(RequestErrorKind::UnsupportedRoute, Some(HttpProtocol::Http1)),
        ),
    }
}

/// Plans an HTTP/2 connection.
pub fn plan_http2(mode: Http2ConnectionMode, route: &Route, https_proxy: bool) -> (r: Result<
    ConnectPlan,
    RequestError,
>)
    ensures
        r == planned(http2_plan(mode, route@, https_proxy), Some(HttpProtocol::Http2)),
{
    let plan = match mode {
        Http2ConnectionMode::Forward => match route {
            Route::HttpProxy(_) => if https_proxy {
                Some(ConnectPlan::Forward { proxy_tls: true })
            } else {
                None
            },
            _ => None,
        },
        Http2ConnectionMode::TlsOrigin => plan_origin(route, https_proxy),
    };
    match plan {
        Some(plan) => Ok(plan),
        None => Err(
            RequestError::new(RequestErrorKind::UnsupportedRoute, Some(HttpProtocol::Http2)),
        ),
    }
}

/// Plans a connection whose protocol ALPN chooses.
pub fn plan_negotiated(route: &Route, https_proxy: bool) -> (r: Result<ConnectPlan, RequestError>)
    ensures
        r == planned(origin_plan(route@, https_proxy), None),
{
    match plan_origin(route, https_proxy) {
        Some(plan) => Ok(plan),
        None => Err(RequestError::new(RequestErrorKind::UnsupportedRoute, None)),
    }
}

/// Whether the route forwards plaintext requests over HTTP/2.
pub open spec fn forwards_http2(route: RouteView) -> bool {
    route matches RouteView::HttpProxy { http2, .. } && http2
}

/// Returns whether the route forwards plaintext requests over HTTP/2.
pub fn forwards_plaintext_over_http2(route: &Route) -> (r: bool)
    ensures
        r == forwards_http2(route@),
{
    match route {
        Route::HttpProxy(proxy) => proxy.http2,
        _ => false,
    }
}

/// Whether a plan goes straight to the origin.
pub open spec fn is_direct(plan: Option<ConnectPlan>) -> bool {
    plan matches Some(ConnectPlan::Direct { .. })
}

/// A route through a proxy is never planned as a direct connection.
pub proof fn a_proxied_route_is_never_direct(route: RouteView, https_proxy: bool)
    requires
        !(route is Direct),
    ensures
        forall|mode: Http1ConnectionMode|
            !is_direct(#[trigger] http1_plan(mode, route, https_proxy)),
        forall|mode: Http2ConnectionMode|
            !is_direct(#[trigger] http2_plan(mode, route, https_proxy)),
        !is_direct(origin_plan(route, https_proxy)),
{
}

/// Whether a connection was refused because its route cannot carry the
/// protocol.
pub open spec fn route_refused(
    plan: Result<ConnectPlan, RequestError>,
    protocol: Option<HttpProtocol>,
) -> bool {
    plan matches Err(error) && error.kind == RequestErrorKind::UnsupportedRoute && error.protocol
        == protocol
}

/// Whether `plan` is what HTTP/1.1, HTTP/2 and a negotiated connection with
/// TLS to the origin have over a route.
pub open spec fn tls_origin_planned(route: Route, https_proxy: bool, plan: ConnectPlan) -> bool {
    &&& planned(
        http1_plan(Http1ConnectionMode::TlsOrigin, route@, https_proxy),
        Some(HttpProtocol::Http1),
    ) == Ok::<ConnectPlan, RequestError>(plan)
    &&& planned(
        http2_plan(Http2ConnectionMode::TlsOrigin, route@, https_proxy),
        Some(HttpProtocol::Http2),
    ) == Ok::<ConnectPlan, RequestError>(plan)
    &&& planned(origin_plan(route@, https_proxy), None) == Ok::<ConnectPlan, RequestError>(plan)
}

/// Whether no connection with TLS to the origin can be had over a route.
pub open spec fn tls_origin_refused(route: Route, https_proxy: bool) -> bool {
    &&& route_refused(
        planned(
            http1_plan(Http1ConnectionMode::TlsOrigin, route@, https_proxy),
            Some(HttpProtocol::Http1),
        ),
        Some(HttpProtocol::Http1),
    )
    &&& route_refused(
        planned(
            http2_plan(Http2ConnectionMode::TlsOrigin, route@, https_proxy),
            Some(HttpProtocol::Http2),
        ),
        Some(HttpProtocol::Http2),
    )
    &&& route_refused(planned(origin_plan(route@, https_proxy), None), None)
}

/// What HTTP/1.1 has in a mode.
pub open spec fn http1_planned(
    mode: Http1ConnectionMode,
    route: Route,
    https_proxy: bool,
) -> Result<ConnectPlan, RequestError> {
    planned(http1_plan(mode, route@, https_proxy), Some(HttpProtocol::Http1))
}

/// What HTTP/2 has in a mode.
pub open spec fn http2_planned(
    mode: Http2ConnectionMode,
    route: Route,
    https_proxy: bool,
) -> Result<ConnectPlan, RequestError> {
    planned(http2_plan(mode, route@, https_proxy), Some(HttpProtocol::Http2))
}

/// A SOCKS5 route always goes through its proxy, with TLS exactly where the
/// origin has it, and the side that the route names resolves the origin's
/// name. It forwards nothing.
pub proof fn a_socks5_route_resolves_names_where_it_says(route: Route, https_proxy: bool)
    requires
        route is Socks5,
    ensures
        route matches Route::Socks5(proxy) && {
            &&& tls_origin_planned(
                route,
                https_proxy,
                ConnectPlan::Socks5 { tls: true, dns_mode: proxy.dns_mode },
            )
            &&& http1_planned(Http1ConnectionMode::PlaintextOrigin, route, https_proxy) == Ok::<
                ConnectPlan,
                RequestError,
            >(ConnectPlan::Socks5 { tls: false, dns_mode: proxy.dns_mode })
            &&& route_refused(
                http1_planned(Http1ConnectionMode::Forward, route, https_proxy),
                Some(HttpProtocol::Http1),
            )
            &&& route_refused(
                http2_planned(Http2ConnectionMode::Forward, route, https_proxy),
                Some(HttpProtocol::Http2),
            )
        },
{
}

/// A direct route goes straight to the origin, with TLS exactly where the
/// origin has it. It forwards nothing.
pub proof fn a_direct_route_goes_to_the_origin(route: Route, https_proxy: bool)
    requires
        route is Direct,
    ensures
        tls_origin_planned(route, https_proxy, ConnectPlan::Direct { tls: true }),
        http1_planned(Http1ConnectionMode::PlaintextOrigin, route, https_proxy) == Ok::<
            ConnectPlan,
            RequestError,
        >(ConnectPlan::Direct { tls: false }),
        route_refused(
            http1_planned(Http1ConnectionMode::Forward, route, https_proxy),
            Some(HttpProtocol::Http1),
        ),
        route_refused(
            http2_planned(Http2ConnectionMode::Forward, route, https_proxy),
            Some(HttpProtocol::Http2),
        ),
{
}

/// An HTTP proxy carries TLS to the origin in a tunnel, with its credentials
/// where it has some, and forwards plaintext requests; it is reached over TLS
/// exactly where the route says so, and not at all where proxies cannot be
/// reached over TLS. It never carries plaintext to the origin.
pub proof fn an_http_proxy_tunnels_and_forwards(route: Route, https_proxy: bool)
    requires
        route is HttpProxy,
    ensures
        route matches Route::HttpProxy(proxy) && {
            &&& !proxy.tls || https_proxy ==> {
                &&& tls_origin_planned(
                    route,
                    https_proxy,
                    ConnectPlan::Tunnel {
                        proxy_tls: proxy.tls,
                        authenticated: proxy.credentials is Some,
                    },
                )
                &&& http1_planned(Http1ConnectionMode::Forward, route, https_proxy) == Ok::<
                    ConnectPlan,
                    RequestError,
                >(ConnectPlan::Forward { proxy_tls: proxy.tls })
            }
            &&& proxy.tls && !https_proxy ==> {
                &&& tls_origin_refused(route, https_proxy)
                &&& route_refused(
                    http1_planned(Http1ConnectionMode::Forward, route, https_proxy),
                    Some(HttpProtocol::Http1),
                )
            }
            &&& https_proxy ==> http2_planned(Http2ConnectionMode::Forward, route, https_proxy)
                == Ok::<ConnectPlan, RequestError>(ConnectPlan::Forward { proxy_tls: true })
            &&& !https_proxy ==> route_refused(
                http2_planned(Http2ConnectionMode::Forward, route, https_proxy),
                Some(HttpProtocol::Http2),
            )
            &&& route_refused(
                http1_planned(Http1ConnectionMode::PlaintextOrigin, route, https_proxy),
                Some(HttpProtocol::Http1),
            )
            &&& forwards_http2(route@) == proxy.http2
        },
{
}

/// A CONNECT-UDP route carries no TCP connection.
pub proof fn a_connect_udp_route_carries_no_tcp(route: Route, https_proxy: bool)
    requires
        route is ConnectUdp,
    ensures
        tls_origin_refused(route, https_proxy),
        forall|mode: Http1ConnectionMode|
            route_refused(
                #[trigger] http1_planned(mode, route, https_proxy),
                Some(HttpProtocol::Http1),
            ),
        forall|mode: Http2ConnectionMode|
            route_refused(
                #[trigger] http2_planned(mode, route, https_proxy),
                Some(HttpProtocol::Http2),
            ),
        !forwards_http2(route@),
{
}

} // verus!
