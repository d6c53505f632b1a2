//! WebSocket opening handshakes: where they go, and over which connection.

use vstd::prelude::*;
use crate::endpoint::{Endpoint, HeaderView, HttpProtocol, RequestHeader, Route};
use crate::error::{RequestError, RequestErrorKind};
use crate::host::{
    format_host, host_in_uri, http_uri, is_potentially_trustworthy_host, parse_host, parse_uri,
    parse_url, trustworthy_host, unbroken, url_host, url_parts, Host, HostView, UriParts,
    UriView, Url, UrlView,
};
use crate::text::{from_chars, lowercase, same_text, to_chars, to_lowercase};
use crate::time::{Duration, Instant};
use crate::timeout::TimeoutPhase;

verus! {

/// Stable category of a WebSocket failure.
#[derive(Clone, Copy, Debug, PartialEq, Eq, Structural)]
#[non_exhaustive]
pub enum WebSocketErrorKind {
    InvalidUri,
    InvalidAuthority,
    UnsupportedScheme,
    /// Invalid opening fields, a replaced field sequence under profile
    /// policy, or a handshake timeout that is zero or beyond the runtime
    /// clock.
    InvalidRequest,
    /// The profile lacks the selected protocol or a WebSocket recipe.
    ProtocolUnavailable,
    /// The handshake timeout passed.
    Timeout,
    /// The runtime has no timer for the handshake timeout.
    RuntimeUnavailable,
}

/// Why a WebSocket could not be opened.
#[derive(Clone, Copy, Debug)]
pub struct WebSocketError {
    pub kind: WebSocketErrorKind,
    pub message: &'static str,
    /// The protocol that the profile lacks.
    pub protocol: Option<HttpProtocol>,
    pub source: Option<RequestError>,
}

/// What a [`WebSocketError`] holds.
pub struct WebSocketErrorView {
    pub kind: WebSocketErrorKind,
    pub message: Seq<char>,
    pub protocol: Option<HttpProtocol>,
    pub source: Option<RequestError>,
}

impl View for WebSocketError {
    type V = WebSocketErrorView;

    open spec fn view(&self) -> WebSocketErrorView {
        WebSocketErrorView {
            kind: self.kind,
            message: self.message@,
            protocol: self.protocol,
            source: self.source,
        }
    }
}

/// A failure that names no protocol and has no source.
pub open spec fn plain(kind: WebSocketErrorKind, message: Seq<char>) -> WebSocketErrorView {
    WebSocketErrorView { kind, message, protocol: None, source: None }
}

/// A protocol that the profile lacks.
pub open spec fn unavailable(protocol: HttpProtocol) -> WebSocketErrorView {
    WebSocketErrorView {
        kind: WebSocketErrorKind::ProtocolUnavailable,
        message: "the client profile has no recipe for this WebSocket protocol"@,
        protocol: Some(protocol),
        source: None,
    }
}

/// A request that failed.
pub open spec fn failed(kind: WebSocketErrorKind, source: RequestError) -> WebSocketErrorView {
    WebSocketErrorView {
        kind,
        message: "WebSocket request failed"@,
        protocol: None,
        source: Some(source),
    }
}

/// A profile without a WebSocket policy.
pub open spec fn policy_unavailable() -> WebSocketErrorView {
    plain(
        WebSocketErrorKind::ProtocolUnavailable,
        "the client profile has no WebSocket connection policy"@,
    )
}

impl WebSocketError {
    fn plain(kind: WebSocketErrorKind, message: &'static str) -> (r: Self)
        ensures
            r@ == plain(kind, message@),
    {
        WebSocketError { kind, message, protocol: None, source: None }
    }

    /// A request that cannot be sent.
    pub fn invalid_request(message: &'static str) -> (r: Self)
        ensures
            r@ == plain(WebSocketErrorKind::InvalidRequest, message@),
    {
        WebSocketError::plain(WebSocketErrorKind::InvalidRequest, message)
    }

    /// A protocol that the profile lacks.
    pub fn protocol_unavailable(protocol: HttpProtocol) -> (r: Self)
        ensures
            r@ == unavailable(protocol),
    {
        WebSocketError {
            kind: WebSocketErrorKind::ProtocolUnavailable,
            message: "the client profile has no recipe for this WebSocket protocol",
            protocol: Some(protocol),
            source: None,
        }
    }

    /// A profile without a WebSocket policy.
    pub fn profile_policy_unavailable() -> (r: Self)
        ensures
            r@ == policy_unavailable(),
    {
        WebSocketError::plain(
            WebSocketErrorKind::ProtocolUnavailable,
            "the client profile has no WebSocket connection policy",
        )
    }

    /// A timer that the runtime could not start.
    pub fn runtime_unavailable(source: RequestError) -> (r: Self)
        ensures
            r@ == failed(WebSocketErrorKind::RuntimeUnavailable, source),
    {
        WebSocketError {
            kind: WebSocketErrorKind::RuntimeUnavailable,
            message: "WebSocket request failed",
            protocol: None,
            source: Some(source),
        }
    }

    /// Returns the category.
    pub fn kind(&self) -> (r: WebSocketErrorKind)
        ensures
            r == self.kind,
    {
        self.kind
    }

    /// Returns the phase whose limit was reached.
    pub fn timeout_phase(&self) -> (r: Option<TimeoutPhase>)
        ensures
            r == (match self.source {
                Some(source) => source.phase,
                None => None,
            }),
    {
        match self.source {
            Some(source) => source.phase,
            None => None,
        }
    }
}

/// A field of an opening, and whether it is to be kept out of compression
/// tables.
#[derive(Debug)]
pub struct OpeningField {
    pub header: RequestHeader,
    pub sensitive: bool,
}

/// What an [`OpeningField`] holds.
pub struct FieldView {
    pub header: HeaderView,
    pub sensitive: bool,
}

impl View for OpeningField {
    type V = FieldView;

    open spec fn view(&self) -> FieldView {
        FieldView { header: self.header@, sensitive: self.sensitive }
    }
}

impl Clone for OpeningField {
    fn clone(&self) -> (r: Self)
        ensures
            r@ == self@,
    {
        OpeningField { header: self.header.clone(), sensitive: self.sensitive }
    }
}

/// One entry of an ordered opening-handshake sequence.
#[derive(Debug)]
#[non_exhaustive]
pub enum WebSocketHeader {
    /// The authority of the request.
    Authority,
    /// The random key of the handshake.
    Key,
    /// A literal field.
    Field(OpeningField),
    /// A literal field of the profile's recipe.
    DefaultField(OpeningField),
    /// A place for a caller's field with this spelling.
    CallerField(String),
}

/// What a [`WebSocketHeader`] holds.
pub enum OpeningView {
    Authority,
    Key,
    Field(FieldView),
    DefaultField(FieldView),
    CallerField(Seq<char>),
}

impl View for WebSocketHeader {
    type V = OpeningView;

    open spec fn view(&self) -> OpeningView {
        match self {
            WebSocketHeader::Authority => OpeningView::Authority,
            WebSocketHeader::Key => OpeningView::Key,
            WebSocketHeader::Field(field) => OpeningView::Field(field@),
            WebSocketHeader::DefaultField(field) => OpeningView::DefaultField(field@),
            WebSocketHeader::CallerField(name) => OpeningView::CallerField(name@),
        }
    }
}

impl Clone for WebSocketHeader {
    fn clone(&self) -> (r: Self)
        ensures
            r@ == self@,
    {
        match self {
            WebSocketHeader::Authority => WebSocketHeader::Authority,
            WebSocketHeader::Key => WebSocketHeader::Key,
            WebSocketHeader::Field(field) => WebSocketHeader::Field(field.clone()),
            WebSocketHeader::DefaultField(field) => WebSocketHeader::DefaultField(field.clone()),
            WebSocketHeader::CallerField(name) => WebSocketHeader::CallerField(name.clone()),
        }
    }
}

/// What a sequence holds.
pub open spec fn opening_view(headers: Seq<WebSocketHeader>) -> Seq<OpeningView> {
    headers.map_values(|header: WebSocketHeader| header@)
}

/// Whether an entry is a field with this name, in any ASCII case.
pub open spec fn carries(entry: OpeningView, name: Seq<char>) -> bool {
    match entry {
        OpeningView::Field(field) => lowercase(field.header.name) == lowercase(name),
        OpeningView::DefaultField(field) => lowercase(field.header.name) == lowercase(name),
        _ => false,
    }
}

/// The field of an entry.
pub open spec fn carried(entry: OpeningView) -> Option<FieldView> {
    match entry {
        OpeningView::Field(field) => Some(field),
        OpeningView::DefaultField(field) => Some(field),
        _ => None,
    }
}

/// Whether the entry at `i` is the first field with a name.
pub open spec fn first_carrying(headers: Seq<OpeningView>, name: Seq<char>, i: int) -> bool {
    &&& 0 <= i < headers.len()
    &&& carries(headers[i], name)
    &&& forall|j: int| 0 <= j < i ==> !carries(#[trigger] headers[j], name)
}

/// The first field with a name, from the caller or the profile.
pub open spec fn opening_field(headers: Seq<OpeningView>, name: Seq<char>) -> Option<FieldView> {
    if exists|i: int| first_carrying(headers, name, i) {
        carried(headers[choose|i: int| first_carrying(headers, name, i)])
    } else {
        None
    }
}

/// Returns the first field with a name, from the caller or the profile
/// recipe, with its sensitive marking.
#[verifier::loop_isolation(false)]
pub fn opening_field_value(headers: &Vec<WebSocketHeader>, name: &str) -> (r: Option<OpeningField>)
    ensures
        (match r {
            Some(field) => Some(field@),
            None => None,
        }) == opening_field(opening_view(headers@), name@),
{
    let ghost all = opening_view(headers@);
    let wanted = to_lowercase(name);
    let mut i: usize = 0;
    while i < headers.len()
        invariant
            i <= headers@.len(),
            all == opening_view(headers@),
            forall|j: int| 0 <= j < i ==> !carries(#[trigger] all[j], name@),
        decreases headers@.len() - i,
    {
        assert(all[i as int] == headers@[i as int]@);
        let field = match &headers[i] {
            WebSocketHeader::Field(field) => Some(field),
            WebSocketHeader::DefaultField(field) => Some(field),
            _ => None,
        };
        match field {
            Some(field) => if to_lowercase(field.header.name.as_str()) == wanted {
                proof {
                    assert(first_carrying(all, name@, i as int));
                    let k = choose|k: int| first_carrying(all, name@, k);
                    if k < i {
                        assert(!carries(all[k], name@));
                    } else if i < k {
                        assert(!carries(all[i as int], name@));
                    }
                }
                return Some(field.clone());
            },
            None => {},
        }
        i += 1;
    }
    assert forall|k: int| !first_carrying(all, name@, k) by {
        if first_carrying(all, name@, k) {
            assert(!carries(all[k], name@));
        }
    }
    None
}

/// Whether an entry is a free place for a field with this name.
pub open spec fn is_slot(entry: OpeningView, name: Seq<char>) -> bool {
    entry matches OpeningView::CallerField(slot) && lowercase(slot) == lowercase(name)
}

/// Whether the entry at `i` is the first free place for a name.
pub open spec fn first_slot(headers: Seq<OpeningView>, name: Seq<char>, i: int) -> bool {
    &&& 0 <= i < headers.len()
    &&& is_slot(headers[i], name)
    &&& forall|j: int| 0 <= j < i ==> !is_slot(#[trigger] headers[j], name)
}

/// A sequence with a field in its place, with the place's spelling, or behind
/// the others.
pub open spec fn filled(headers: Seq<OpeningView>, field: FieldView) -> Seq<OpeningView> {
    let name = field.header.name;
    if exists|i: int| first_slot(headers, name, i) {
        let i = choose|i: int| first_slot(headers, name, i);
        headers.update(
            i,
            OpeningView::Field(
                FieldView {
                    header: HeaderView {
                        name: headers[i]->CallerField_0,
                        value: field.header.value,
                    },
                    sensitive: field.sensitive,
                },
            ),
        )
    } else {
        headers.push(OpeningView::Field(field))
    }
}

fn find_slot(headers: &Vec<WebSocketHeader>, name: &str) -> (r: Option<(usize, String)>)
    ensures
        match r {
            Some(found) => first_slot(opening_view(headers@), name@, found.0 as int)
                && headers@[found.0 as int]@ == OpeningView::CallerField(found.1@),
            None => forall|i: int| !first_slot(opening_view(headers@), name@, i),
        },
{
    let ghost all = opening_view(headers@);
    let wanted = to_lowercase(name);
    let mut i: usize = 0;
    while i < headers.len()
        invariant
            i <= headers@.len(),
            all == opening_view(headers@),
            wanted@ == lowercase(name@),
            forall|j: int| 0 <= j < i ==> !is_slot(#[trigger] all[j], name@),
        decreases headers@.len() - i,
    {
        assert(all[i as int] == headers@[i as int]@);
        match &headers[i] {
            WebSocketHeader::CallerField(slot) => if to_lowercase(slot.as_str()) == wanted {
                return Some((i, slot.clone()));
            },
            _ => {},
        }
        i += 1;
    }
    None
}

/// Puts a field in the first free place with its name, or behind the others.
pub fn fill_or_append(headers: &mut Vec<WebSocketHeader>, field: OpeningField)
    ensures
        opening_view(final(headers)@) == filled(opening_view(old(headers)@), field@),
{
    let ghost before = opening_view(headers@);
    let ghost name = field@.header.name;
    match find_slot(headers, field.header.name.as_str()) {
        Some((i, spelling)) => {
            proof {
                let k = choose|k: int| first_slot(before, name, k);
                if k < i {
                    assert(!is_slot(before[k], name));
                } else if i < k {
                    assert(!is_slot(before[i as int], name));
                }
            }
            let placed = OpeningField {
                header: RequestHeader { name: spelling, value: field.header.value },
                sensitive: field.sensitive,
            };
            headers.set(i, WebSocketHeader::Field(placed));
            assert(opening_view(headers@) =~= filled(before, field@));
        },
        None => {
            headers.push(WebSocketHeader::Field(field));
            assert(opening_view(headers@) =~= filled(before, field@));
        },
    }
}

/// The pieces of an absolute URI without a fragment.
pub struct Pieces {
    pub scheme: Seq<char>,
    pub authority: Seq<char>,
    /// The path and the query, as they stand.
    pub target: Seq<char>,
}

/// Whether the scheme of a text ends at `i`.
pub open spec fn scheme_ends(text: Seq<char>, i: int) -> bool {
    0 <= i && i + 3 <= text.len() && text[i] == ':' && text[i + 1] == '/' && text[i + 2] == '/'
}

/// Whether the scheme of a text ends at `i` and not before.
pub open spec fn scheme_end(text: Seq<char>, i: int) -> bool {
    scheme_ends(text, i) && forall|j: int| 0 <= j < i ==> !#[trigger] scheme_ends(text, j)
}

/// Whether a character starts what follows an authority.
pub open spec fn ends_authority(c: char) -> bool {
    c == '/' || c == '?'
}

/// Where an authority that starts at `from` ends.
pub open spec fn authority_end(text: Seq<char>, from: int) -> int
    decreases text.len() - from,
{
    if 0 <= from < text.len() && !ends_authority(text[from]) {
        authority_end(text, from + 1)
    } else {
        from
    }
}

/// The pieces of a text, if it has a scheme.
pub open spec fn pieces(text: Seq<char>) -> Option<Pieces> {
    if exists|i: int| scheme_end(text, i) {
        let i = choose|i: int| scheme_end(text, i);
        let end = authority_end(text, i + 3);
        Some(
            Pieces {
                scheme: text.take(i),
                authority: text.subrange(i + 3, end),
                target: text.skip(end),
            },
        )
    } else {
        None
    }
}

/// Whether the port of an authority starts at `i`.
pub open spec fn port_starts(authority: Seq<char>, i: int) -> bool {
    &&& 0 <= i < authority.len()
    &&& authority[i] == ':'
    &&& forall|j: int|
        i < j < authority.len() ==> #[trigger] authority[j] != ':' && authority[j] != ']'
}

/// The colon and port of an authority, if there is one.
pub open spec fn port_suffix(authority: Seq<char>) -> Seq<char> {
    if exists|i: int| port_starts(authority, i) {
        authority.skip(choose|i: int| port_starts(authority, i))
    } else {
        Seq::empty()
    }
}

/// The host of an authority: what stands before its port.
pub open spec fn host_part(authority: Seq<char>) -> Seq<char> {
    authority.take(authority.len() - port_suffix(authority).len())
}

/// Whether a WebSocket runs over TLS.
#[derive(Clone, Copy, Debug, PartialEq, Eq, Structural)]
pub enum WebSocketTransport {
    Plaintext,
    Tls,
}

impl WebSocketTransport {
    /// The scheme under which cookies apply.
    pub open spec fn cookie_scheme(self) -> Seq<char> {
        match self {
            WebSocketTransport::Plaintext => "http"@,
            WebSocketTransport::Tls => "https"@,
        }
    }

    /// The port unless the URI names one.
    pub open spec fn default_port(self) -> u16 {
        match self {
            WebSocketTransport::Plaintext => 80,
            WebSocketTransport::Tls => 443,
        }
    }
}

/// Where a WebSocket is opened.
pub struct ResolvedWebSocket {
    pub endpoint: Endpoint,
    /// The path and query of the request.
    pub target: String,
    pub transport: WebSocketTransport,
    /// Whether the URL is potentially trustworthy, which chooses the value of
    /// each trust-dependent recipe field. A WebSocket follows no redirect, so
    /// the opening URL is the only one.
    pub trustworthy: bool,
    /// The URL under which cookies apply.
    pub cookie_url: Url,
}

/// What a [`ResolvedWebSocket`] holds.
pub struct ResolvedView {
    pub authority: Seq<char>,
    pub host: Seq<char>,
    pub port: u16,
    pub target: Seq<char>,
    pub transport: WebSocketTransport,
    pub trustworthy: bool,
    pub cookie_url: UrlView,
}

impl View for ResolvedWebSocket {
    type V = ResolvedView;

    open spec fn view(&self) -> ResolvedView {
        ResolvedView {
            authority: self.endpoint.authority@,
            host: self.endpoint.host@,
            port: self.endpoint.port,
            target: self.target@,
            transport: self.transport,
            trustworthy: self.trustworthy,
            cookie_url: self.cookie_url@,
        }
    }
}

/// The transport that a scheme names.
pub open spec fn transport_of(scheme: Seq<char>) -> Option<WebSocketTransport> {
    if scheme == "ws"@ {
        Some(WebSocketTransport::Plaintext)
    } else if scheme == "wss"@ {
        Some(WebSocketTransport::Tls)
    } else {
        None
    }
}

/// Where a WebSocket with this URI is opened, whose host is `host`.
pub open spec fn placed(uri: UriView, host: HostView) -> Result<ResolvedView, WebSocketErrorView> {
    let transport = match uri.scheme {
        Some(scheme) => transport_of(scheme),
        None => None,
    };
    match (transport, uri.authority) {
        (None, _) => Err(
            plain(
                WebSocketErrorKind::UnsupportedScheme,
                "WebSocket URI scheme must be ws or wss"@,
            ),
        ),
        (Some(_), None) => Err(
            plain(
                WebSocketErrorKind::InvalidAuthority,
                "WebSocket URI must include an authority"@,
            ),
        ),
        (Some(transport), Some(authority)) => at_authority(
            transport,
            authority,
            match uri.target {
                Some(target) => target,
                None => "/"@,
            },
            host,
        ),
    }
}

/// Where a WebSocket with this authority and request target is opened.
pub open spec fn at_authority(
    transport: WebSocketTransport,
    authority: Seq<char>,
    target: Seq<char>,
    host: HostView,
) -> Result<ResolvedView, WebSocketErrorView> {
    match Endpoint::named(authority, transport.default_port()) {
        None => Err(
            plain(
                WebSocketErrorKind::InvalidAuthority,
                "WebSocket URI has an invalid authority"@,
            ),
        ),
        Some((name, port)) => if target.len() == 0 || target[0] != '/' {
            Err(plain(WebSocketErrorKind::InvalidRequest, "invalid WebSocket request target"@))
        } else {
            match url_parts(transport.cookie_scheme() + "://"@ + authority + target) {
                None => Err(
                    plain(
                        WebSocketErrorKind::InvalidRequest,
                        "WebSocket URI cannot be represented for cookie policy"@,
                    ),
                ),
                Some(cookie_url) => Ok(
                    ResolvedView {
                        authority,
                        host: name,
                        port,
                        target,
                        transport,
                        trustworthy: transport == WebSocketTransport::Tls || trustworthy_host(host),
                        cookie_url,
                    },
                ),
            }
        },
    }
}

/// The text of a URI with its host in canonical form; all else stands as it
/// was written.
pub open spec fn canonical_text(found: Pieces, host: HostView) -> Seq<char> {
    found.scheme + "://"@ + host_in_uri(host) + port_suffix(found.authority) + found.target
}

/// Where the WebSocket of a text is opened, or why not.
pub open spec fn resolution(text: Seq<char>) -> Result<ResolvedView, WebSocketErrorView> {
    if text.contains('#') {
        Err(
            plain(
                WebSocketErrorKind::InvalidRequest,
                "WebSocket URI must not contain a fragment"@,
            ),
        )
    } else {
        match pieces(text) {
            Some(found) => if found.authority.len() == 0 {
                Err(plain(WebSocketErrorKind::InvalidUri, "invalid WebSocket URI"@))
            } else if found.authority.contains('@') {
                Err(
                    plain(
                        WebSocketErrorKind::InvalidAuthority,
                        "WebSocket URI must not include user information"@,
                    ),
                )
            } else {
                match url_host(host_part(found.authority)) {
                    None => Err(
                        plain(
                            WebSocketErrorKind::InvalidAuthority,
                            "WebSocket URI has an invalid authority"@,
                        ),
                    ),
                    Some(host) => match http_uri(canonical_text(found, host)) {
                        None => Err(
                            plain(WebSocketErrorKind::InvalidUri, "invalid WebSocket URI"@),
                        ),
                        Some(uri) => placed(uri, host),
                    },
                }
            },
            None => Err(plain(WebSocketErrorKind::InvalidUri, "invalid WebSocket URI"@)),
        }
    }
}

fn has_char(chars: &Vec<char>, wanted: char) -> (r: bool)
    ensures
        r == chars@.contains(wanted),
{
    let mut i: usize = 0;
    while i < chars.len()
        invariant
            i <= chars@.len(),
            forall|j: int| 0 <= j < i ==> #[trigger] chars@[j] != wanted,
        decreases chars@.len() - i,
    {
        if chars[i] == wanted {
            return true;
        }
        i += 1;
    }
    false
}

fn find_scheme_end(chars: &Vec<char>) -> (r: Option<usize>)
    ensures
        match r {
            Some(i) => scheme_end(chars@, i as int),
            None => forall|i: int| !scheme_end(chars@, i),
        },
{
    let n: usize = chars.len();
    let mut i: usize = 0;
    while i < n
        invariant
            i <= n,
            n == chars@.len(),
            forall|j: int| 0 <= j < i ==> !#[trigger] scheme_ends(chars@, j),
        decreases n - i,
    {
        if n - i >= 3 && chars[i] == ':' && chars[i + 1] == '/' && chars[i + 2] == '/' {
            assert(scheme_ends(chars@, i as int));
            return Some(i);
        }
        assert(!scheme_ends(chars@, i as int));
        i += 1;
    }
    assert forall|k: int| !scheme_end(chars@, k) by {
        if scheme_end(chars@, k) {
            assert(!scheme_ends(chars@, k));
        }
    }
    None
}

fn find_port(chars: &Vec<char>) -> (r: Option<usize>)
    ensures
        match r {
            Some(i) => port_starts(chars@, i as int),
            None => forall|i: int| !port_starts(chars@, i),
        },
{
    let n: usize = chars.len();
    let mut i: usize = n;
    while i > 0
        invariant
            i <= n,
            n == chars@.len(),
            forall|j: int| i <= j < n ==> #[trigger] chars@[j] != ':' && chars@[j] != ']',
        decreases i,
    {
        i -= 1;
        if chars[i] == ':' {
            return Some(i);
        }
        if chars[i] == ']' {
            assert forall|k: int| !port_starts(chars@, k) by {
                if port_starts(chars@, k) {
                    assert(chars@[i as int] == ']');
                    assert(chars@[k] == ':');
                }
            }
            return None;
        }
    }
    None
}

/// Returns the scheme, the authority, and the target of a text.
fn split_uri(chars: &Vec<char>) -> (r: Option<(String, String, String)>)
    ensures
        match pieces(chars@) {
            Some(found) => r matches Some(parts) && parts.0@ == found.scheme && parts.1@
                == found.authority && parts.2@ == found.target,
            None => r is None,
        },
{
    let i: usize = match find_scheme_end(chars) {
        Some(i) => i,
        None => {
            return None;
        },
    };
    proof {
        let k = choose|k: int| scheme_end(chars@, k);
        if k < i {
            assert(!scheme_ends(chars@, k));
        } else if i < k {
            assert(!scheme_ends(chars@, i as int));
        }
    }
    let n: usize = chars.len();
    let start: usize = i + 3;
    let mut end: usize = start;
    while end < n && chars[end] != '/' && chars[end] != '?'
        invariant
            start <= end <= n,
            n == chars@.len(),
            authority_end(chars@, start as int) == authority_end(chars@, end as int),
        decreases n - end,
    {
        end += 1;
    }
    let scheme = from_chars(chars, 0, i);
    assert(scheme@ =~= chars@.take(i as int));
    let authority = from_chars(chars, start, end);
    let target = from_chars(chars, end, n);
    assert(target@ =~= chars@.skip(end as int));
    Some((scheme, authority, target))
}

/// Returns the host, and the colon and port, of an authority.
fn split_port(authority: &Vec<char>) -> (r: (String, String))
    ensures
        r.0@ == host_part(authority@),
        r.1@ == port_suffix(authority@),
{
    let n: usize = authority.len();
    let at: usize = match find_port(authority) {
        Some(at) => {
            proof {
                let k = choose|k: int| port_starts(authority@, k);
                if k < at {
                    assert(authority@[at as int] != ':');
                } else if at < k {
                    assert(authority@[k] != ':');
                }
            }
            at
        },
        None => n,
    };
    let host = from_chars(authority, 0, at);
    let port = from_chars(authority, at, n);
    assert(port@ =~= port_suffix(authority@));
    assert(host@ =~= host_part(authority@));
    (host, port)
}

impl ResolvedWebSocket {
    /// Resolves a `ws://` or `wss://` URI. The host is brought to its
    /// canonical form; the request target stays as it was written.
    pub fn new(text: &str) -> (r: Result<Self, WebSocketError>)
        ensures
            match resolution(text@) {
                Ok(found) => r matches Ok(request) && request@ == found && request.cookie_url.wf(),
                Err(error) => r matches Err(refusal) && refusal@ == error,
            },
            r matches Ok(request) ==> unbroken(request.target@),
    {
        proof {
            reveal_strlit("/");
        }
        let chars = to_chars(text);
        if has_char(&chars, '#') {
            return Err(
                WebSocketError::invalid_request("WebSocket URI must not contain a fragment"),
            );
        }
        let (scheme, authority, target) = match split_uri(&chars) {
            Some(parts) => parts,
            None => {
                return Err(
                    WebSocketError::plain(WebSocketErrorKind::InvalidUri, "invalid WebSocket URI"),
                );
            },
        };
        let inner = to_chars(authority.as_str());
        if inner.len() == 0 {
            return Err(
                WebSocketError::plain(WebSocketErrorKind::InvalidUri, "invalid WebSocket URI"),
            );
        }
        if has_char(&inner, '@') {
            return Err(
                WebSocketError::plain(
                    WebSocketErrorKind::InvalidAuthority,
                    "WebSocket URI must not include user information",
                ),
            );
        }
        let (name, port) = split_port(&inner);
        let host = match parse_host(name.as_str()) {
            Some(host) => host,
            None => {
                return Err(
                    WebSocketError::plain(
                        WebSocketErrorKind::InvalidAuthority,
                        "WebSocket URI has an invalid authority",
                    ),
                );
            },
        };
        let host_text = format_host(&host);
        let mut canonical = scheme;
        canonical.append("://");
        canonical.append(host_text.as_str());
        canonical.append(port.as_str());
        canonical.append(target.as_str());
        match parse_uri(canonical.as_str()) {
            Some(uri) => Self::place(uri, &host),
            None => Err(
                WebSocketError::plain(WebSocketErrorKind::InvalidUri, "invalid WebSocket URI"),
            ),
        }
    }

    /// Resolves a WebSocket from the parts of its URI, whose host is `host`.
    pub fn place(uri: UriParts, host: &Host) -> (r: Result<Self, WebSocketError>)
        ensures
            match placed(uri@, host@) {
                Ok(found) => r matches Ok(request) && request@ == found && request.cookie_url.wf(),
                Err(error) => r matches Err(refusal) && refusal@ == error,
            },
    {
        let transport = match &uri.scheme {
            Some(scheme) => if same_text(scheme.as_str(), "ws") {
                Some(WebSocketTransport::Plaintext)
            } else if same_text(scheme.as_str(), "wss") {
                Some(WebSocketTransport::Tls)
            } else {
                None
            },
            None => None,
        };
        let transport = match transport {
            Some(transport) => transport,
            None => {
                return Err(
                    WebSocketError::plain(
                        WebSocketErrorKind::UnsupportedScheme,
                        "WebSocket URI scheme must be ws or wss",
                    ),
                );
            },
        };
        let (cookie_scheme, default_port) = match transport {
            WebSocketTransport::Plaintext => ("http", 80u16),
            WebSocketTransport::Tls => ("https", 443u16),
        };
        let authority = match uri.authority {
            Some(authority) => authority,
            None => {
                return Err(
                    WebSocketError::plain(
                        WebSocketErrorKind::InvalidAuthority,
                        "WebSocket URI must include an authority",
                    ),
                );
            },
        };
        let endpoint = match Endpoint::parse(authority.as_str(), default_port) {
            Some(endpoint) => endpoint,
            None => {
                return Err(
                    WebSocketError::plain(
                        WebSocketErrorKind::InvalidAuthority,
                        "WebSocket URI has an invalid authority",
                    ),
                );
            },
        };
        let target = match uri.target {
            Some(target) => target,
            None => "/".to_owned(),
        };
        if target.as_str().is_empty() || target.as_str().get_char(0) != '/' {
            return Err(WebSocketError::invalid_request("invalid WebSocket request target"));
        }
        let mut cookie_text = cookie_scheme.to_owned();
        cookie_text.append("://");
        cookie_text.append(authority.as_str());
        cookie_text.append(target.as_str());
        let cookie_url = match parse_url(cookie_text.as_str()) {
            Some(url) => url,
            None => {
                return Err(
                    WebSocketError::invalid_request(
                        "WebSocket URI cannot be represented for cookie policy",
                    ),
                );
            },
        };
        let trustworthy = transport == WebSocketTransport::Tls || is_potentially_trustworthy_host(
            host,
        );
        Ok(ResolvedWebSocket { endpoint, target, transport, trustworthy, cookie_url })
    }
}

/// How the connect step chooses the protocol and connection.
#[derive(Clone, Copy, Debug, PartialEq, Eq, Structural)]
pub enum WebSocketSelection {
    /// Exactly this protocol on a dedicated connection.
    Exact(HttpProtocol),
    /// The profile's connection policy.
    ProfilePolicy,
}

/// The HTTP/1.1 connector used for an Upgrade.
#[derive(Clone, Copy, Debug, PartialEq, Eq, Structural)]
pub enum Http1UpgradeConnector {
    /// The profile's ordinary TLS offer.
    Profile,
    /// The WebSocket policy's Upgrade-connection ALPN offer.
    PolicyAlpn,
}

/// The new connection that a policy opens.
#[derive(Clone, Copy, Debug, PartialEq, Eq, Structural)]
pub enum WebSocketNewConnection {
    Http1Upgrade,
    Http2ExtendedConnect,
}

/// Whether a refused stream is tried again.
#[derive(Clone, Copy, Debug, PartialEq, Eq, Structural)]
pub enum WebSocketRefusedStreamRetry {
    Never,
    Once,
}

/// Which connection a profile uses for a WebSocket.
#[derive(Clone, Copy, Debug, PartialEq, Eq, Structural)]
pub struct WebSocketConnectionPolicy {
    /// Without a pooled HTTP/2 session.
    pub without_http2_session: WebSocketNewConnection,
    /// With a pooled session whose peer does not take extended CONNECT.
    pub with_incapable_http2_session: WebSocketNewConnection,
    pub refused_stream_retry: WebSocketRefusedStreamRetry,
}

/// Opening fields that depend on whether the URL is trustworthy.
#[derive(Debug)]
pub struct RecipeFields {
    pub trustworthy: Vec<WebSocketHeader>,
    pub other: Vec<WebSocketHeader>,
}

impl RecipeFields {
    /// The fields for a URL.
    pub open spec fn chosen(self, trustworthy: bool) -> Seq<OpeningView> {
        if trustworthy {
            opening_view(self.trustworthy@)
        } else {
            opening_view(self.other@)
        }
    }

    /// Returns the fields for a URL.
    pub fn choose_for(&self, trustworthy: bool) -> (r: Vec<WebSocketHeader>)
        ensures
            opening_view(r@) == self.chosen(trustworthy),
    {
        if trustworthy {
            copy_opening(&self.trustworthy)
        } else {
            copy_opening(&self.other)
        }
    }
}

/// Copies a sequence.
pub fn copy_opening(headers: &Vec<WebSocketHeader>) -> (r: Vec<WebSocketHeader>)
    ensures
        opening_view(r@) == opening_view(headers@),
{
    let mut out: Vec<WebSocketHeader> = Vec::new();
    let mut i: usize = 0;
    while i < headers.len()
        invariant
            i <= headers@.len(),
            out@.len() == i,
            forall|j: int| 0 <= j < i ==> (#[trigger] out@[j])@ == headers@[j]@,
        decreases headers@.len() - i,
    {
        out.push(headers[i].clone());
        i += 1;
    }
    assert(opening_view(out@) =~= opening_view(headers@));
    out
}

/// A profile's WebSocket recipe.
#[derive(Debug)]
pub struct WebSocketSettings {
    pub http1_fields: RecipeFields,
    pub http2_fields: RecipeFields,
    pub handshake_timeout: Option<Duration>,
    pub connection: WebSocketConnectionPolicy,
}

/// What a client has for WebSockets.
#[derive(Debug)]
pub struct WebSocketSupport {
    pub http1: bool,
    pub http2: bool,
    pub settings: Option<WebSocketSettings>,
    /// The opening fields of a profile without a recipe.
    pub default_headers: Vec<WebSocketHeader>,
    pub default_http2_headers: Vec<WebSocketHeader>,
}

impl WebSocketSupport {
    /// Whether a protocol can open a WebSocket.
    pub open spec fn offers(self, protocol: HttpProtocol) -> bool {
        match protocol {
            HttpProtocol::Http1 => self.http1,
            HttpProtocol::Http2 => self.http2,
            HttpProtocol::Http3 => false,
        }
    }

    /// The opening fields of a protocol.
    pub open spec fn fields(self, protocol: HttpProtocol, trustworthy: bool) -> Seq<OpeningView> {
        match self.settings {
            Some(settings) => if protocol == HttpProtocol::Http1 {
                settings.http1_fields.chosen(trustworthy)
            } else {
                settings.http2_fields.chosen(trustworthy)
            },
            None => if protocol == HttpProtocol::Http1 {
                opening_view(self.default_headers@)
            } else {
                opening_view(self.default_http2_headers@)
            },
        }
    }

    /// The handshake timeout of the profile.
    pub open spec fn timeout(self) -> Option<Duration> {
        match self.settings {
            Some(settings) => settings.handshake_timeout,
            None => None,
        }
    }

    /// The connection policy of the profile.
    pub open spec fn policy(self) -> Option<WebSocketConnectionPolicy> {
        match self.settings {
            Some(settings) => Some(settings.connection),
            None => None,
        }
    }
}

/// What a builder starts with.
pub struct StartView {
    pub selection: WebSocketSelection,
    pub request: ResolvedView,
    pub headers: Seq<OpeningView>,
    pub http2_headers: Seq<OpeningView>,
    pub handshake_timeout: Option<Duration>,
    pub policy: Option<WebSocketConnectionPolicy>,
}

impl WebSocketSupport {
    /// The builder for exactly one protocol, or why there is none.
    pub open spec fn exact(self, protocol: HttpProtocol, uri: Seq<char>) -> Result<
        StartView,
        WebSocketErrorView,
    > {
        if !self.offers(protocol) {
            Err(unavailable(protocol))
        } else {
            match resolution(uri) {
                Err(refusal) => Err(refusal),
                Ok(request) => Ok(
                    StartView {
                        selection: WebSocketSelection::Exact(protocol),
                        request,
                        headers: self.fields(protocol, request.trustworthy),
                        http2_headers: Seq::empty(),
                        handshake_timeout: self.timeout(),
                        policy: self.policy(),
                    },
                ),
            }
        }
    }

    /// The builder for the profile's policy, or why there is none.
    pub open spec fn by_policy(self, uri: Seq<char>) -> Result<StartView, WebSocketErrorView> {
        match (self.settings, resolution(uri)) {
            (None, _) => Err(policy_unavailable()),
            (Some(_), Err(refusal)) => Err(refusal),
            (Some(settings), Ok(request)) => Ok(
                StartView {
                    selection: WebSocketSelection::ProfilePolicy,
                    request,
                    headers: settings.http1_fields.chosen(request.trustworthy),
                    http2_headers: settings.http2_fields.chosen(request.trustworthy),
                    handshake_timeout: settings.handshake_timeout,
                    policy: Some(settings.connection),
                },
            ),
        }
    }
}

/// Whether a builder is as it starts: without a route, retries or replaced
/// fields of its own.
pub open spec fn built(
    r: Result<WebSocketRequestBuilder, WebSocketError>,
    start: Result<StartView, WebSocketErrorView>,
) -> bool {
    match (r, start) {
        (Ok(builder), Ok(start)) => {
            &&& builder.selection == start.selection
            &&& builder.request@ == start.request
            &&& opening_view(builder.headers@) == start.headers
            &&& opening_view(builder.http2_headers@) == start.http2_headers
            &&& !builder.replaced_policy_headers
            &&& builder.route is None
            &&& builder.handshake_timeout == start.handshake_timeout
            &&& builder.retry_policy.max_connection_failures is None
            &&& builder.policy == start.policy
        },
        (Err(error), Err(refusal)) => error@ == refusal,
        _ => false,
    }
}

/// Whether and how often a WebSocket is opened again after a failure.
#[derive(Clone, Copy, Debug, PartialEq, Eq, Structural)]
pub struct WebSocketRetryPolicy {
    pub max_connection_failures: Option<usize>,
}

impl WebSocketRetryPolicy {
    /// Opens once.
    pub fn none() -> (r: Self)
        ensures
            r.max_connection_failures is None,
    {
        WebSocketRetryPolicy { max_connection_failures: None }
    }
}

/// What may be shown of a builder: neither its URI nor its fields.
#[derive(Clone, Copy, Debug, PartialEq, Eq)]
pub struct RedactedWebSocketRequest {
    pub header_count: usize,
    pub selection: WebSocketSelection,
    pub route_override: bool,
    pub handshake_timeout: Option<Duration>,
    pub retry_policy: WebSocketRetryPolicy,
}

/// Builder for one ordered WebSocket opening handshake.
pub struct WebSocketRequestBuilder {
    pub selection: WebSocketSelection,
    pub request: ResolvedWebSocket,
    /// Opening fields for the exact protocol, or HTTP/1.1 under profile policy.
    pub headers: Vec<WebSocketHeader>,
    /// HTTP/2 opening fields under profile policy; empty otherwise.
    pub http2_headers: Vec<WebSocketHeader>,
    /// Set when the caller replaced a sequence that profile policy must choose.
    pub replaced_policy_headers: bool,
    pub route: Option<Route>,
    pub handshake_timeout: Option<Duration>,
    pub retry_policy: WebSocketRetryPolicy,
    /// The profile's connection policy, if it has one.
    pub policy: Option<WebSocketConnectionPolicy>,
}

/// Why a handshake timeout is refused at `now`, if it is.
pub open spec fn timeout_refusal(timeout: Option<Duration>, now: Instant) -> Option<
    WebSocketErrorView,
> {
    match timeout {
        None => None,
        Some(timeout) => if timeout.nanos == 0 {
            Some(
                plain(
                    WebSocketErrorKind::InvalidRequest,
                    "a WebSocket handshake timeout must be positive; None sets no limit"@,
                ),
            )
        } else if !now.reaches(timeout) {
            Some(
                failed(
                    WebSocketErrorKind::InvalidRequest,
                    RequestError::of_kind(RequestErrorKind::InvalidTimeout, None),
                ),
            )
        } else {
            None
        },
    }
}

/// What an attempt fails with when the handshake timeout passes.
pub open spec fn handshake_timed_out(selection: WebSocketSelection) -> WebSocketErrorView {
    failed(
        WebSocketErrorKind::Timeout,
        RequestError {
            kind: RequestErrorKind::Timeout,
            phase: Some(TimeoutPhase::WebSocketHandshake),
            protocol: match selection {
                WebSocketSelection::Exact(protocol) => Some(protocol),
                WebSocketSelection::ProfilePolicy => None,
            },
            http3: None,
        },
    )
}

/// The opening fields of a step: under a profile's policy those of the
/// protocol that it uses.
pub open spec fn step_fields(builder: WebSocketRequestBuilder, step: Opening) -> Vec<
    WebSocketHeader,
> {
    match (builder.selection, step) {
        (WebSocketSelection::ProfilePolicy, Opening::Http2) => builder.http2_headers,
        (WebSocketSelection::ProfilePolicy, Opening::Http2Session(_)) => builder.http2_headers,
        _ => builder.headers,
    }
}

/// The opening fields of a builder and of its HTTP/2 sequence once a field
/// was added.
pub open spec fn with_field(builder: WebSocketRequestBuilder, field: FieldView) -> (
    Seq<OpeningView>,
    Seq<OpeningView>,
) {
    (
        filled(opening_view(builder.headers@), field),
        if builder.selection == WebSocketSelection::ProfilePolicy {
            filled(opening_view(builder.http2_headers@), lowered(field))
        } else {
            opening_view(builder.http2_headers@)
        },
    )
}

/// A field with its name in lower case.
pub open spec fn lowered(field: FieldView) -> FieldView {
    FieldView {
        header: HeaderView { name: lowercase(field.header.name), value: field.header.value },
        sensitive: field.sensitive,
    }
}

impl WebSocketRequestBuilder {
    /// A builder for exactly one protocol.
    pub fn new(support: &WebSocketSupport, protocol: HttpProtocol, uri: &str) -> (r: Result<
        Self,
        WebSocketError,
    >)
        ensures
            built(r, support.exact(protocol, uri@)),
    {
        let available = match protocol {
            HttpProtocol::Http1 => support.http1,
            HttpProtocol::Http2 => support.http2,
            HttpProtocol::Http3 => false,
        };
        if !available {
            return Err(WebSocketError::protocol_unavailable(protocol));
        }
        let request = match ResolvedWebSocket::new(uri) {
            Ok(request) => request,
            Err(error) => {
                return Err(error);
            },
        };
        let (headers, handshake_timeout, policy) = match &support.settings {
            Some(settings) => (
                if protocol == HttpProtocol::Http1 {
                    settings.http1_fields.choose_for(request.trustworthy)
                } else {
                    settings.http2_fields.choose_for(request.trustworthy)
                },
                settings.handshake_timeout,
                Some(settings.connection),
            ),
            None => (
                if protocol == HttpProtocol::Http1 {
                    copy_opening(&support.default_headers)
                } else {
                    copy_opening(&support.default_http2_headers)
                },
                None,
                None,
            ),
        };
        let http2_headers: Vec<WebSocketHeader> = Vec::new();
        assert(opening_view(http2_headers@) =~= Seq::empty());
        Ok(
            WebSocketRequestBuilder {
                selection: WebSocketSelection::Exact(protocol),
                request,
                headers,
                http2_headers,
                replaced_policy_headers: false,
                route: None,
                handshake_timeout,
                retry_policy: WebSocketRetryPolicy::none(),
                policy,
            },
        )
    }

    /// A builder for the profile's connection policy.
    pub fn with_profile_policy(support: &WebSocketSupport, uri: &str) -> (r: Result<
        Self,
        WebSocketError,
    >)
        ensures
            built(r, support.by_policy(uri@)),
    {
        let settings = match &support.settings {
            Some(settings) => settings,
            None => {
                return Err(WebSocketError::profile_policy_unavailable());
            },
        };
        let request = match ResolvedWebSocket::new(uri) {
            Ok(request) => request,
            Err(error) => {
                return Err(error);
            },
        };
        let headers = settings.http1_fields.choose_for(request.trustworthy);
        let http2_headers = settings.http2_fields.choose_for(request.trustworthy);
        Ok(
            WebSocketRequestBuilder {
                selection: WebSocketSelection::ProfilePolicy,
                request,
                headers,
                http2_headers,
                replaced_policy_headers: false,
                route: None,
                handshake_timeout: settings.handshake_timeout,
                retry_policy: WebSocketRetryPolicy::none(),
                policy: Some(settings.connection),
            },
        )
    }

    /// Adds one ordered opening-handshake field.
    ///
    /// The value fills the first unfilled slot with the same case-insensitive
    /// name, keeping the slot's position and spelling. Otherwise the field is
    /// appended. Under the profile's policy the field is added to both the
    /// HTTP/1.1 and HTTP/2 sequences, and an appended HTTP/2 name is
    /// lowercased as HTTP/2 requires.
    pub fn header(self, field: OpeningField) -> (r: Self)
        ensures
            (opening_view(r.headers@), opening_view(r.http2_headers@)) == with_field(self, field@),
            r == (WebSocketRequestBuilder {
                headers: r.headers,
                http2_headers: r.http2_headers,
                ..self
            }),
    {
        let mut headers = self.headers;
        let mut http2_headers = self.http2_headers;
        match self.selection {
            WebSocketSelection::ProfilePolicy => {
                let lower = OpeningField {
                    header: RequestHeader::new(
                        to_lowercase(field.header.name.as_str()).as_str(),
                        field.header.value.as_slice(),
                    ),
                    sensitive: field.sensitive,
                };
                fill_or_append(&mut http2_headers, lower);
            },
            _ => {},
        }
        fill_or_append(&mut headers, field);
        WebSocketRequestBuilder { headers, http2_headers, ..self }
    }

    /// The builder with this setting.
    pub open spec fn with_headers(self, headers: Vec<WebSocketHeader>) -> Self {
        WebSocketRequestBuilder {
            headers,
            replaced_policy_headers: self.selection == WebSocketSelection::ProfilePolicy,
            ..self
        }
    }

    /// Replaces the complete ordered opening-handshake field sequence.
    ///
    /// Under the profile's policy the protocol is chosen at connect time, so
    /// one replacement sequence cannot fit it; the connect then fails before
    /// I/O. Fill the profile's slots with [`Self::header`].
    pub fn headers(self, headers: Vec<WebSocketHeader>) -> (r: Self)
        ensures
            r == self.with_headers(headers),
    {
        let replaced_policy_headers = match self.selection {
            WebSocketSelection::ProfilePolicy => true,
            _ => false,
        };
        WebSocketRequestBuilder { headers, replaced_policy_headers, ..self }
    }

    /// The builder with this setting.
    pub open spec fn with_route(self, route: Route) -> Self {
        WebSocketRequestBuilder { route: Some(route), ..self }
    }

    /// Overrides the client's route for this connection.
    pub fn route(self, route: Route) -> (r: Self)
        ensures
            r == self.with_route(route),
    {
        WebSocketRequestBuilder { route: Some(route), ..self }
    }

    /// The builder with this setting.
    pub open spec fn with_handshake_timeout(self, timeout: Option<Duration>) -> Self {
        WebSocketRequestBuilder { handshake_timeout: timeout, ..self }
    }

    /// Replaces the handshake timeout for this connect; `None` removes it.
    pub fn handshake_timeout(self, timeout: Option<Duration>) -> (r: Self)
        ensures
            r == self.with_handshake_timeout(timeout),
    {
        WebSocketRequestBuilder { handshake_timeout: timeout, ..self }
    }

    /// The builder with this setting.
    pub open spec fn with_retry_policy(self, policy: WebSocketRetryPolicy) -> Self {
        WebSocketRequestBuilder { retry_policy: policy, ..self }
    }

    /// Opens a new connection after a connection-setup failure, as `policy`
    /// allows.
    pub fn retry_policy(self, policy: WebSocketRetryPolicy) -> (r: Self)
        ensures
            r == self.with_retry_policy(policy),
    {
        WebSocketRequestBuilder { retry_policy: policy, ..self }
    }

    /// Returns what may be shown of this builder.
    pub fn redacted(&self) -> (r: RedactedWebSocketRequest)
        ensures
            r == (RedactedWebSocketRequest {
                header_count: self.headers@.len() as usize,
                selection: self.selection,
                route_override: self.route is Some,
                handshake_timeout: self.handshake_timeout,
                retry_policy: self.retry_policy,
            }),
    {
        RedactedWebSocketRequest {
            header_count: self.headers.len(),
            selection: self.selection,
            route_override: self.route.is_some(),
            handshake_timeout: self.handshake_timeout,
            retry_policy: self.retry_policy,
        }
    }

    /// Checks the handshake timeout before any I/O.
    pub fn check_handshake_timeout(&self, now: Instant) -> (r: Result<(), WebSocketError>)
        ensures
            (match r {
                Ok(_) => None,
                Err(error) => Some(error@),
            }) == timeout_refusal(self.handshake_timeout, now),
    {
        match self.handshake_timeout {
            Some(timeout) => {
                if timeout.is_zero() {
                    return Err(
                        WebSocketError::invalid_request(
                            "a WebSocket handshake timeout must be positive; None sets no limit",
                        ),
                    );
                }
                if now.checked_add(timeout).is_none() {
                    return Err(
                        WebSocketError {
                            kind: WebSocketErrorKind::InvalidRequest,
                            message: "WebSocket request failed",
                            protocol: None,
                            source: Some(
                                RequestError::new(RequestErrorKind::InvalidTimeout, None),
                            ),
                        },
                    );
                }
                Ok(())
            },
            None => Ok(()),
        }
    }

    /// Returns what an attempt fails with when the handshake timeout passes.
    pub fn timed_out(&self) -> (r: WebSocketError)
        ensures
            r@ == handshake_timed_out(self.selection),
    {
        let protocol = match self.selection {
            WebSocketSelection::Exact(protocol) => Some(protocol),
            WebSocketSelection::ProfilePolicy => None,
        };
        WebSocketError {
            kind: WebSocketErrorKind::Timeout,
            message: "WebSocket request failed",
            protocol: None,
            source: Some(RequestError::timeout(TimeoutPhase::WebSocketHandshake, protocol)),
        }
    }
}

/// What an opening does.
#[derive(Clone, Copy, Debug, PartialEq, Eq, Structural)]
pub enum Opening {
    /// Upgrades a new HTTP/1.1 connection.
    Http1(Http1UpgradeConnector),
    /// Sends an extended CONNECT on a new HTTP/2 connection.
    Http2,
    /// Sends an extended CONNECT on the pooled session.
    Http2Session(WebSocketRefusedStreamRetry),
    /// Asks the pool for an HTTP/2 session, and then
    /// [`WebSocketRequestBuilder::after_admission`] what to do.
    Admit,
}

/// What the pool has for an opening.
#[derive(Clone, Copy, Debug, PartialEq, Eq, Structural)]
pub enum PooledSession {
    /// No session.
    Missing,
    /// A session that failed before its peer's settings were known.
    Failed,
    /// A session whose peer does not take extended CONNECT.
    Incapable,
    /// A session whose peer takes extended CONNECT.
    Capable,
}

/// The opening on a policy's new connection.
pub open spec fn on_new_connection(choice: WebSocketNewConnection) -> Opening {
    match choice {
        WebSocketNewConnection::Http2ExtendedConnect => Opening::Http2,
        WebSocketNewConnection::Http1Upgrade => Opening::Http1(Http1UpgradeConnector::PolicyAlpn),
    }
}

/// The opening for what the pool has.
pub open spec fn admitted(policy: WebSocketConnectionPolicy, session: PooledSession) -> Opening {
    match session {
        PooledSession::Capable => Opening::Http2Session(policy.refused_stream_retry),
        PooledSession::Incapable => on_new_connection(policy.with_incapable_http2_session),
        _ => on_new_connection(policy.without_http2_session),
    }
}

/// The first step of an opening, or why there is none. The templates of a
/// profile policy were checked before.
pub open spec fn first_step(
    builder: WebSocketRequestBuilder,
    templates: Option<WebSocketErrorView>,
) -> Result<Opening, WebSocketErrorView> {
    match builder.selection {
        WebSocketSelection::Exact(HttpProtocol::Http1) => Ok(
            Opening::Http1(Http1UpgradeConnector::Profile),
        ),
        WebSocketSelection::Exact(HttpProtocol::Http2) => Ok(Opening::Http2),
        WebSocketSelection::Exact(protocol) => Err(unavailable(protocol)),
        WebSocketSelection::ProfilePolicy => if builder.replaced_policy_headers {
            Err(
                plain(
                    WebSocketErrorKind::InvalidRequest,
                    "profile WebSocket policy chooses the protocol at connect time; fill its template slots with header()"@,
                ),
            )
        } else if builder.policy is None {
            Err(policy_unavailable())
        } else if templates is Some {
            Err(templates->0)
        } else if builder.request.transport == WebSocketTransport::Plaintext {
            Ok(Opening::Http1(Http1UpgradeConnector::PolicyAlpn))
        } else {
            Ok(Opening::Admit)
        },
    }
}

impl WebSocketRequestBuilder {
    /// Returns the first step of the opening.
    pub fn first_step(&self, templates: Option<WebSocketError>) -> (r: Result<
        Opening,
        WebSocketError,
    >)
        ensures
            (match r {
                Ok(step) => Ok(step),
                Err(error) => Err(error@),
            }) == first_step(
                *self,
                match templates {
                    Some(error) => Some(error@),
                    None => None,
                },
            ),
    {
        match self.selection {
            WebSocketSelection::Exact(HttpProtocol::Http1) => Ok(
                Opening::Http1(Http1UpgradeConnector::Profile),
            ),
            WebSocketSelection::Exact(HttpProtocol::Http2) => Ok(Opening::Http2),
            WebSocketSelection::Exact(protocol) => Err(
                WebSocketError::protocol_unavailable(protocol),
            ),
            WebSocketSelection::ProfilePolicy => {
                if self.replaced_policy_headers {
                    return Err(
                        WebSocketError::invalid_request(
                            "profile WebSocket policy chooses the protocol at connect time; fill its template slots with header()",
                        ),
                    );
                }
                if self.policy.is_none() {
                    return Err(WebSocketError::profile_policy_unavailable());
                }
                match templates {
                    Some(error) => {
                        return Err(error);
                    },
                    None => {},
                }
                if self.request.transport == WebSocketTransport::Plaintext {
                    Ok(Opening::Http1(Http1UpgradeConnector::PolicyAlpn))
                } else {
                    Ok(Opening::Admit)
                }
            },
        }
    }

    /// Returns the opening for what the pool has.
    ///
    /// The choice is final: a failure on the chosen connection is returned
    /// without trying another connection or protocol.
    pub fn after_admission(&self, session: PooledSession) -> (r: Opening)
        requires
            self.policy is Some,
        ensures
            r == admitted(self.policy->0, session),
    {
        let policy = match self.policy {
            Some(policy) => policy,
            None => {
                return Opening::Admit;
            },
        };
        let choice = match session {
            PooledSession::Capable => {
                return Opening::Http2Session(policy.refused_stream_retry);
            },
            PooledSession::Incapable => policy.with_incapable_http2_session,
            _ => policy.without_http2_session,
        };
        match choice {
            WebSocketNewConnection::Http2ExtendedConnect => Opening::Http2,
            WebSocketNewConnection::Http1Upgrade => Opening::Http1(
                Http1UpgradeConnector::PolicyAlpn,
            ),
        }
    }

    /// Returns the opening fields of a step.
    pub fn opening_headers(&self, step: Opening) -> (r: &Vec<WebSocketHeader>)
        ensures
            *r == step_fields(*self, step),
    {
        match (self.selection, step) {
            (WebSocketSelection::ProfilePolicy, Opening::Http2) => &self.http2_headers,
            (WebSocketSelection::ProfilePolicy, Opening::Http2Session(_)) => &self.http2_headers,
            _ => &self.headers,
        }
    }
}

/// A plaintext WebSocket never runs over HTTP/2 under a profile's policy.
pub proof fn plaintext_takes_http1_under_policy(
    builder: WebSocketRequestBuilder,
    templates: Option<WebSocketErrorView>,
)
    requires
        builder.selection == WebSocketSelection::ProfilePolicy,
        builder.request.transport == WebSocketTransport::Plaintext,
    ensures
        first_step(builder, templates) matches Ok(step) ==> step == Opening::Http1(
            Http1UpgradeConnector::PolicyAlpn,
        ),
{
}

/// A secure WebSocket is always trustworthy.
pub proof fn a_secure_websocket_is_trustworthy(text: Seq<char>)
    ensures
        resolution(text) matches Ok(found) ==> (found.transport == WebSocketTransport::Tls
            ==> found.trustworthy),
{
}

/// Filling a place or appending keeps every other entry.
pub proof fn filling_keeps_other_entries(headers: Seq<OpeningView>, field: FieldView, i: int)
    requires
        0 <= i < headers.len(),
        !is_slot(headers[i], field.header.name),
    ensures
        filled(headers, field)[i] == headers[i],
{
}

} // verus!
