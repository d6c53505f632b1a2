//! What holds of WebSocket openings.

use vstd::prelude::*;
use crate::endpoint::{HeaderView, HttpProtocol, Route};
use crate::error::RequestErrorKind;
use crate::host::{
    host_in_uri, http_authority, http_uri, trustworthy_host, url_host, url_parts, HostView,
    UriView,
};
use crate::text::lowercase;
use crate::text_laws::{lower_case_ignores_ascii_case_alone, same_letters};
use crate::time::{Duration, Instant};
use crate::timeout::TimeoutPhase;
use crate::websocket::{
    admitted, authority_end, built, carries, filled, first_carrying, first_slot, first_step,
    handshake_timed_out, host_part, is_slot, opening_field, opening_view, pieces, placed,
    port_starts, port_suffix, resolution, scheme_end, scheme_ends, step_fields, timeout_refusal,
    with_field, FieldView, Http1UpgradeConnector, Opening, OpeningView, Pieces, PooledSession,
    StartView, WebSocketError,
    ResolvedView, WebSocketConnectionPolicy, WebSocketErrorKind, WebSocketErrorView,
    WebSocketHeader, WebSocketNewConnection, WebSocketRequestBuilder, WebSocketRetryPolicy,
    WebSocketSelection, WebSocketSupport, WebSocketTransport,
};

verus! {

/// A WebSocket runs over TLS exactly for `wss`, on port 443 unless its
/// authority names another, and in plaintext for `ws`, on port 80 unless its
/// authority names another. Its authority and target are those of the URI, a
/// missing target is the root, and its cookies are those of the same URL with
/// `https` or `http`.
pub proof fn a_websocket_goes_where_its_uri_says(uri: UriView, host: HostView)
    ensures
        ({
            let secure = uri.scheme == Some("wss"@);
            let plain = uri.scheme == Some("ws"@);
            let target = match uri.target {
                Some(target) => target,
                None => seq!['/'],
            };
            match placed(uri, host) {
                Ok(found) => {
                    &&& secure || plain
                    &&& uri.authority == Some(found.authority)
                    &&& http_authority(found.authority) matches Some(parts) && {
                        &&& parts.port matches Some(port) ==> found.port == port
                        &&& parts.port is None && secure ==> found.port == 443
                        &&& parts.port is None && plain ==> found.port == 80
                        &&& parts.host.len() == 0 || parts.host[0] != '[' ==> found.host
                            == parts.host
                        &&& parts.host.len() >= 2 && parts.host[0] == '[' && parts.host.last()
                            == ']' ==> parts.host == seq!['['] + found.host + seq![']']
                    }
                    &&& found.target == target
                    &&& target.len() > 0 && target[0] == '/'
                    &&& secure ==> found.transport == WebSocketTransport::Tls && found.trustworthy
                    &&& plain ==> found.transport == WebSocketTransport::Plaintext
                        && found.trustworthy == trustworthy_host(host)
                    &&& secure ==> Some(found.cookie_url) == url_parts(
                        "https://"@ + found.authority + target,
                    )
                    &&& plain ==> Some(found.cookie_url) == url_parts(
                        "http://"@ + found.authority + target,
                    )
                },
                Err(error) => if !secure && !plain {
                    error.kind == WebSocketErrorKind::UnsupportedScheme
                } else if uri.authority is None || http_authority(uri.authority->0) is None {
                    error.kind == WebSocketErrorKind::InvalidAuthority
                } else {
                    &&& error.kind == WebSocketErrorKind::InvalidRequest
                    &&& target.len() == 0 || target[0] != '/' || url_parts(
                        (if secure {
                            "https://"@
                        } else {
                            "http://"@
                        }) + uri.authority->0 + target,
                    ) is None
                },
            }
        }),
{
    reveal_strlit("ws");
    reveal_strlit("wss");
    reveal_strlit("/");
    reveal_strlit("http");
    reveal_strlit("https");
    reveal_strlit("://");
    reveal_strlit("http://");
    reveal_strlit("https://");
    assert("ws"@.len() == 2 && "wss"@.len() == 3);
    assert("http"@ + "://"@ =~= "http://"@);
    assert("https"@ + "://"@ =~= "https://"@);
    assert("/"@ =~= seq!['/']);
    match (uri.authority, http_authority(uri.authority->0)) {
        (Some(authority), Some(parts)) => {
            let host = parts.host;
            if host.len() >= 2 && host[0] == '[' && host.last() == ']' {
                assert(host =~= seq!['['] + host.subrange(1, host.len() - 1) + seq![']']);
            }
        },
        _ => {},
    }
}

/// Whether a text has none of some characters.
pub open spec fn has_none(text: Seq<char>, first: char, second: char) -> bool {
    !text.contains(first) && !text.contains(second)
}

proof fn lemma_pieces(scheme: Seq<char>, authority: Seq<char>, target: Seq<char>)
    requires
        !scheme.contains(':'),
        has_none(authority, '/', '?'),
        target.len() > 0 ==> target[0] == '/' || target[0] == '?',
    ensures
        pieces(scheme + "://"@ + authority + target) == Some(Pieces { scheme, authority, target }),
{
    reveal_strlit("://");
    let text = scheme + "://"@ + authority + target;
    let n = scheme.len() as int;
    assert forall|j: int| 0 <= j < n implies !#[trigger] scheme_ends(text, j) by {
        assert(text[j] == scheme[j]);
        assert(scheme.contains(scheme[j]));
    }
    assert(text[n] == ':' && text[n + 1] == '/' && text[n + 2] == '/');
    assert(scheme_end(text, n));
    assert forall|i: int| scheme_end(text, i) implies i == n by {
        if n < i {
            assert(!scheme_ends(text, n));
        }
    }
    let end = n + 3 + authority.len();
    lemma_authority_end(text, n + 3, end);
    assert(text.take(n) =~= scheme);
    assert(text.subrange(n + 3, end) =~= authority);
    assert(text.skip(end) =~= target);
}

proof fn lemma_authority_end(text: Seq<char>, from: int, end: int)
    requires
        0 <= from <= end <= text.len(),
        end < text.len() ==> text[end] == '/' || text[end] == '?',
        !text.subrange(from, end).contains('/'),
        !text.subrange(from, end).contains('?'),
    ensures
        authority_end(text, from) == end,
    decreases end - from,
{
    if from < end {
        let inner = text.subrange(from, end);
        assert(inner[0] == text[from]);
        assert(inner.contains(inner[0]));
        let rest = text.subrange(from + 1, end);
        assert forall|i: int| 0 <= i < rest.len() implies rest[i] != '/' && rest[i] != '?' by {
            assert(rest[i] == inner[i + 1]);
            assert(inner.contains(inner[i + 1]));
        }
        lemma_authority_end(text, from + 1, end);
    }
}

proof fn lemma_port(host: Seq<char>, port: Seq<char>)
    requires
        port.len() == 0 ==> has_none(host, ':', ':') || (host.len() > 0 && host.last() == ']'),
        port.len() > 0 ==> port[0] == ':' && forall|j: int|
            0 < j < port.len() ==> #[trigger] port[j] != ':' && port[j] != ']',
    ensures
        port_suffix(host + port) == port,
        host_part(host + port) == host,
{
    let all = host + port;
    let n = host.len() as int;
    if port.len() > 0 {
        assert(port_starts(all, n)) by {
            assert forall|j: int| n < j < all.len() implies #[trigger] all[j] != ':' && all[j]
                != ']' by {
                assert(all[j] == port[j - n]);
            }
        }
        assert forall|i: int| port_starts(all, i) implies i == n by {
            if i < n {
                assert(all[n] == port[0]);
            } else if n < i {
                assert(all[i] == port[i - n]);
            }
        }
        assert(all.skip(n) =~= port);
    } else {
        assert(all =~= host);
        assert forall|i: int| !port_starts(all, i) by {
            if port_starts(all, i) {
                if has_none(host, ':', ':') {
                    assert(host.contains(host[i]));
                } else {
                    assert(all[all.len() - 1] == ']');
                }
            }
        }
        assert(port_suffix(all) =~= port);
    }
    assert(all.take(n) =~= host);
}

/// The WebSocket of a URI is that of the same URI with its host in canonical
/// form: scheme, port and target stand as they were written, whatever they
/// hold.
pub proof fn only_the_host_of_a_uri_is_rewritten(
    scheme: Seq<char>,
    host: Seq<char>,
    port: Seq<char>,
    target: Seq<char>,
)
    requires
        !scheme.contains(':') && !scheme.contains('#'),
        has_none(host, '/', '?') && has_none(host, '#', '@'),
        has_none(port, '/', '?') && has_none(port, '#', '@'),
        !target.contains('#'),
        target.len() > 0 ==> target[0] == '/' || target[0] == '?',
        host.len() > 0,
        port.len() == 0 ==> has_none(host, ':', ':') || host.last() == ']',
        port.len() > 0 ==> port[0] == ':' && forall|j: int|
            0 < j < port.len() ==> #[trigger] port[j] != ':' && port[j] != ']',
    ensures
        ({
            let result = resolution(scheme + "://"@ + host + port + target);
            match url_host(host) {
                None => result matches Err(error) && error.kind
                    == WebSocketErrorKind::InvalidAuthority,
                Some(found) => match http_uri(
                    scheme + "://"@ + host_in_uri(found) + port + target,
                ) {
                    None => result matches Err(error) && error.kind
                        == WebSocketErrorKind::InvalidUri,
                    Some(uri) => result == placed(uri, found),
                },
            }
        }),
{
    let authority = host + port;
    let text = scheme + "://"@ + host + port + target;
    assert(text =~= scheme + "://"@ + authority + target);
    reveal_strlit("://");
    assert forall|i: int| 0 <= i < text.len() implies text[i] != '#' by {
        let a = scheme.len() as int;
        let b = a + 3;
        let c = b + host.len();
        let d = c + port.len();
        if i < a {
            assert(text[i] == scheme[i] && scheme.contains(scheme[i]));
        } else if b <= i < c {
            assert(text[i] == host[i - b] && host.contains(host[i - b]));
        } else if c <= i < d {
            assert(text[i] == port[i - c] && port.contains(port[i - c]));
        } else if d <= i {
            assert(text[i] == target[i - d] && target.contains(target[i - d]));
        } else {
            assert(text[i] == "://"@[i - a]);
        }
    }
    assert forall|i: int| 0 <= i < authority.len() implies authority[i] != '/' && authority[i]
        != '?' && authority[i] != '@' by {
        if i < host.len() {
            assert(host.contains(host[i]));
        } else {
            assert(port.contains(port[i - host.len()]));
        }
    }
    lemma_pieces(scheme, authority, target);
    lemma_port(host, port);
}

/// What no WebSocket URI has: a fragment, user information, an empty
/// authority, or no scheme at all. Each is refused, a fragment first.
pub proof fn a_websocket_uri_has_no_fragment_and_no_user(
    text: Seq<char>,
    scheme: Seq<char>,
    authority: Seq<char>,
    target: Seq<char>,
)
    requires
        !scheme.contains(':'),
        has_none(authority, '/', '?'),
        target.len() > 0 ==> target[0] == '/' || target[0] == '?',
    ensures
        text.contains('#') ==> (resolution(text) matches Err(error) && error.kind
            == WebSocketErrorKind::InvalidRequest),
        !text.contains('#') && (forall|i: int| !#[trigger] scheme_ends(text, i)) ==> (resolution(
            text,
        ) matches Err(error) && error.kind == WebSocketErrorKind::InvalidUri),
        ({
            let whole = scheme + "://"@ + authority + target;
            !whole.contains('#') ==> {
                &&& authority.len() == 0 ==> (resolution(whole) matches Err(error) && error.kind
                    == WebSocketErrorKind::InvalidUri)
                &&& authority.contains('@') ==> (resolution(whole) matches Err(error) && error.kind
                    == WebSocketErrorKind::InvalidAuthority)
            }
        }),
{
    lemma_pieces(scheme, authority, target);
}

/// A scheme ends at the first colon with two slashes behind it.
pub proof fn a_scheme_ends_before_two_slashes(text: Seq<char>, i: int)
    ensures
        scheme_ends(text, i) == (0 <= i && i + 3 <= text.len() && text.subrange(i, i + 3)
            == seq![':', '/', '/']),
{
    if 0 <= i && i + 3 <= text.len() {
        let part = text.subrange(i, i + 3);
        assert(part[0] == text[i] && part[1] == text[i + 1] && part[2] == text[i + 2]);
        if scheme_ends(text, i) {
            assert(part =~= seq![':', '/', '/']);
        }
    }
}

/// Whether an entry is a free place for a name.
pub open spec fn place_for(entry: OpeningView, name: Seq<char>) -> bool {
    entry matches OpeningView::CallerField(slot) && same_letters(slot, name)
}

/// A field goes into the first free place with its name in any case, under
/// the place's spelling, and behind the others where there is none. Its value
/// and marking are its own, and no other entry changes.
pub proof fn a_field_takes_the_first_free_place(
    headers: Seq<OpeningView>,
    field: FieldView,
    i: int,
)
    ensures
        0 <= i < headers.len() && place_for(headers[i], field.header.name) && (forall|j: int|
            0 <= j < i ==> !place_for(#[trigger] headers[j], field.header.name)) ==> filled(
            headers,
            field,
        ) == headers.update(
            i,
            OpeningView::Field(
                FieldView {
                    header: HeaderView {
                        name: headers[i]->CallerField_0,
                        value: field.header.value,
                    },
                    sensitive: field.sensitive,
                },
            ),
        ),
        (forall|j: int|
            0 <= j < headers.len() ==> !place_for(#[trigger] headers[j], field.header.name))
            ==> filled(headers, field) == headers.push(OpeningView::Field(field)),
{
    let name = field.header.name;
    assert forall|j: int| 0 <= j < headers.len() implies is_slot(#[trigger] headers[j], name)
        == place_for(headers[j], name) by {
        match headers[j] {
            OpeningView::CallerField(slot) => {
                lower_case_ignores_ascii_case_alone(slot, name);
            },
            _ => {},
        }
    }
    if 0 <= i < headers.len() && place_for(headers[i], name) && (forall|j: int|
        0 <= j < i ==> !place_for(#[trigger] headers[j], name)) {
        assert(first_slot(headers, name, i));
        assert forall|k: int| first_slot(headers, name, k) implies k == i by {
            if k < i {
                assert(!place_for(headers[k], name));
            } else if i < k {
                assert(!is_slot(headers[i], name));
            }
        }
    }
    if forall|j: int| 0 <= j < headers.len() ==> !place_for(#[trigger] headers[j], name) {
        assert forall|k: int| !first_slot(headers, name, k) by {
            if first_slot(headers, name, k) {
                assert(!place_for(headers[k], name));
            }
        }
    }
}

/// Whether an entry is a field with a name in any case.
pub open spec fn field_named(entry: OpeningView, name: Seq<char>) -> bool {
    match entry {
        OpeningView::Field(field) => same_letters(field.header.name, name),
        OpeningView::DefaultField(field) => same_letters(field.header.name, name),
        _ => false,
    }
}

/// The field of a name is the first with it, in any case, from the caller or
/// the profile; places and managed entries are none.
pub proof fn the_first_field_with_a_name_counts(headers: Seq<OpeningView>, name: Seq<char>, i: int)
    ensures
        0 <= i < headers.len() && field_named(headers[i], name) && (forall|j: int|
            0 <= j < i ==> !field_named(#[trigger] headers[j], name)) ==> (match headers[i] {
            OpeningView::Field(field) => opening_field(headers, name) == Some(field),
            OpeningView::DefaultField(field) => opening_field(headers, name) == Some(field),
            _ => false,
        }),
        (forall|j: int| 0 <= j < headers.len() ==> !field_named(#[trigger] headers[j], name))
            ==> opening_field(headers, name) is None,
{
    assert forall|j: int| 0 <= j < headers.len() implies carries(#[trigger] headers[j], name)
        == field_named(headers[j], name) by {
        match headers[j] {
            OpeningView::Field(field) => {
                lower_case_ignores_ascii_case_alone(field.header.name, name);
            },
            OpeningView::DefaultField(field) => {
                lower_case_ignores_ascii_case_alone(field.header.name, name);
            },
            _ => {},
        }
    }
    if 0 <= i < headers.len() && field_named(headers[i], name) && (forall|j: int|
        0 <= j < i ==> !field_named(#[trigger] headers[j], name)) {
        assert(first_carrying(headers, name, i));
        assert forall|k: int| first_carrying(headers, name, k) implies k == i by {
            if k < i {
                assert(!field_named(headers[k], name));
            } else if i < k {
                assert(!carries(headers[i], name));
            }
        }
    }
    if forall|j: int| 0 <= j < headers.len() ==> !field_named(#[trigger] headers[j], name) {
        assert forall|k: int| !first_carrying(headers, name, k) by {
            if first_carrying(headers, name, k) {
                assert(!field_named(headers[k], name));
            }
        }
    }
}

/// A field that was added is found under its name in any case, unless a field
/// with that name stood there before.
pub proof fn an_added_field_is_found(headers: Seq<OpeningView>, field: FieldView)
    requires
        forall|j: int|
            0 <= j < headers.len() ==> !field_named(#[trigger] headers[j], field.header.name),
    ensures
        opening_field(filled(headers, field), field.header.name) matches Some(found)
            && found.header.value == field.header.value && found.sensitive == field.sensitive,
{
    let name = field.header.name;
    let after = filled(headers, field);
    lower_case_ignores_ascii_case_alone(name, name);
    assert(same_letters(name, name));
    if exists|i: int| 0 <= i < headers.len() && place_for(#[trigger] headers[i], name) {
        let i = lemma_first_place(headers, name);
        a_field_takes_the_first_free_place(headers, field, i);
        assert forall|j: int| 0 <= j < i implies !field_named(#[trigger] after[j], name) by {
            assert(after[j] == headers[j]);
        }
        assert(field_named(after[i], name));
        the_first_field_with_a_name_counts(after, name, i);
    } else {
        a_field_takes_the_first_free_place(headers, field, 0);
        let i = headers.len() as int;
        assert forall|j: int| 0 <= j < i implies !field_named(#[trigger] after[j], name) by {
            assert(after[j] == headers[j]);
        }
        the_first_field_with_a_name_counts(after, name, i);
    }
}

proof fn lemma_first_place(headers: Seq<OpeningView>, name: Seq<char>) -> (i: int)
    requires
        exists|i: int| 0 <= i < headers.len() && place_for(#[trigger] headers[i], name),
    ensures
        0 <= i < headers.len(),
        place_for(headers[i], name),
        forall|j: int| 0 <= j < i ==> !place_for(#[trigger] headers[j], name),
    decreases headers.len(),
{
    let front = headers.drop_last();
    if exists|i: int| 0 <= i < front.len() && place_for(#[trigger] front[i], name) {
        let i = lemma_first_place(front, name);
        assert(front[i] == headers[i]);
        assert forall|j: int| 0 <= j < i implies !place_for(#[trigger] headers[j], name) by {
            assert(front[j] == headers[j]);
        }
        i
    } else {
        let k = choose|k: int| 0 <= k < headers.len() && place_for(#[trigger] headers[k], name);
        if k < front.len() {
            assert(front[k] == headers[k]);
        }
        assert forall|j: int| 0 <= j < headers.len() - 1 implies !place_for(
            #[trigger] headers[j],
            name,
        ) by {
            assert(front[j] == headers[j]);
        }
        headers.len() - 1
    }
}

/// A field that a caller adds goes into the sequence of the exact protocol
/// alone, and under a profile's policy into both, with an HTTP/2 name in
/// lower case.
pub proof fn an_added_field_reaches_every_sequence(
    builder: WebSocketRequestBuilder,
    field: FieldView,
)
    ensures
        ({
            let (http1, http2) = with_field(builder, field);
            &&& http1 == filled(opening_view(builder.headers@), field)
            &&& builder.selection is Exact ==> http2 == opening_view(builder.http2_headers@)
            &&& builder.selection is ProfilePolicy ==> exists|lower: FieldView|
                http2 == #[trigger] filled(opening_view(builder.http2_headers@), lower)
                    && same_letters(lower.header.name, field.header.name) && lower.header.value
                    == field.header.value && lower.sensitive == field.sensitive && forall|i: int|
                    0 <= i < lower.header.name.len() ==> !('A' <= #[trigger] lower.header.name[i]
                        <= 'Z')
        }),
{
    let (_, http2) = with_field(builder, field);
    lower_case_ignores_ascii_case_alone(field.header.name, field.header.name);
    lower_case_ignores_ascii_case_alone(lowercase(field.header.name), field.header.name);
    let lower = FieldView {
        header: HeaderView { name: lowercase(field.header.name), value: field.header.value },
        sensitive: field.sensitive,
    };
    assert(lowercase(lowercase(field.header.name)) =~= lowercase(field.header.name));
    if builder.selection is ProfilePolicy {
        assert(http2 == filled(opening_view(builder.http2_headers@), lower));
    }
}

/// A profile opens a WebSocket over the protocols that it has, never over
/// HTTP/3, with the fields that it has for that protocol and for how far the
/// URL can be trusted, and with its own timeout.
pub proof fn a_builder_has_what_its_profile_says(
    support: WebSocketSupport,
    protocol: HttpProtocol,
    uri: Seq<char>,
)
    ensures
        match support.exact(protocol, uri) {
            Ok(start) => {
                &&& protocol == HttpProtocol::Http1 && support.http1 || protocol
                    == HttpProtocol::Http2 && support.http2
                &&& start.selection == WebSocketSelection::Exact(protocol)
                &&& resolution(uri) == Ok::<ResolvedView, WebSocketErrorView>(start.request)
                &&& start.http2_headers.len() == 0
                &&& match support.settings {
                    Some(settings) => {
                        let recipe = if protocol == HttpProtocol::Http1 {
                            settings.http1_fields
                        } else {
                            settings.http2_fields
                        };
                        &&& start.request.trustworthy ==> start.headers == opening_view(
                            recipe.trustworthy@,
                        )
                        &&& !start.request.trustworthy ==> start.headers == opening_view(
                            recipe.other@,
                        )
                        &&& start.handshake_timeout == settings.handshake_timeout
                        &&& start.policy == Some(settings.connection)
                    },
                    None => {
                        &&& protocol == HttpProtocol::Http1 ==> start.headers == opening_view(
                            support.default_headers@,
                        )
                        &&& protocol == HttpProtocol::Http2 ==> start.headers == opening_view(
                            support.default_http2_headers@,
                        )
                        &&& start.handshake_timeout is None
                        &&& start.policy is None
                    },
                }
            },
            Err(error) => if protocol == HttpProtocol::Http1 && support.http1 || protocol
                == HttpProtocol::Http2 && support.http2 {
                resolution(uri) == Err::<ResolvedView, WebSocketErrorView>(error)
            } else {
                error.kind == WebSocketErrorKind::ProtocolUnavailable && error.protocol == Some(
                    protocol,
                )
            },
        },
        match (support.by_policy(uri), support.settings) {
            (Ok(start), Some(settings)) => {
                &&& start.selection == WebSocketSelection::ProfilePolicy
                &&& resolution(uri) == Ok::<ResolvedView, WebSocketErrorView>(start.request)
                &&& start.request.trustworthy ==> start.headers == opening_view(
                    settings.http1_fields.trustworthy@,
                ) && start.http2_headers == opening_view(settings.http2_fields.trustworthy@)
                &&& !start.request.trustworthy ==> start.headers == opening_view(
                    settings.http1_fields.other@,
                ) && start.http2_headers == opening_view(settings.http2_fields.other@)
                &&& start.handshake_timeout == settings.handshake_timeout
                &&& start.policy == Some(settings.connection)
            },
            (Ok(_), None) => false,
            (Err(error), Some(_)) => resolution(uri) == Err::<ResolvedView, WebSocketErrorView>(
                error,
            ),
            (Err(error), None) => error.kind == WebSocketErrorKind::ProtocolUnavailable,
        },
{
}

/// A handshake timeout is positive and within the clock; none is no limit.
pub proof fn a_handshake_timeout_is_positive(timeout: Option<Duration>, now: Instant)
    ensures
        match (timeout, timeout_refusal(timeout, now)) {
            (None, refusal) => refusal is None,
            (Some(length), None) => 0 < length.nanos && now.nanos + length.nanos
                <= 9_223_372_036_854_775_807_999_999_999,
            (Some(length), Some(error)) => {
                &&& error.kind == WebSocketErrorKind::InvalidRequest
                &&& length.nanos == 0 ==> error.source is None
                &&& length.nanos > 0 ==> now.nanos + length.nanos
                    > 9_223_372_036_854_775_807_999_999_999 && (error.source matches Some(source)
                    && source.kind == RequestErrorKind::InvalidTimeout)
            },
        },
{
}

/// A handshake that takes too long fails as a timeout of its own phase, with
/// the protocol where exactly one was asked for.
pub proof fn a_late_handshake_times_out(selection: WebSocketSelection)
    ensures
        ({
            let error = handshake_timed_out(selection);
            &&& error.kind == WebSocketErrorKind::Timeout
            &&& error.source matches Some(source) && source.kind == RequestErrorKind::Timeout
                && source.phase == Some(TimeoutPhase::WebSocketHandshake) && match selection {
                WebSocketSelection::Exact(protocol) => source.protocol == Some(protocol),
                WebSocketSelection::ProfilePolicy => source.protocol is None,
            }
        }),
{
}

/// An exact protocol opens as it says: HTTP/1.1 by an upgrade of an ordinary
/// connection, HTTP/2 by an extended CONNECT on a new one, HTTP/3 not at all.
/// A profile's policy upgrades plaintext and asks the pool first otherwise;
/// it needs a policy, its own fields and templates that can be sent.
pub proof fn an_opening_takes_the_protocol_it_was_asked_for(
    builder: WebSocketRequestBuilder,
    templates: Option<WebSocketErrorView>,
)
    ensures
        match (builder.selection, first_step(builder, templates)) {
            (WebSocketSelection::Exact(HttpProtocol::Http1), step) => step == Ok::<
                Opening,
                WebSocketErrorView,
            >(Opening::Http1(Http1UpgradeConnector::Profile)),
            (WebSocketSelection::Exact(HttpProtocol::Http2), step) => step == Ok::<
                Opening,
                WebSocketErrorView,
            >(Opening::Http2),
            (WebSocketSelection::Exact(HttpProtocol::Http3), step) => step matches Err(error)
                && error.kind == WebSocketErrorKind::ProtocolUnavailable,
            (WebSocketSelection::ProfilePolicy, Ok(step)) => {
                &&& !builder.replaced_policy_headers
                &&& builder.policy is Some
                &&& templates is None
                &&& builder.request.transport == WebSocketTransport::Plaintext ==> step
                    == Opening::Http1(Http1UpgradeConnector::PolicyAlpn)
                &&& builder.request.transport == WebSocketTransport::Tls ==> step == Opening::Admit
            },
            (WebSocketSelection::ProfilePolicy, Err(error)) => {
                &&& builder.replaced_policy_headers ==> error.kind
                    == WebSocketErrorKind::InvalidRequest
                &&& !builder.replaced_policy_headers && builder.policy is None ==> error.kind
                    == WebSocketErrorKind::ProtocolUnavailable
                &&& !builder.replaced_policy_headers && builder.policy is Some ==> templates
                    == Some(error)
            },
        },
{
}

/// Whether a step is what a policy's choice of a new connection means.
pub open spec fn is_new_connection(step: Opening, choice: WebSocketNewConnection) -> bool {
    match choice {
        WebSocketNewConnection::Http1Upgrade => step == Opening::Http1(
            Http1UpgradeConnector::PolicyAlpn,
        ),
        WebSocketNewConnection::Http2ExtendedConnect => step == Opening::Http2,
    }
}

/// A pooled session whose peer takes extended CONNECT carries the WebSocket;
/// a peer that does not, and no usable session, each have the new connection
/// that the policy names for them.
pub proof fn a_policy_chooses_by_the_pooled_session(
    policy: WebSocketConnectionPolicy,
    session: PooledSession,
)
    ensures
        match session {
            PooledSession::Capable => admitted(policy, session) == Opening::Http2Session(
                policy.refused_stream_retry,
            ),
            PooledSession::Incapable => is_new_connection(
                admitted(policy, session),
                policy.with_incapable_http2_session,
            ),
            PooledSession::Missing | PooledSession::Failed => is_new_connection(
                admitted(policy, session),
                policy.without_http2_session,
            ),
        },
{
}

/// Under a profile's policy a step sends the fields of its own protocol; an
/// exact protocol has one sequence.
pub proof fn a_step_sends_the_fields_of_its_protocol(
    builder: WebSocketRequestBuilder,
    connector: Http1UpgradeConnector,
    session: PooledSession,
    policy: WebSocketConnectionPolicy,
)
    ensures
        step_fields(builder, Opening::Http1(connector)) == builder.headers,
        builder.selection is Exact ==> step_fields(builder, Opening::Http2) == builder.headers,
        builder.selection is ProfilePolicy ==> step_fields(builder, Opening::Http2)
            == builder.http2_headers && step_fields(
            builder,
            Opening::Http2Session(policy.refused_stream_retry),
        ) == builder.http2_headers,
{
}

/// Each method of a builder makes the setting that it is named after, and no
/// other. Replaced fields under a policy are remembered as such.
pub proof fn each_websocket_setting_is_made_by_its_own_method(
    builder: WebSocketRequestBuilder,
    headers: Vec<WebSocketHeader>,
    route: Route,
    limit: Option<Duration>,
    retries: WebSocketRetryPolicy,
)
    ensures
        builder.with_headers(headers) == (WebSocketRequestBuilder {
            headers,
            replaced_policy_headers: builder.selection == WebSocketSelection::ProfilePolicy,
            ..builder
        }),
        builder.with_route(route) == (WebSocketRequestBuilder { route: Some(route), ..builder }),
        builder.with_handshake_timeout(limit) == (WebSocketRequestBuilder {
            handshake_timeout: limit,
            ..builder
        }),
        builder.with_retry_policy(retries) == (WebSocketRequestBuilder {
            retry_policy: retries,
            ..builder
        }),
{
}

/// A builder takes its selection, request, opening fields, deadline and
/// policy from what it starts with, has neither a route nor retries, and
/// fails with the refusal where there is one.
pub proof fn a_builder_has_what_it_starts_with(
    r: Result<WebSocketRequestBuilder, WebSocketError>,
    start: StartView,
    refusal: WebSocketErrorView,
)
    ensures
        built(r, Ok(start)) ==> r is Ok && ({
            let builder = r->Ok_0;
            &&& builder.selection == start.selection
            &&& builder.request@ == start.request
            &&& opening_view(builder.headers@) == start.headers
            &&& opening_view(builder.http2_headers@) == start.http2_headers
            &&& builder.handshake_timeout == start.handshake_timeout
            &&& builder.policy == start.policy
            &&& !builder.replaced_policy_headers
            &&& builder.route is None
            &&& builder.retry_policy.max_connection_failures is None
        }),
        built(r, Err(refusal)) ==> r is Err && r->Err_0@ == refusal,
{
}

} // verus!
