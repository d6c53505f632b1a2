//! Hosts of URLs: domains and IP addresses.

use vstd::prelude::*;
use crate::text::{decimal, from_chars, has_suffix, push_char, push_decimal, same_text, to_chars};

verus! {

/// A host as URLs name it.
#[derive(Debug)]
pub enum Host {
    Domain(String),
    /// The address as a big-endian number.
    Ipv4(u32),
    /// The address as a big-endian number.
    Ipv6(u128),
}

/// What a [`Host`] holds.
pub enum HostView {
    Domain(Seq<char>),
    Ipv4(u32),
    Ipv6(u128),
}

impl View for Host {
    type V = HostView;

    open spec fn view(&self) -> HostView {
        match self {
            Host::Domain(domain) => HostView::Domain(domain@),
            Host::Ipv4(bits) => HostView::Ipv4(*bits),
            Host::Ipv6(bits) => HostView::Ipv6(*bits),
        }
    }
}

/// What `url::Host::parse` makes of a text: the canonical host, or nothing
/// when the text names none.
pub uninterp spec fn url_host(text: Seq<char>) -> Option<HostView>;

/// The text that the standard library gives an IPv6 address.
pub uninterp spec fn ipv6_text(bits: u128) -> Seq<char>;

/// The dotted text of an IPv4 address.
pub open spec fn ipv4_text(bits: u32) -> Seq<char> {
    decimal((bits / 0x100_0000) as nat).push('.') + decimal(((bits / 0x1_0000) % 256) as nat).push(
        '.',
    ) + decimal(((bits / 0x100) % 256) as nat).push('.') + decimal((bits % 256) as nat)
}

/// `text` between square brackets.
pub open spec fn bracketed(text: Seq<char>) -> Seq<char> {
    seq!['['] + text + seq![']']
}

/// The IPv6 address that `text` is, if it is one.
pub open spec fn ipv6_literal(text: Seq<char>) -> Option<u128> {
    match url_host(bracketed(text)) {
        Some(HostView::Ipv6(bits)) => Some(bits),
        _ => None,
    }
}

/// Calls `url::Host::parse`, whose result depends on the text alone. Only a
/// text that starts with a bracket gives an IPv6 address.
#[verifier::external_body]
pub(crate) fn parse_host(text: &str) -> (r: Option<Host>)
    ensures
        (match r {
            Some(host) => Some(host@),
            None => None,
        }) == url_host(text@),
        r matches Some(Host::Ipv6(_)) ==> text@.len() > 0 && text@[0] == '[',
{
    match url::Host::parse(text) {
        Ok(url::Host::Domain(domain)) => Some(Host::Domain(domain)),
        Ok(url::Host::Ipv4(address)) => Some(Host::Ipv4(address.into())),
        Ok(url::Host::Ipv6(address)) => Some(Host::Ipv6(address.into())),
        Err(_) => None,
    }
}

/// Formats the IPv6 address that `url::Host` carries for `bits`, with the
/// standard library's `Display` of addresses; the text depends on the
/// address alone.
#[verifier::external_body]
pub(crate) fn format_ipv6(bits: u128) -> (r: String)
    ensures
        r@ == ipv6_text(bits),
{
    match url::Host::<String>::Ipv6(bits.into()) {
        url::Host::Ipv6(address) => address.to_string(),
        other => other.to_string(),
    }
}

/// Returns `text` between square brackets.
pub fn in_brackets(text: &str) -> (r: String)
    ensures
        r@ == bracketed(text@),
{
    let mut out = String::new();
    push_char(&mut out, '[');
    out.append(text);
    push_char(&mut out, ']');
    assert(out@ =~= bracketed(text@));
    out
}

/// Parses an IPv6 address without brackets.
pub fn parse_ipv6(text: &str) -> (r: Option<u128>)
    ensures
        r == ipv6_literal(text@),
{
    let quoted = in_brackets(text);
    match parse_host(quoted.as_str()) {
        Some(Host::Ipv6(bits)) => Some(bits),
        _ => None,
    }
}

/// Formats an IPv4 address.
pub fn format_ipv4(bits: u32) -> (r: String)
    ensures
        r@ == ipv4_text(bits),
{
    let mut out = String::new();
    push_decimal(&mut out, (bits / 0x100_0000) as u64);
    push_char(&mut out, '.');
    push_decimal(&mut out, ((bits / 0x1_0000) % 256) as u64);
    push_char(&mut out, '.');
    push_decimal(&mut out, ((bits / 0x100) % 256) as u64);
    push_char(&mut out, '.');
    push_decimal(&mut out, (bits % 256) as u64);
    assert(out@ =~= ipv4_text(bits));
    out
}

/// A parsed URL, as far as sessions read it.
#[derive(Debug)]
pub struct Url {
    /// The text that was parsed.
    pub text: String,
    pub scheme: String,
    pub host: Option<Host>,
    /// The host as it stands in the URL.
    pub host_text: Option<String>,
    /// The explicit port, or the default one of the scheme.
    pub port: Option<u16>,
    pub path: String,
}

/// What a [`Url`] holds.
pub struct UrlView {
    pub text: Seq<char>,
    pub scheme: Seq<char>,
    pub host: Option<HostView>,
    pub host_text: Option<Seq<char>>,
    pub port: Option<u16>,
    pub path: Seq<char>,
}

/// What an optional host holds.
pub open spec fn host_view(host: Option<Host>) -> Option<HostView> {
    match host {
        Some(host) => Some(host@),
        None => None,
    }
}

/// What an optional text holds.
pub open spec fn text_view(text: Option<String>) -> Option<Seq<char>> {
    match text {
        Some(text) => Some(text@),
        None => None,
    }
}

impl View for Url {
    type V = UrlView;

    open spec fn view(&self) -> UrlView {
        UrlView {
            text: self.text@,
            scheme: self.scheme@,
            host: host_view(self.host),
            host_text: text_view(self.host_text),
            port: self.port,
            path: self.path@,
        }
    }
}

/// What `url::Url::parse` makes of a text: the text and the parts of the URL,
/// or nothing when the text is none.
pub uninterp spec fn url_parts(text: Seq<char>) -> Option<UrlView>;

impl Url {
    /// The parts are those of the text.
    pub open spec fn wf(self) -> bool {
        url_parts(self.text@) == Some(self@)
    }
}

/// Calls `url::Url::parse`, whose result depends on the text alone, and reads
/// the parts of the URL beside the text itself.
#[verifier::external_body]
pub(crate) fn parse_url(text: &str) -> (r: Option<Url>)
    ensures
        (match r {
            Some(url) => Some(url@),
            None => None,
        }) == url_parts(text@),
        r matches Some(url) ==> url.text@ == text@,
{
    let url = url::Url::parse(text).ok()?;
    Some(Url {
        text: text.to_owned(),
        scheme: url.scheme().to_owned(),
        host: url.host().map(|host| match host {
            url::Host::Domain(domain) => Host::Domain(domain.to_owned()),
            url::Host::Ipv4(address) => Host::Ipv4(address.into()),
            url::Host::Ipv6(address) => Host::Ipv6(address.into()),
        }),
        host_text: url.host_str().map(|host| host.to_owned()),
        port: url.port_or_known_default(),
        path: url.path().to_owned(),
    })
}

impl Url {
    /// Parses a URL; `None` when the text is none.
    pub fn parse(text: &str) -> (r: Option<Url>)
        ensures
            (match r {
                Some(url) => Some(url@),
                None => None,
            }) == url_parts(text@),
            r matches Some(url) ==> url.wf() && url.text@ == text@,
    {
        parse_url(text)
    }
}

/// A name without the dot that ends it.
pub open spec fn undotted(name: Seq<char>) -> Seq<char> {
    if name.len() > 0 && name.last() == '.' {
        name.drop_last()
    } else {
        name
    }
}

/// Whether a host is on this machine, so that what it says can be trusted
/// without TLS: a loopback address, `localhost`, or a name under it.
pub open spec fn trustworthy_host(host: HostView) -> bool {
    match host {
        HostView::Domain(name) => undotted(name) == "localhost"@ || ".localhost"@.is_suffix_of(
            undotted(name),
        ),
        HostView::Ipv4(bits) => bits / 0x100_0000 == 127,
        HostView::Ipv6(bits) => bits == 1,
    }
}

/// Returns whether a host is on this machine.
pub fn is_potentially_trustworthy_host(host: &Host) -> (r: bool)
    ensures
        r == trustworthy_host(host@),
{
    match host {
        Host::Domain(name) => {
            let chars = to_chars(name.as_str());
            let n: usize = chars.len();
            let bare = if n > 0 && chars[n - 1] == '.' {
                from_chars(&chars, 0, n - 1)
            } else {
                name.clone()
            };
            assert(bare@ =~= undotted(name@));
            let bare_chars = to_chars(bare.as_str());
            let under = to_chars(".localhost");
            same_text(bare.as_str(), "localhost") || has_suffix(
                &bare_chars,
                &under,
            )
        },
        Host::Ipv4(bits) => *bits / 0x100_0000 == 127,
        Host::Ipv6(bits) => *bits == 1,
    }
}

/// The host and the explicit port of an authority.
pub struct AuthorityView {
    pub host: Seq<char>,
    pub port: Option<u16>,
}

/// What `http::uri::Authority` makes of a text: the host as it stands there
/// and the port, or nothing when the text is no authority.
pub uninterp spec fn http_authority(text: Seq<char>) -> Option<AuthorityView>;

/// Parses `text` as an `http::uri::Authority`, whose result depends on the
/// text alone, and reads its host and port.
#[verifier::external_body]
pub(crate) fn parse_authority(text: &str) -> (r: Option<(String, Option<u16>)>)
    ensures
        (match r {
            Some(found) => Some(AuthorityView { host: found.0@, port: found.1 }),
            None => None,
        }) == http_authority(text@),
{
    let authority = text.parse::<http::uri::Authority>().ok()?;
    Some((authority.host().to_owned(), authority.port_u16()))
}

/// The parts of a URI that a request reads.
#[derive(Debug)]
pub struct UriParts {
    pub scheme: Option<String>,
    pub authority: Option<String>,
    /// The path and the query, as they stand.
    pub target: Option<String>,
}

/// What [`UriParts`] hold.
pub struct UriView {
    pub scheme: Option<Seq<char>>,
    pub authority: Option<Seq<char>>,
    pub target: Option<Seq<char>>,
}

impl View for UriParts {
    type V = UriView;

    open spec fn view(&self) -> UriView {
        UriView {
            scheme: text_view(self.scheme),
            authority: text_view(self.authority),
            target: text_view(self.target),
        }
    }
}

/// What `http::Uri` makes of a text: its parts as they stand there, or
/// nothing when the text is no URI.
pub uninterp spec fn http_uri(text: Seq<char>) -> Option<UriView>;

/// Whether a text holds no space and no ASCII control character.
pub open spec fn unbroken(text: Seq<char>) -> bool {
    forall|i: int| 0 <= i < text.len() ==> #[trigger] text[i] > ' ' && text[i] != '\u{7f}'
}

/// Parses `text` as an `http::Uri`, whose result depends on the text alone,
/// and reads its scheme, its authority, and its path and query. The path and
/// query hold no space and no ASCII control character.
#[verifier::external_body]
pub(crate) fn parse_uri(text: &str) -> (r: Option<UriParts>)
    ensures
        (match r {
            Some(uri) => Some(uri@),
            None => None,
        }) == http_uri(text@),
        r matches Some(uri) ==> (uri.target matches Some(target) ==> unbroken(target@)),
{
    let uri = text.parse::<http::Uri>().ok()?;
    Some(UriParts {
        scheme: uri.scheme_str().map(|scheme| scheme.to_owned()),
        authority: uri.authority().map(|authority| authority.as_str().to_owned()),
        target: uri.path_and_query().map(|target| target.as_str().to_owned()),
    })
}

/// The text of a host in a URI.
pub open spec fn host_in_uri(host: HostView) -> Seq<char> {
    match host {
        HostView::Domain(name) => name,
        HostView::Ipv4(bits) => ipv4_text(bits),
        HostView::Ipv6(bits) => bracketed(ipv6_text(bits)),
    }
}

/// Returns the text of a host in a URI.
pub fn format_host(host: &Host) -> (r: String)
    ensures
        r@ == host_in_uri(host@),
{
    match host {
        Host::Domain(name) => name.clone(),
        Host::Ipv4(bits) => format_ipv4(*bits),
        Host::Ipv6(bits) => {
            let address = format_ipv6(*bits);
            in_brackets(address.as_str())
        },
    }
}

/// A host without the brackets of an IPv6 literal.
pub open spec fn unbracketed(host: Seq<char>) -> Seq<char> {
    if host.len() >= 2 && host[0] == '[' && host.last() == ']' {
        host.subrange(1, host.len() - 1)
    } else {
        host
    }
}

/// Returns `host` without the brackets of an IPv6 literal.
pub fn strip_brackets(host: &String) -> (r: String)
    ensures
        r@ == unbracketed(host@),
{
    let chars = to_chars(host.as_str());
    let n: usize = chars.len();
    if n >= 2 && chars[0] == '[' && chars[n - 1] == ']' {
        from_chars(&chars, 1, n - 1)
    } else {
        host.clone()
    }
}

} // verus!
