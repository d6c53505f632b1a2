//! Which cookies a URL may set, and which requests they go with.

use vstd::prelude::*;
use vstd::utf8::encode_utf8;
use crate::cookies::outside::{
    is_whole_suffix, parse_raw, raw_cookie, registrable, registrable_domain, resolve,
    resolved_cookie, whole_public_suffix, RawCookie, RawView, ResolvedView,
};
use crate::cookies::types::{
    parse_same_site, same_site_named, CookieError, CookieErrorKind, CookieErrorView, CookieLimits,
    CookieSameSite, CookieSourceScheme,
};
use crate::host::{
    is_potentially_trustworthy_host, parse_host, parse_url, text_view, trustworthy_host, url_host,
    url_parts, Host, HostView, Url, UrlView,
};
use crate::lru::Key;
use crate::text::{from_chars, has_prefix, has_suffix, lowercase, same_text, to_chars, to_lowercase};
use crate::time::{SystemTime, NANOS_PER_SEC};

verus! {

/// The latest expiry a cookie keeps, in nanoseconds from the start of 1970:
/// the end of the year 9999.
pub const MAX_EXPIRY_NANOS: i128 = 253_402_300_799_000_000_000;

/// What tells one cookie from another.
#[derive(Debug)]
pub struct CookieKey {
    pub domain: String,
    pub path: String,
    pub name: String,
    pub host_only: bool,
    pub partitioned: bool,
}

/// What a [`CookieKey`] holds.
pub struct CookieKeyView {
    pub domain: Seq<char>,
    pub path: Seq<char>,
    pub name: Seq<char>,
    pub host_only: bool,
    pub partitioned: bool,
}

impl View for CookieKey {
    type V = CookieKeyView;

    open spec fn view(&self) -> CookieKeyView {
        CookieKeyView {
            domain: self.domain@,
            path: self.path@,
            name: self.name@,
            host_only: self.host_only,
            partitioned: self.partitioned,
        }
    }
}

impl Key for CookieKey {
    fn same(&self, other: &Self) -> (r: bool) {
        self.domain == other.domain && self.path == other.path && self.name == other.name
            && self.host_only == other.host_only && self.partitioned == other.partitioned
    }
}

impl Clone for CookieKey {
    fn clone(&self) -> (r: Self)
        ensures
            r@ == self@,
    {
        CookieKey {
            domain: self.domain.clone(),
            path: self.path.clone(),
            name: self.name.clone(),
            host_only: self.host_only,
            partitioned: self.partitioned,
        }
    }
}

/// Whether a domain is an IP address.
pub open spec fn is_ip_address(domain: Seq<char>) -> bool {
    match url_host(domain) {
        Some(HostView::Ipv4(_)) => true,
        Some(HostView::Ipv6(_)) => true,
        _ => false,
    }
}

fn ip_address(domain: &str) -> (r: bool)
    ensures
        r == is_ip_address(domain@),
{
    match parse_host(domain) {
        Some(Host::Ipv4(_)) => true,
        Some(Host::Ipv6(_)) => true,
        _ => false,
    }
}

/// Whether a domain is a public suffix, including an unlisted top-level
/// label.
pub open spec fn is_public_suffix(domain: Seq<char>) -> bool {
    !is_ip_address(domain) && whole_public_suffix(domain)
}

/// Returns whether a domain is a public suffix.
pub fn public_suffix(domain: &String) -> (r: bool)
    ensures
        r == is_public_suffix(domain@),
{
    !ip_address(domain.as_str()) && is_whole_suffix(domain.as_str())
}

/// The registrable domain a cookie domain counts against, or the domain
/// itself for an IP address or a name without one.
pub open spec fn quota_domain(domain: Seq<char>) -> Seq<char> {
    if is_ip_address(domain) {
        domain
    } else {
        match registrable_domain(domain) {
            Some(registrable) => registrable,
            None => domain,
        }
    }
}

/// Returns the registrable domain a cookie domain counts against.
pub fn quota_domain_of(domain: &String) -> (r: String)
    ensures
        r@ == quota_domain(domain@),
{
    if ip_address(domain.as_str()) {
        return domain.clone();
    }
    match registrable(domain.as_str()) {
        Some(found) => found,
        None => domain.clone(),
    }
}

/// The host of a URL as it stands there, or nothing.
pub open spec fn host_or_empty(url: UrlView) -> Seq<char> {
    match url.host_text {
        Some(host) => host,
        None => Seq::empty(),
    }
}

fn host_text_of(url: &Url) -> (r: String)
    ensures
        r@ == host_or_empty(url@),
{
    match &url.host_text {
        Some(host) => host.clone(),
        None => String::new(),
    }
}

/// The schemeful site of a URL: the partition key of a `Partitioned` cookie
/// that a top-level request to it sets.
pub open spec fn schemeful_site(url: UrlView) -> Seq<char> {
    url.scheme + "://"@ + quota_domain(host_or_empty(url))
}

/// Returns the schemeful site of `url`.
pub fn schemeful_site_of(url: &Url) -> (r: String)
    ensures
        r@ == schemeful_site(url@),
{
    let mut site = url.scheme.clone();
    site.append("://");
    site.append(quota_domain_of(&host_text_of(url)).as_str());
    site
}

/// Whether a URL's origin can be trusted with `Secure` cookies.
pub open spec fn trustworthy(url: UrlView) -> bool {
    url.scheme == "https"@ || (url.host matches Some(host) && trustworthy_host(host))
}

/// Returns whether the origin of `url` can be trusted with `Secure` cookies.
pub fn is_trustworthy(url: &Url) -> (r: bool)
    ensures
        r == trustworthy(url@),
{
    if same_text(url.scheme.as_str(), "https") {
        return true;
    }
    match &url.host {
        Some(host) => is_potentially_trustworthy_host(host),
        None => false,
    }
}

/// Whether `name` is a name below `domain`.
pub open spec fn below(name: Seq<char>, domain: Seq<char>) -> bool {
    &&& domain.is_suffix_of(name)
    &&& name.len() > domain.len()
    &&& name[name.len() - domain.len() - 1] == '.'
}

fn is_below(name: &String, domain: &String) -> (r: bool)
    ensures
        r == below(name@, domain@),
{
    let chars = to_chars(name.as_str());
    let suffix = to_chars(domain.as_str());
    has_suffix(&chars, &suffix) && chars.len() > suffix.len() && chars[chars.len() - suffix.len()
        - 1] == '.'
}

/// Whether the host `candidate` is `domain` or a name below it.
pub open spec fn domain_matches(candidate: Seq<char>, domain: Seq<char>) -> bool {
    candidate == domain || (url_host(candidate) matches Some(HostView::Domain(_)) && below(
        candidate,
        domain,
    ))
}

fn is_domain_match(candidate: &String, domain: &String) -> (r: bool)
    ensures
        r == domain_matches(candidate@, domain@),
{
    if *candidate == *domain {
        return true;
    }
    match parse_host(candidate.as_str()) {
        Some(Host::Domain(_)) => is_below(candidate, domain),
        _ => false,
    }
}

/// Whether a request path is a cookie path or lies under it.
pub open spec fn path_matches(request: Seq<char>, cookie: Seq<char>) -> bool {
    request == cookie || (cookie.is_prefix_of(request) && ((cookie.len() > 0 && cookie.last() == '/')
        || (request.len() > cookie.len() && request[cookie.len() as int] == '/')))
}

/// Returns whether a request path is a cookie path or lies under it.
pub fn is_path_match(request: &String, cookie: &String) -> (r: bool)
    ensures
        r == path_matches(request@, cookie@),
{
    if *request == *cookie {
        return true;
    }
    let chars = to_chars(request.as_str());
    let prefix = to_chars(cookie.as_str());
    let n: usize = prefix.len();
    has_prefix(&chars, &prefix) && ((n > 0 && prefix[n - 1] == '/') || (chars.len() > n && chars[n]
        == '/'))
}

/// Whether a URL's host is a name, not an address.
pub open spec fn has_name(url: UrlView) -> bool {
    url.host matches Some(HostView::Domain(_))
}

/// Whether a cookie's domain takes in a URL's host: the exact host for a
/// host-only cookie, else also names below the domain. The root name alone
/// takes in nothing.
pub open spec fn domain_reaches(domain: Seq<char>, host_only: bool, url: UrlView) -> bool {
    &&& url.host_text matches Some(host) && (host == domain || (!host_only && has_name(url) && below(
        host,
        domain,
    )))
    &&& domain != "."@
}

/// Whether a cookie's domain, path and `Secure` attribute let it go with a
/// request to a URL.
pub open spec fn goes_with(key: CookieKeyView, secure: bool, url: UrlView) -> bool {
    &&& domain_reaches(key.domain, key.host_only, url)
    &&& path_matches(url.path, key.path)
    &&& secure ==> trustworthy(url)
}

/// Returns whether a cookie goes with a request to `url`.
pub fn cookie_goes_with(key: &CookieKey, secure: bool, url: &Url) -> (r: bool)
    ensures
        r == goes_with(key@, secure, url@),
{
    let reaches = match &url.host_text {
        Some(host) => *host == key.domain || (!key.host_only && (match &url.host {
            Some(Host::Domain(_)) => true,
            _ => false,
        }) && is_below(host, &key.domain)),
        None => false,
    };
    reaches && !same_text(key.domain.as_str(), ".") && is_path_match(&url.path, &key.path) && (
    !secure || is_trustworthy(url))
}

/// Whether `value` starts with `prefix`, in any ASCII case.
pub open spec fn has_ascii_prefix(value: Seq<char>, prefix: Seq<char>) -> bool {
    value.len() >= prefix.len() && lowercase(value.take(prefix.len() as int)) == lowercase(prefix)
}

fn starts_with_ignoring_case(value: &String, prefix: &str) -> (r: bool)
    ensures
        r == has_ascii_prefix(value@, prefix@),
{
    let chars = to_chars(value.as_str());
    let n: usize = prefix.unicode_len();
    if chars.len() < n {
        return false;
    }
    let head = from_chars(&chars, 0, n);
    assert(head@ =~= value@.take(n as int));
    to_lowercase(head.as_str()) == to_lowercase(prefix)
}

/// A refusal with its reason.
pub open spec fn refused(kind: CookieErrorKind, message: Seq<char>) -> Option<CookieErrorView> {
    Some(CookieErrorView { kind, message })
}

/// Why the attributes of a cookie are refused from an origin, if they are.
pub open spec fn policy_refusal(raw: RawView, trusted: bool) -> Option<CookieErrorView> {
    if has_ascii_prefix(raw.name, "__Secure-"@) && (!raw.secure || !trusted) {
        refused(
            CookieErrorKind::InvalidPrefix,
            "__Secure- cookies require Secure and an HTTPS origin"@,
        )
    } else if has_ascii_prefix(raw.name, "__Host-"@) && (!raw.secure || !trusted || raw.path != Some(
        "/"@,
    ) || raw.domain is Some) {
        refused(
            CookieErrorKind::InvalidPrefix,
            "__Host- cookies require Secure, Path=/, HTTPS, and no Domain"@,
        )
    } else if raw.secure && !trusted {
        refused(
            CookieErrorKind::UnsupportedPolicy,
            "Secure cookies require an HTTPS origin"@,
        )
    } else if same_site_named(raw.same_site) == Some(CookieSameSite::Unrestricted) && !raw.secure {
        refused(CookieErrorKind::UnsupportedPolicy, "SameSite=None cookies require Secure"@)
    } else if raw.partitioned && !raw.secure {
        refused(CookieErrorKind::UnsupportedPolicy, "Partitioned cookies require Secure"@)
    } else {
        None
    }
}

/// What an optional error holds.
pub open spec fn error_view(error: Option<CookieError>) -> Option<CookieErrorView> {
    match error {
        Some(error) => Some(error@),
        None => None,
    }
}

/// Returns why the attributes of a cookie are refused from `url`, if they
/// are.
pub fn validate_policy(raw: &RawCookie, url: &Url) -> (r: Option<CookieError>)
    ensures
        error_view(r) == policy_refusal(raw@, trustworthy(url@)),
{
    let trusted = is_trustworthy(url);
    if starts_with_ignoring_case(&raw.name, "__Secure-") && (!raw.secure || !trusted) {
        return Some(
            CookieError::new(
                CookieErrorKind::InvalidPrefix,
                "__Secure- cookies require Secure and an HTTPS origin",
            ),
        );
    }
    let root_path = match &raw.path {
        Some(path) => same_text(path.as_str(), "/"),
        None => false,
    };
    assert(root_path == (text_view(raw.path) == Some("/"@)));
    if starts_with_ignoring_case(&raw.name, "__Host-") && (!raw.secure || !trusted || !root_path
        || raw.domain.is_some()) {
        return Some(
            CookieError::new(
                CookieErrorKind::InvalidPrefix,
                "__Host- cookies require Secure, Path=/, HTTPS, and no Domain",
            ),
        );
    }
    if raw.secure && !trusted {
        return Some(
            CookieError::new(
                CookieErrorKind::UnsupportedPolicy,
                "Secure cookies require an HTTPS origin",
            ),
        );
    }
    let unrestricted = match parse_same_site(&raw.same_site) {
        Some(CookieSameSite::Unrestricted) => true,
        _ => false,
    };
    if unrestricted && !raw.secure {
        return Some(
            CookieError::new(
                CookieErrorKind::UnsupportedPolicy,
                "SameSite=None cookies require Secure",
            ),
        );
    }
    if raw.partitioned && !raw.secure {
        return Some(
            CookieError::new(
                CookieErrorKind::UnsupportedPolicy,
                "Partitioned cookies require Secure",
            ),
        );
    }
    None
}

/// The URL that a text names, if cookies apply to it.
pub open spec fn cookie_url(text: Seq<char>) -> Result<UrlView, CookieErrorView> {
    match url_parts(text) {
        None => Err(
            CookieErrorView { kind: CookieErrorKind::InvalidUrl, message: "invalid cookie URL"@ },
        ),
        Some(url) => if (url.scheme != "http"@ && url.scheme != "https"@) || url.host is None {
            Err(
                CookieErrorView {
                    kind: CookieErrorKind::InvalidUrl,
                    message: "cookie URL must use HTTP or HTTPS and include a host"@,
                },
            )
        } else {
            Ok(url)
        },
    }
}

/// Parses a URL that cookies apply to.
pub fn parse_cookie_url(text: &str) -> (r: Result<Url, CookieError>)
    ensures
        match cookie_url(text@) {
            Ok(url) => r matches Ok(found) && found@ == url && found.wf(),
            Err(error) => r matches Err(found) && found@ == error,
        },
{
    let url = match parse_url(text) {
        Some(url) => url,
        None => {
            return Err(CookieError::new(CookieErrorKind::InvalidUrl, "invalid cookie URL"));
        },
    };
    if (!same_text(url.scheme.as_str(), "http") && !same_text(url.scheme.as_str(), "https"))
        || url.host.is_none() {
        return Err(
            CookieError::new(
                CookieErrorKind::InvalidUrl,
                "cookie URL must use HTTP or HTTPS and include a host",
            ),
        );
    }
    Ok(url)
}

/// When a cookie set at `now` expires, in nanoseconds from the start of 1970;
/// nothing for one that lasts for the session. `Max-Age` comes before
/// `Expires`, and a `Max-Age` of zero has expired at once.
pub open spec fn expiry(raw: RawView, now: SystemTime) -> Option<int> {
    match raw.max_age {
        Some(seconds) => if seconds == 0 {
            Some(0)
        } else if now.nanos + seconds * NANOS_PER_SEC <= MAX_EXPIRY_NANOS {
            Some(now.nanos + seconds * NANOS_PER_SEC)
        } else {
            Some(MAX_EXPIRY_NANOS as int)
        },
        None => match raw.expires {
            Some(nanos) => Some(nanos as int),
            None => None,
        },
    }
}

/// What an optional expiry is as a number.
pub open spec fn nanos_view(nanos: Option<i128>) -> Option<int> {
    match nanos {
        Some(nanos) => Some(nanos as int),
        None => None,
    }
}

/// Returns when a cookie set at `now` expires.
pub fn expiry_of(raw: &RawCookie, now: SystemTime) -> (r: Option<i128>)
    requires
        raw.max_age matches Some(seconds) ==> seconds >= 0,
        raw.expires matches Some(at) ==> at <= MAX_EXPIRY_NANOS,
    ensures
        nanos_view(r) == expiry(raw@, now),
        r matches Some(at) ==> at <= MAX_EXPIRY_NANOS,
{
    match raw.max_age {
        Some(seconds) => if seconds == 0 {
            Some(0)
        } else {
            let length: i128 = seconds as i128 * 1_000_000_000;
            if now.nanos >= MAX_EXPIRY_NANOS {
                Some(MAX_EXPIRY_NANOS)
            } else if now.nanos + length <= MAX_EXPIRY_NANOS {
                Some(now.nanos + length)
            } else {
                Some(MAX_EXPIRY_NANOS)
            }
        },
        None => raw.expires,
    }
}

/// A cookie that a URL may set.
#[derive(Debug)]
pub struct Candidate {
    pub key: CookieKey,
    /// The `Set-Cookie` field, and whether its domain counts.
    pub field: String,
    pub keep_domain: bool,
    pub raw: RawCookie,
    pub source_scheme: CookieSourceScheme,
    /// Top-level site of a `Partitioned` cookie.
    pub partition_site: Option<String>,
    pub trusted: bool,
}

/// What a [`Candidate`] holds.
pub struct CandidateView {
    pub key: CookieKeyView,
    pub field: Seq<char>,
    pub keep_domain: bool,
    pub raw: RawView,
    pub source_scheme: CookieSourceScheme,
    pub partition_site: Option<Seq<char>>,
    pub trusted: bool,
}

impl View for Candidate {
    type V = CandidateView;

    open spec fn view(&self) -> CandidateView {
        CandidateView {
            key: self.key@,
            field: self.field@,
            keep_domain: self.keep_domain,
            raw: self.raw@,
            source_scheme: self.source_scheme,
            partition_site: text_view(self.partition_site),
            trusted: self.trusted,
        }
    }
}

/// A refusal of the field's text or place.
pub open spec fn invalid_field(message: Seq<char>) -> CookieErrorView {
    CookieErrorView { kind: CookieErrorKind::InvalidSetCookie, message }
}

/// Where the cookie of a field from a URL belongs, and whether its domain
/// counts. A domain that is a public suffix is accepted only as the exact
/// host, and then makes a host-only cookie.
pub open spec fn place(field: Seq<char>, url: UrlView) -> Result<
    (ResolvedView, bool),
    CookieErrorView,
> {
    match resolved_cookie(field, true, url.text) {
        None => Err(invalid_field("Set-Cookie field violates cookie storage rules"@)),
        Some(found) => if !is_public_suffix(found.domain) {
            Ok((found, true))
        } else if found.domain == host_or_empty(url) {
            match resolved_cookie(field, false, url.text) {
                None => Err(invalid_field("Set-Cookie field violates cookie storage rules"@)),
                Some(exact) => Ok((exact, false)),
            }
        } else {
            Err(
                CookieErrorView {
                    kind: CookieErrorKind::PublicSuffix,
                    message: "cookie Domain targets a public suffix"@,
                },
            )
        },
    }
}

/// The cookie that a field from a URL would set, or why it may not.
pub open spec fn candidate(field: Seq<char>, url: UrlView, limits: CookieLimits) -> Result<
    CandidateView,
    CookieErrorView,
> {
    if encode_utf8(field).len() > limits.max_cookie_bytes {
        Err(
            CookieErrorView {
                kind: CookieErrorKind::CookieTooLarge,
                message: "Set-Cookie field exceeds the configured byte limit"@,
            },
        )
    } else {
        match raw_cookie(field) {
            None => Err(invalid_field("Set-Cookie field is malformed"@)),
            Some(raw) => match policy_refusal(raw, trustworthy(url)) {
                Some(error) => Err(error),
                None => match place(field, url) {
                    Err(error) => Err(error),
                    Ok((found, keep_domain)) => Ok(
                        CandidateView {
                            key: CookieKeyView {
                                domain: found.domain,
                                path: found.path,
                                name: raw.name,
                                host_only: found.host_only,
                                partitioned: raw.partitioned,
                            },
                            field,
                            keep_domain,
                            raw,
                            source_scheme: source_scheme(url),
                            partition_site: if raw.partitioned {
                                Some(schemeful_site(url))
                            } else {
                                None
                            },
                            trusted: trustworthy(url),
                        },
                    ),
                },
            },
        }
    }
}

/// The scheme that a URL sets cookies under.
pub open spec fn source_scheme(url: UrlView) -> CookieSourceScheme {
    if url.scheme == "https"@ {
        CookieSourceScheme::Https
    } else {
        CookieSourceScheme::Http
    }
}

impl CookieSourceScheme {
    /// Returns the scheme that `url` sets cookies under.
    pub fn of(url: &Url) -> (r: Self)
        ensures
            r == source_scheme(url@),
    {
        if same_text(url.scheme.as_str(), "https") {
            CookieSourceScheme::Https
        } else {
            CookieSourceScheme::Http
        }
    }
}

impl Candidate {
    /// The field of a candidate says what its parts hold.
    pub open spec fn wf(self) -> bool {
        &&& self.raw.max_age matches Some(seconds) ==> seconds >= 0
        &&& self.raw.expires matches Some(at) ==> at <= MAX_EXPIRY_NANOS
    }

    /// Returns the cookie that a field from `url` would set, or why it may
    /// not.
    pub fn new(field: &str, url: &Url, limits: CookieLimits) -> (r: Result<Self, CookieError>)
        ensures
            match candidate(field@, url@, limits) {
                Ok(found) => r matches Ok(candidate) && candidate@ == found && candidate.wf(),
                Err(error) => r matches Err(refusal) && refusal@ == error,
            },
    {
        if field.as_bytes().len() > limits.max_cookie_bytes {
            return Err(
                CookieError::new(
                    CookieErrorKind::CookieTooLarge,
                    "Set-Cookie field exceeds the configured byte limit",
                ),
            );
        }
        let raw = match parse_raw(field) {
            Some(raw) => raw,
            None => {
                return Err(
                    CookieError::new(
                        CookieErrorKind::InvalidSetCookie,
                        "Set-Cookie field is malformed",
                    ),
                );
            },
        };
        match validate_policy(&raw, url) {
            Some(error) => {
                return Err(error);
            },
            None => {},
        }
        let mut found = match resolve(field, true, url.text.as_str()) {
            Some(found) => found,
            None => {
                return Err(
                    CookieError::new(
                        CookieErrorKind::InvalidSetCookie,
                        "Set-Cookie field violates cookie storage rules",
                    ),
                );
            },
        };
        let mut keep_domain = true;
        if public_suffix(&found.domain) {
            if found.domain != host_text_of(url) {
                return Err(
                    CookieError::new(
                        CookieErrorKind::PublicSuffix,
                        "cookie Domain targets a public suffix",
                    ),
                );
            }
            match resolve(field, false, url.text.as_str()) {
                Some(exact) => {
                    found = exact;
                    keep_domain = false;
                },
                None => {
                    return Err(
                        CookieError::new(
                            CookieErrorKind::InvalidSetCookie,
                            "Set-Cookie field violates cookie storage rules",
                        ),
                    );
                },
            }
        }
        let partition_site = if raw.partitioned {
            Some(schemeful_site_of(url))
        } else {
            None
        };
        Ok(
            Candidate {
                key: CookieKey {
                    domain: found.domain,
                    path: found.path,
                    name: raw.name.clone(),
                    host_only: found.host_only,
                    partitioned: raw.partitioned,
                },
                field: field.to_owned(),
                keep_domain,
                raw,
                source_scheme: CookieSourceScheme::of(url),
                partition_site,
                trusted: is_trustworthy(url),
            },
        )
    }
}

/// Whether a cookie from an untrusted origin would hide a held `Secure`
/// cookie: the same name, a domain above or below, and a path under it.
pub open spec fn overlays(
    key: CookieKeyView,
    held_key: CookieKeyView,
    held_secure: bool,
) -> bool {
    &&& held_key.name == key.name
    &&& held_secure
    &&& domain_matches(held_key.domain, key.domain) || domain_matches(key.domain, held_key.domain)
    &&& path_matches(key.path, held_key.path)
}

/// Returns whether a cookie would hide a held one.
pub fn would_overlay(key: &CookieKey, held_key: &CookieKey, held_secure: bool) -> (r: bool)
    ensures
        r == overlays(key@, held_key@, held_secure),
{
    held_key.name == key.name && held_secure && (is_domain_match(&held_key.domain, &key.domain)
        || is_domain_match(&key.domain, &held_key.domain)) && is_path_match(
        &key.path,
        &held_key.path,
    )
}

} // verus!
