//! Bounds, attributes and failures of cookies.

use vstd::prelude::*;
use crate::host::text_view;
use crate::text::same_text;

verus! {

/// Bounds applied to one in-memory cookie jar.
///
/// A `Set-Cookie` field above the byte bound is rejected. The count bounds
/// never reject a cookie: when an insert exceeds one, the jar evicts least
/// recently used cookies, non-`Secure` first, down to five sixths of the
/// per-domain bound or ten elevenths of the total bound.
#[derive(Clone, Copy, Debug, PartialEq, Eq, Structural)]
pub struct CookieLimits {
    pub max_cookie_bytes: usize,
    pub max_cookies_per_domain: usize,
    pub max_cookies: usize,
}

impl CookieLimits {
    /// Every bound is positive.
    pub open spec fn wf(self) -> bool {
        self.max_cookie_bytes > 0 && self.max_cookies_per_domain > 0 && self.max_cookies > 0
    }

    /// The bounds of a jar that is given none.
    pub open spec fn standard() -> Self {
        CookieLimits { max_cookie_bytes: 4096, max_cookies_per_domain: 180, max_cookies: 3300 }
    }

    /// Creates cookie-field, per-registrable-domain, and total-count bounds.
    pub fn new(
        max_cookie_bytes: usize,
        max_cookies_per_domain: usize,
        max_cookies: usize,
    ) -> (r: Self)
        requires
            max_cookie_bytes > 0,
            max_cookies_per_domain > 0,
            max_cookies > 0,
        ensures
            r.wf(),
            r == (CookieLimits { max_cookie_bytes, max_cookies_per_domain, max_cookies }),
    {
        CookieLimits { max_cookie_bytes, max_cookies_per_domain, max_cookies }
    }

    /// Returns the largest accepted `Set-Cookie` field in bytes.
    pub fn max_cookie_bytes(self) -> (r: usize)
        ensures
            r == self.max_cookie_bytes,
    {
        self.max_cookie_bytes
    }

    /// Returns the per-registrable-domain count above which cookies are evicted.
    pub fn max_cookies_per_domain(self) -> (r: usize)
        ensures
            r == self.max_cookies_per_domain,
    {
        self.max_cookies_per_domain
    }

    /// Returns the total count above which cookies are evicted.
    pub fn max_cookies(self) -> (r: usize)
        ensures
            r == self.max_cookies,
    {
        self.max_cookies
    }
}

impl Default for CookieLimits {
    fn default() -> (r: Self)
        ensures
            r.wf(),
            r == CookieLimits::standard(),
    {
        CookieLimits::new(4096, 180, 3300)
    }
}

/// Stable category of cookie input or policy failure.
#[derive(Clone, Copy, Debug, PartialEq, Eq, Structural)]
pub enum CookieErrorKind {
    /// The associated URL was invalid or unsupported.
    InvalidUrl,
    /// The `Set-Cookie` field could not be parsed or applied.
    InvalidSetCookie,
    /// The field exceeded the configured byte limit.
    CookieTooLarge,
    /// The cookie targeted a public suffix.
    PublicSuffix,
    /// A cookie-name prefix requirement was not satisfied.
    InvalidPrefix,
    /// An insecure origin attempted to overlay an existing secure cookie.
    SecureOverlay,
    /// The cookie used a policy this client cannot model.
    UnsupportedPolicy,
    /// Retained for compatibility; count bounds evict instead of rejecting,
    /// so the jar never returns this kind.
    Capacity,
}

/// Error returned by explicit cookie-jar operations.
#[derive(Clone, Copy, Debug)]
pub struct CookieError {
    pub kind: CookieErrorKind,
    pub message: &'static str,
}

/// What a [`CookieError`] holds.
pub struct CookieErrorView {
    pub kind: CookieErrorKind,
    pub message: Seq<char>,
}

impl View for CookieError {
    type V = CookieErrorView;

    open spec fn view(&self) -> CookieErrorView {
        CookieErrorView { kind: self.kind, message: self.message@ }
    }
}

impl CookieError {
    /// A failure of `kind` that says `message`.
    pub fn new(kind: CookieErrorKind, message: &'static str) -> (r: Self)
        ensures
            r@ == (CookieErrorView { kind, message: message@ }),
    {
        CookieError { kind, message }
    }

    /// Returns the stable failure category.
    pub fn kind(&self) -> (r: CookieErrorKind)
        ensures
            r == self@.kind,
    {
        self.kind
    }

    /// Returns what this error says.
    pub fn message(&self) -> (r: &'static str)
        ensures
            r@ == self@.message,
    {
        self.message
    }
}

/// The scheme of the URL that set a cookie.
///
/// With the domain, it decides whether the setter was a potentially
/// trustworthy origin, and it is the scheme of a `Partitioned` cookie's
/// partition key.
#[derive(Clone, Copy, Debug, PartialEq, Eq, Hash, Structural)]
pub enum CookieSourceScheme {
    /// `http://`.
    Http,
    /// `https://`.
    Https,
}

impl CookieSourceScheme {
    /// The text of this scheme.
    pub open spec fn text(self) -> Seq<char> {
        match self {
            CookieSourceScheme::Http => "http"@,
            CookieSourceScheme::Https => "https"@,
        }
    }

    /// Returns the text of this scheme.
    pub fn as_str(self) -> (r: &'static str)
        ensures
            r@ == self.text(),
    {
        match self {
            CookieSourceScheme::Http => "http",
            CookieSourceScheme::Https => "https",
        }
    }
}

/// A cookie's `SameSite` attribute.
#[derive(Clone, Copy, Debug, PartialEq, Eq, Hash, Structural)]
pub enum CookieSameSite {
    /// `SameSite=Strict`.
    Strict,
    /// `SameSite=Lax`.
    Lax,
    /// `SameSite=None`.
    Unrestricted,
}

impl CookieSameSite {
    /// The attribute's value.
    pub open spec fn text(self) -> Seq<char> {
        match self {
            CookieSameSite::Strict => "Strict"@,
            CookieSameSite::Lax => "Lax"@,
            CookieSameSite::Unrestricted => "None"@,
        }
    }

    /// Returns the attribute's value.
    pub fn as_str(self) -> (r: &'static str)
        ensures
            r@ == self.text(),
    {
        match self {
            CookieSameSite::Strict => "Strict",
            CookieSameSite::Lax => "Lax",
            CookieSameSite::Unrestricted => "None",
        }
    }
}

/// The attribute that a value names.
pub open spec fn same_site_named(value: Option<Seq<char>>) -> Option<CookieSameSite> {
    match value {
        Some(text) => if text == "Strict"@ {
            Some(CookieSameSite::Strict)
        } else if text == "Lax"@ {
            Some(CookieSameSite::Lax)
        } else {
            Some(CookieSameSite::Unrestricted)
        },
        None => None,
    }
}

/// Returns the attribute that a value names.
pub fn parse_same_site(value: &Option<String>) -> (r: Option<CookieSameSite>)
    ensures
        r == same_site_named(text_view(*value)),
{
    match value {
        Some(text) => if same_text(text.as_str(), "Strict") {
            Some(CookieSameSite::Strict)
        } else if same_text(text.as_str(), "Lax") {
            Some(CookieSameSite::Lax)
        } else {
            Some(CookieSameSite::Unrestricted)
        },
        None => None,
    }
}

/// Whether two optional attributes are the same.
pub fn same_site_eq(a: Option<CookieSameSite>, b: Option<CookieSameSite>) -> (r: bool)
    ensures
        r == (a == b),
{
    match (a, b) {
        (Some(a), Some(b)) => a == b,
        (None, None) => true,
        _ => false,
    }
}

} // verus!
