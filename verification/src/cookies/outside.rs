//! What the cookie crates and the public suffix list compute.

use vstd::prelude::*;
use crate::cookies::rules::MAX_EXPIRY_NANOS;
use crate::host::{text_view, url_parts};

verus! {

/// What a `Set-Cookie` field says, before it is held against a URL.
#[derive(Debug)]
pub struct RawCookie {
    pub name: String,
    pub value: String,
    pub domain: Option<String>,
    pub path: Option<String>,
    pub secure: bool,
    pub http_only: bool,
    /// The value of the `SameSite` attribute.
    pub same_site: Option<String>,
    pub partitioned: bool,
    /// The `Max-Age` attribute in seconds.
    pub max_age: Option<i64>,
    /// The `Expires` attribute, in nanoseconds from the start of 1970.
    pub expires: Option<i128>,
}

/// What a [`RawCookie`] holds.
pub struct RawView {
    pub name: Seq<char>,
    pub value: Seq<char>,
    pub domain: Option<Seq<char>>,
    pub path: Option<Seq<char>>,
    pub secure: bool,
    pub http_only: bool,
    pub same_site: Option<Seq<char>>,
    pub partitioned: bool,
    pub max_age: Option<i64>,
    pub expires: Option<i128>,
}

impl View for RawCookie {
    type V = RawView;

    open spec fn view(&self) -> RawView {
        RawView {
            name: self.name@,
            value: self.value@,
            domain: text_view(self.domain),
            path: text_view(self.path),
            secure: self.secure,
            http_only: self.http_only,
            same_site: text_view(self.same_site),
            partitioned: self.partitioned,
            max_age: self.max_age,
            expires: self.expires,
        }
    }
}

/// What `cookie::Cookie::parse` makes of a `Set-Cookie` field.
pub uninterp spec fn raw_cookie(field: Seq<char>) -> Option<RawView>;

/// Calls `cookie::Cookie::parse`, whose result depends on the field alone,
/// and reads the attributes. A `Max-Age` attribute is never negative, and an
/// `Expires` attribute is a date in the year 9999 at the latest.
#[verifier::external_body]
pub(crate) fn parse_raw(field: &str) -> (r: Option<RawCookie>)
    ensures
        (match r {
            Some(raw) => Some(raw@),
            None => None,
        }) == raw_cookie(field@),
        r matches Some(raw) ==> (raw.max_age matches Some(seconds) ==> seconds >= 0),
        r matches Some(raw) ==> (raw.expires matches Some(at) ==> at <= MAX_EXPIRY_NANOS),
{
    let raw = cookie::Cookie::parse(field).ok()?;
    Some(RawCookie {
        name: raw.name().to_owned(),
        value: raw.value().to_owned(),
        domain: raw.domain().map(str::to_owned),
        path: raw.path().map(str::to_owned),
        secure: raw.secure() == Some(true),
        http_only: raw.http_only() == Some(true),
        same_site: raw.same_site().map(|value| value.to_string()),
        partitioned: raw.partitioned() == Some(true),
        max_age: raw.max_age().map(|age| age.whole_seconds()),
        expires: raw.expires_datetime().map(|at| at.unix_timestamp_nanos()),
    })
}

/// Where a cookie belongs once its field was held against a URL.
#[derive(Debug)]
pub struct Resolved {
    pub domain: String,
    /// The field named no domain, so the cookie matches its exact host only.
    pub host_only: bool,
    pub path: String,
}

/// What a [`Resolved`] cookie holds.
pub struct ResolvedView {
    pub domain: Seq<char>,
    pub host_only: bool,
    pub path: Seq<char>,
}

impl View for Resolved {
    type V = ResolvedView;

    open spec fn view(&self) -> ResolvedView {
        ResolvedView { domain: self.domain@, host_only: self.host_only, path: self.path@ }
    }
}

/// Where `cookie_store::Cookie::try_from_raw_cookie` puts the cookie of a
/// field that came from a URL, with or without the field's domain.
pub uninterp spec fn resolved_cookie(
    field: Seq<char>,
    keep_domain: bool,
    url: Seq<char>,
) -> Option<ResolvedView>;

/// What a place, if there is one, holds.
pub open spec fn resolved_view(r: Option<Resolved>) -> Option<ResolvedView> {
    match r {
        Some(resolved) => Some(resolved@),
        None => None,
    }
}

/// Calls `cookie_store::Cookie::try_from_raw_cookie` on the field. The domain
/// and path it gives depend on the field and the URL alone; the expiry is not
/// read.
#[verifier::external_body]
fn resolve_as_written(field: &str, url: &str) -> (r: Option<Resolved>)
    ensures
        resolved_view(r) == resolved_cookie(field@, true, url@),
{
    let raw = cookie::Cookie::parse(field).ok()?;
    let url = url::Url::parse(url).ok()?;
    let cookie = cookie_store::Cookie::try_from_raw_cookie(&raw, &url).ok()?;
    Some(Resolved {
        domain: cookie.domain.as_cow()?.into_owned(),
        host_only: matches!(cookie.domain, cookie_store::CookieDomain::HostOnly(_)),
        path: cookie.path.to_string(),
    })
}

/// Calls `cookie_store::Cookie::try_from_raw_cookie` on the field after
/// `unset_domain`. The domain and path it gives depend on the field and the URL
/// alone; the expiry is not read.
#[verifier::external_body]
fn resolve_for_host(field: &str, url: &str) -> (r: Option<Resolved>)
    ensures
        resolved_view(r) == resolved_cookie(field@, false, url@),
{
    let mut raw = cookie::Cookie::parse(field).ok()?;
    raw.unset_domain();
    let url = url::Url::parse(url).ok()?;
    let cookie = cookie_store::Cookie::try_from_raw_cookie(&raw, &url).ok()?;
    Some(Resolved {
        domain: cookie.domain.as_cow()?.into_owned(),
        host_only: matches!(cookie.domain, cookie_store::CookieDomain::HostOnly(_)),
        path: cookie.path.to_string(),
    })
}

/// Returns where a cookie belongs, with or without the field's domain.
pub(crate) fn resolve(field: &str, keep_domain: bool, url: &str) -> (r: Option<Resolved>)
    ensures
        resolved_view(r) == resolved_cookie(field@, keep_domain, url@),
{
    if keep_domain {
        resolve_as_written(field, url)
    } else {
        resolve_for_host(field, url)
    }
}

/// The store that keeps cookies by domain, path and name.
#[verifier::external_type_specification]
#[verifier::external_body]
pub struct ExCookieStore(cookie_store::CookieStore);

/// What a store finds a cookie by.
pub struct ShelfKey {
    pub domain: Seq<char>,
    pub path: Seq<char>,
    pub name: Seq<char>,
}

/// What a store keeps of a cookie.
pub struct ShelfCookie {
    pub value: Seq<char>,
    pub secure: bool,
    pub http_only: bool,
    pub same_site: Option<Seq<char>>,
    /// The cookie has no expiry of its own.
    pub session: bool,
}

/// The cookies in a `cookie_store::CookieStore`.
pub uninterp spec fn shelf(store: cookie_store::CookieStore) -> Map<ShelfKey, ShelfCookie>;

/// Whether no cookie of a store has an expiry of its own.
pub open spec fn lasting(store: cookie_store::CookieStore) -> bool {
    forall|key: ShelfKey| #[trigger]
        shelf(store).dom().contains(key) ==> shelf(store)[key].session
}

/// Where a store keeps a cookie.
pub open spec fn shelf_key(raw: RawView, place: ResolvedView) -> ShelfKey {
    ShelfKey { domain: place.domain, path: place.path, name: raw.name }
}

/// What a store keeps of a cookie whose expiry was taken off.
pub open spec fn shelf_cookie(raw: RawView) -> ShelfCookie {
    ShelfCookie {
        value: raw.value,
        secure: raw.secure,
        http_only: raw.http_only,
        same_site: raw.same_site,
        session: true,
    }
}

/// Whether a cookie's place is the URL's own: one for an exact host has to
/// name the host as the URL does.
pub open spec fn fits_url(place: ResolvedView, url: Seq<char>) -> bool {
    place.host_only ==> url_parts(url)->0.host_text == Some(place.domain)
}

/// What a store hands out of a cookie.
pub struct StoredView {
    pub value: Seq<char>,
    pub secure: bool,
    pub http_only: bool,
    pub same_site: Option<Seq<char>>,
}

/// What a store hands out under a key.
pub open spec fn on_shelf(store: cookie_store::CookieStore, key: ShelfKey) -> Option<StoredView> {
    if shelf(store).dom().contains(key) {
        let cookie = shelf(store)[key];
        Some(
            StoredView {
                value: cookie.value,
                secure: cookie.secure,
                http_only: cookie.http_only,
                same_site: cookie.same_site,
            },
        )
    } else {
        None
    }
}

/// What a store hands out of a cookie.
#[derive(Debug)]
pub struct StoredCookie {
    pub value: String,
    pub secure: bool,
    pub http_only: bool,
    /// The value of the `SameSite` attribute.
    pub same_site: Option<String>,
}

impl View for StoredCookie {
    type V = StoredView;

    open spec fn view(&self) -> StoredView {
        StoredView {
            value: self.value@,
            secure: self.secure,
            http_only: self.http_only,
            same_site: text_view(self.same_site),
        }
    }
}

/// An empty store.
pub open spec fn no_cookies() -> Map<ShelfKey, ShelfCookie> {
    Map::empty()
}

/// Calls `CookieStore::default`, which holds no cookie.
#[verifier::external_body]
pub(crate) fn shelf_new() -> (r: cookie_store::CookieStore)
    ensures
        shelf(r) == no_cookies(),
{
    cookie_store::CookieStore::default()
}

/// Calls `CookieStore::insert` with the cookie of a field that came from a
/// URL, its expiry taken off. No cookie of the store expires, so the clock
/// plays no part: the cookie is stored, in place of one with the same domain,
/// path and name, unless it belongs to an exact host whose name differs from
/// the URL's own.
#[verifier::external_body]
fn insert_as_written(store: &mut cookie_store::CookieStore, field: &str, url: &str) -> (r: bool)
    requires
        lasting(*old(store)),
        raw_cookie(field@) is Some,
        resolved_cookie(field@, true, url@) is Some,
        url_parts(url@) matches Some(parts) && (parts.scheme == "http"@ || parts.scheme == "https"@),
    ensures
        r == fits_url(resolved_cookie(field@, true, url@)->0, url@),
        r ==> shelf(*final(store)) == shelf(*old(store)).insert(
            shelf_key(raw_cookie(field@)->0, resolved_cookie(field@, true, url@)->0),
            shelf_cookie(raw_cookie(field@)->0),
        ),
        !r ==> shelf(*final(store)) == shelf(*old(store)),
{
    let (Ok(raw), Ok(url)) = (cookie::Cookie::parse(field), url::Url::parse(url)) else {
        return false;
    };
    let Ok(mut cookie) = cookie_store::Cookie::try_from_raw_cookie(&raw, &url) else {
        return false;
    };
    cookie.expires = cookie_store::CookieExpiration::SessionEnd;
    store.insert(cookie.into_owned(), &url).is_ok()
}

/// Calls `CookieStore::insert` as [`insert_as_written`] does, but with the
/// field's domain taken off by `unset_domain`.
#[verifier::external_body]
fn insert_for_host(store: &mut cookie_store::CookieStore, field: &str, url: &str) -> (r: bool)
    requires
        lasting(*old(store)),
        raw_cookie(field@) is Some,
        resolved_cookie(field@, false, url@) is Some,
        url_parts(url@) matches Some(parts) && (parts.scheme == "http"@ || parts.scheme == "https"@),
    ensures
        r == fits_url(resolved_cookie(field@, false, url@)->0, url@),
        r ==> shelf(*final(store)) == shelf(*old(store)).insert(
            shelf_key(raw_cookie(field@)->0, resolved_cookie(field@, false, url@)->0),
            shelf_cookie(raw_cookie(field@)->0),
        ),
        !r ==> shelf(*final(store)) == shelf(*old(store)),
{
    let (Ok(mut raw), Ok(url)) = (cookie::Cookie::parse(field), url::Url::parse(url)) else {
        return false;
    };
    raw.unset_domain();
    let Ok(mut cookie) = cookie_store::Cookie::try_from_raw_cookie(&raw, &url) else {
        return false;
    };
    cookie.expires = cookie_store::CookieExpiration::SessionEnd;
    store.insert(cookie.into_owned(), &url).is_ok()
}

/// Stores the cookie of a field that came from a URL, with or without the
/// field's domain. Returns whether the store took it.
pub(crate) fn shelf_insert(
    store: &mut cookie_store::CookieStore,
    field: &str,
    keep_domain: bool,
    url: &str,
) -> (r: bool)
    requires
        lasting(*old(store)),
        raw_cookie(field@) is Some,
        resolved_cookie(field@, keep_domain, url@) is Some,
        url_parts(url@) matches Some(parts) && (parts.scheme == "http"@ || parts.scheme == "https"@),
    ensures
        r == fits_url(resolved_cookie(field@, keep_domain, url@)->0, url@),
        r ==> shelf(*final(store)) == shelf(*old(store)).insert(
            shelf_key(raw_cookie(field@)->0, resolved_cookie(field@, keep_domain, url@)->0),
            shelf_cookie(raw_cookie(field@)->0),
        ),
        !r ==> shelf(*final(store)) == shelf(*old(store)),
{
    if keep_domain {
        insert_as_written(store, field, url)
    } else {
        insert_for_host(store, field, url)
    }
}

/// Calls `CookieStore::get_any`, which finds a cookie by its domain, path and
/// name, and reads its value and attributes.
#[verifier::external_body]
pub(crate) fn shelf_get(
    store: &cookie_store::CookieStore,
    domain: &str,
    path: &str,
    name: &str,
) -> (r: Option<StoredCookie>)
    ensures
        (match r {
            Some(cookie) => Some(cookie@),
            None => None,
        }) == on_shelf(*store, ShelfKey { domain: domain@, path: path@, name: name@ }),
{
    let cookie = store.get_any(domain, path, name)?;
    Some(StoredCookie {
        value: cookie.value().to_owned(),
        secure: cookie.secure() == Some(true),
        http_only: cookie.http_only() == Some(true),
        same_site: cookie.same_site().map(|value| value.to_string()),
    })
}

/// Calls `CookieStore::remove`, which takes the cookie with this domain, path
/// and name out of the store.
#[verifier::external_body]
pub(crate) fn shelf_remove(
    store: &mut cookie_store::CookieStore,
    domain: &str,
    path: &str,
    name: &str,
)
    ensures
        shelf(*final(store)) == shelf(*old(store)).remove(
            ShelfKey { domain: domain@, path: path@, name: name@ },
        ),
{
    store.remove(domain, path, name);
}

/// Calls `CookieStore::clear`, which takes every cookie out of the store.
#[verifier::external_body]
pub(crate) fn shelf_clear(store: &mut cookie_store::CookieStore)
    ensures
        shelf(*final(store)) == no_cookies(),
{
    store.clear()
}

/// Whether the public suffix list's suffix of a name is the whole name.
pub uninterp spec fn whole_public_suffix(name: Seq<char>) -> bool;

/// Calls `psl::suffix` and compares it with the whole name; the list is part
/// of the crate, so the answer depends on the name alone.
#[verifier::external_body]
pub(crate) fn is_whole_suffix(name: &str) -> (r: bool)
    ensures
        r == whole_public_suffix(name@),
{
    psl::suffix(name.as_bytes()).is_some_and(|suffix| suffix == name.as_bytes())
}

/// The registrable domain that the public suffix list gives a name.
pub uninterp spec fn registrable_domain(name: Seq<char>) -> Option<Seq<char>>;

/// Calls `psl::domain_str`; the list is part of the crate, so the answer
/// depends on the name alone.
#[verifier::external_body]
pub(crate) fn registrable(name: &str) -> (r: Option<String>)
    ensures
        text_view(r) == registrable_domain(name@),
{
    psl::domain_str(name).map(str::to_owned)
}

} // verus!
