//! What holds of single cookies: who may set them, how long they last and
//! where they go.

use vstd::prelude::*;
use vstd::utf8::encode_utf8;
use crate::cookies::model::{joined, pair, sent, RecordView};
use crate::cookies::outside::{
    raw_cookie, registrable_domain, resolved_cookie, whole_public_suffix, RawView,
};
use crate::cookies::rules::{
    below, candidate, cookie_url, expiry, is_ip_address, overlays, path_matches, policy_refusal, quota_domain,
    schemeful_site, source_scheme, trustworthy, CookieKeyView,
};
use crate::cookies::types::{
    same_site_named, CookieErrorKind, CookieLimits, CookieSameSite, CookieSourceScheme,
};
use crate::host::{trustworthy_host, url_host, url_parts, HostView, UrlView};
use crate::text_laws::{lower_case_ignores_ascii_case_alone, same_letters};
use crate::time::SystemTime;

verus! {

/// When a cookie expires: `Max-Age` seconds from now, at the end of 9999 at
/// the latest, and for zero at once; without it at the time of `Expires`,
/// past or future; without either never.
pub proof fn max_age_comes_before_expires(raw: RawView, now: SystemTime)
    ensures
        match (raw.max_age, raw.expires) {
            (Some(seconds), _) => expiry(raw, now) matches Some(at) && {
                &&& at <= 253_402_300_799_000_000_000
                &&& seconds == 0 ==> at == 0
                &&& seconds != 0 ==> at <= now.nanos + seconds * 1_000_000_000
                &&& seconds != 0 && at < now.nanos + seconds * 1_000_000_000 ==> at
                    == 253_402_300_799_000_000_000
            },
            (None, Some(at)) => expiry(raw, now) == Some(at as int),
            (None, None) => expiry(raw, now) is None,
        },
{
}

/// Whether a host is a domain or a name under it.
pub open spec fn at_or_under(host: Seq<char>, domain: Seq<char>) -> bool {
    host == domain || exists|label: Seq<char>| host == #[trigger] (label + seq!['.']) + domain
}

/// Whether a host is a name and no address.
pub open spec fn named(host: Option<HostView>) -> bool {
    host matches Some(HostView::Domain(_))
}

proof fn lemma_below(name: Seq<char>, domain: Seq<char>)
    ensures
        below(name, domain) == (exists|label: Seq<char>|
            name == #[trigger] (label + seq!['.']) + domain),
{
    if below(name, domain) {
        let n = name.len() - domain.len() - 1;
        let label = name.take(n);
        assert(name =~= (label + seq!['.']) + domain);
    }
    if exists|label: Seq<char>| name == #[trigger] (label + seq!['.']) + domain {
        let label = choose|label: Seq<char>| name == #[trigger] (label + seq!['.']) + domain;
        assert(name.subrange(name.len() - domain.len(), name.len() as int) =~= domain);
        assert(name[name.len() - domain.len() - 1] == '.');
    }
}

/// Whether a request path is a cookie path or lies under it.
pub open spec fn path_at_or_under(request: Seq<char>, cookie: Seq<char>) -> bool {
    ||| request == cookie
    ||| exists|rest: Seq<char>| request == #[trigger] (cookie + seq!['/']) + rest
    ||| cookie.len() > 0 && cookie.last() == '/' && exists|rest: Seq<char>|
        request == #[trigger] (cookie + rest)
}

/// A path covers itself and the paths under it: those that go on with a
/// slash, or with anything behind a slash that it ends with.
pub proof fn a_path_covers_what_lies_under_it(request: Seq<char>, cookie: Seq<char>)
    ensures
        path_matches(request, cookie) == path_at_or_under(request, cookie),
{
    if path_matches(request, cookie) && request != cookie {
        let rest = request.skip(cookie.len() as int);
        assert(request =~= cookie + rest);
        if !(cookie.len() > 0 && cookie.last() == '/') {
            assert(rest[0] == '/');
            assert(request =~= (cookie + seq!['/']) + rest.skip(1));
        }
    }
    if path_at_or_under(request, cookie) && request != cookie {
        if exists|rest: Seq<char>| request == #[trigger] (cookie + seq!['/']) + rest {
            let rest = choose|rest: Seq<char>| request == #[trigger] (cookie + seq!['/']) + rest;
            assert(request.subrange(0, cookie.len() as int) =~= cookie);
            assert(request[cookie.len() as int] == '/');
        } else {
            let rest = choose|rest: Seq<char>| request == #[trigger] (cookie + rest);
            assert(request.subrange(0, cookie.len() as int) =~= cookie);
        }
    }
}

/// A cookie goes with a request exactly when the request's host is the
/// cookie's, or a name under its domain unless the cookie is for that host
/// alone, when the request's path lies at or under the cookie's, when a
/// `Secure` cookie goes over HTTPS or to this machine, and when a partitioned
/// cookie goes to the site that it was set on.
pub proof fn a_cookie_goes_exactly_where_it_belongs(record: RecordView, url: UrlView)
    ensures
        sent(record, url) == {
            let key = record.key;
            &&& url.host_text matches Some(host) && {
                ||| host == key.domain
                ||| !key.host_only && named(url.host) && at_or_under(host, key.domain)
            }
            &&& key.domain != seq!['.']
            &&& path_at_or_under(url.path, key.path)
            &&& record.secure ==> url.scheme == "https"@ || (url.host matches Some(host)
                && trustworthy_host(host))
            &&& record.partition_site matches Some(site) ==> site == url.scheme + seq![
                ':',
                '/',
                '/',
            ] + quota_domain(url.host_text->0)
        },
{
    reveal_strlit(".");
    reveal_strlit("://");
    assert("."@ =~= seq!['.']);
    assert("://"@ =~= seq![':', '/', '/']);
    a_path_covers_what_lies_under_it(url.path, record.key.path);
    if url.host_text is Some {
        lemma_below(url.host_text->0, record.key.domain);
    }
}

/// The registrable domain that a domain counts against, and whose site it
/// belongs to: an address and a name without one stand for themselves.
pub proof fn a_domain_counts_against_its_registrable_domain(domain: Seq<char>)
    ensures
        match (url_host(domain), registrable_domain(domain)) {
            (Some(HostView::Ipv4(_)), _) => quota_domain(domain) == domain,
            (Some(HostView::Ipv6(_)), _) => quota_domain(domain) == domain,
            (_, Some(found)) => quota_domain(domain) == found,
            (_, None) => quota_domain(domain) == domain,
        },
{
}

/// The origins that may set and get `Secure` cookies: those of HTTPS, and
/// those on this machine.
pub proof fn only_https_and_local_origins_are_trusted(url: UrlView)
    ensures
        url.scheme == "https"@ ==> trustworthy(url),
        url.scheme != "https"@ ==> trustworthy(url) == (url.host matches Some(host)
            && trustworthy_host(host)),
        source_scheme(url) == (if url.scheme == "https"@ {
            CookieSourceScheme::Https
        } else {
            CookieSourceScheme::Http
        }),
        CookieSourceScheme::Https.text() == "https"@,
        CookieSourceScheme::Http.text() == "http"@,
{
}

/// Whether a text starts with another, in any ASCII case.
pub open spec fn begins(text: Seq<char>, prefix: Seq<char>) -> bool {
    text.len() >= prefix.len() && same_letters(text.take(prefix.len() as int), prefix)
}

/// What an origin may not set: a `__Secure-` name without `Secure` or without
/// a trusted origin, a `__Host-` name unless it is also for the whole host
/// and for no domain, a `Secure` cookie from an untrusted origin, and a
/// `SameSite=None` or `Partitioned` cookie without `Secure`. Anything else it
/// may.
pub proof fn attributes_are_refused_for_these_reasons_alone(raw: RawView, trusted: bool)
    ensures
        ({
            let secured = raw.secure && trusted;
            let prefix = begins(raw.name, "__Secure-"@) && !secured || begins(raw.name, "__Host-"@)
                && !(secured && raw.path == Some(seq!['/']) && raw.domain is None);
            let policy = raw.secure && !trusted || !raw.secure && (raw.partitioned
                || same_site_named(raw.same_site) == Some(CookieSameSite::Unrestricted));
            match policy_refusal(raw, trusted) {
                None => !prefix && !policy,
                Some(error) => if prefix {
                    error.kind == CookieErrorKind::InvalidPrefix
                } else {
                    policy && error.kind == CookieErrorKind::UnsupportedPolicy
                },
            }
        }),
{
    reveal_strlit("/");
    assert("/"@ =~= seq!['/']);
    let (a, b) = ("__Secure-"@, "__Host-"@);
    if raw.name.len() >= a.len() {
        lower_case_ignores_ascii_case_alone(raw.name.take(a.len() as int), a);
    }
    if raw.name.len() >= b.len() {
        lower_case_ignores_ascii_case_alone(raw.name.take(b.len() as int), b);
    }
}

/// A `SameSite` attribute is one of three, told by its value; the values are
/// read back as they are written.
pub proof fn same_site_values_are_read_back(same_site: CookieSameSite, other: Seq<char>)
    ensures
        same_site_named(Some(same_site.text())) == Some(same_site),
        same_site_named(None) is None,
        same_site_named(Some("Strict"@)) == Some(CookieSameSite::Strict),
        same_site_named(Some("Lax"@)) == Some(CookieSameSite::Lax),
        other != "Strict"@ && other != "Lax"@ ==> same_site_named(Some(other)) == Some(
            CookieSameSite::Unrestricted,
        ),
{
    reveal_strlit("Strict");
    reveal_strlit("Lax");
    reveal_strlit("None");
    assert("Strict"@.len() == 6 && "Lax"@.len() == 3 && "None"@.len() == 4);
}

/// A field sets the cookie that it names: with the name and attributes of the
/// field, at the place that the field has for its URL, in the partition of
/// its URL's site where it is partitioned. A field over the byte limit, one
/// that is no cookie, one with attributes that its origin may not set and one
/// for a public suffix that is not its own host is refused for that.
pub proof fn a_field_sets_the_cookie_it_names(
    field: Seq<char>,
    url: UrlView,
    limits: CookieLimits,
)
    ensures
        match candidate(field, url, limits) {
            Ok(found) => {
                &&& encode_utf8(field).len() <= limits.max_cookie_bytes
                &&& raw_cookie(field) == Some(found.raw)
                &&& policy_refusal(found.raw, trustworthy(url)) is None
                &&& found.key.name == found.raw.name
                &&& found.key.partitioned == found.raw.partitioned
                &&& found.raw.partitioned ==> found.partition_site == Some(schemeful_site(url))
                &&& !found.raw.partitioned ==> found.partition_site is None
                &&& found.trusted == trustworthy(url)
                &&& found.source_scheme == source_scheme(url)
                &&& resolved_cookie(field, found.keep_domain, url.text) matches Some(place)
                    && found.key.domain == place.domain && found.key.path == place.path
                    && found.key.host_only == place.host_only
                &&& resolved_cookie(field, true, url.text) matches Some(named) && {
                    let suffix = !is_ip_address(named.domain) && whole_public_suffix(named.domain);
                    &&& found.keep_domain == !suffix
                    &&& suffix ==> url.host_text == Some(named.domain) || named.domain.len() == 0
                }
            },
            Err(error) => if encode_utf8(field).len() > limits.max_cookie_bytes {
                error.kind == CookieErrorKind::CookieTooLarge
            } else {
                match raw_cookie(field) {
                    None => error.kind == CookieErrorKind::InvalidSetCookie,
                    Some(raw) => match policy_refusal(raw, trustworthy(url)) {
                        Some(refusal) => error == refusal,
                        None => match resolved_cookie(field, true, url.text) {
                            None => error.kind == CookieErrorKind::InvalidSetCookie,
                            Some(named) => {
                                &&& !is_ip_address(named.domain)
                                &&& whole_public_suffix(named.domain)
                                &&& url.host_text != Some(named.domain) && named.domain.len() > 0
                                    ==> error.kind == CookieErrorKind::PublicSuffix
                                &&& url.host_text == Some(named.domain) ==> error.kind
                                    == CookieErrorKind::InvalidSetCookie && resolved_cookie(
                                    field,
                                    false,
                                    url.text,
                                ) is None
                            },
                        },
                    },
                }
            },
        },
{
}

/// An address is no public suffix and stands for itself.
pub proof fn an_address_is_known_by_its_host(domain: Seq<char>)
    ensures
        is_ip_address(domain) == (url_host(domain) matches Some(host) && !(host is Domain)),
{
}

/// A cookie from an untrusted origin hides a `Secure` one exactly when it has
/// its name, a domain at, above or under its domain, and a path at or under
/// its path.
pub proof fn a_secure_cookie_is_hidden_by_its_like(
    key: CookieKeyView,
    held: CookieKeyView,
    secure: bool,
)
    ensures
        overlays(key, held, secure) == {
            &&& secure
            &&& key.name == held.name
            &&& path_at_or_under(key.path, held.path)
            &&& {
                ||| key.domain == held.domain
                ||| named(url_host(held.domain)) && at_or_under(held.domain, key.domain)
                ||| named(url_host(key.domain)) && at_or_under(key.domain, held.domain)
            }
        },
{
    a_path_covers_what_lies_under_it(key.path, held.path);
    lemma_below(held.domain, key.domain);
    lemma_below(key.domain, held.domain);
}

/// A request names its cookies one after another: each as its name, an equals
/// sign and its value, with a semicolon and a space between two.
pub proof fn cookies_are_listed_as_pairs(
    records: Seq<RecordView>,
    order: Seq<int>,
    i: int,
)
    ensures
        pair(records[i]) == records[i].key.name + seq!['='] + records[i].value,
        joined(records, order.push(i)) == (if order.len() == 0 {
            pair(records[i])
        } else {
            joined(records, order) + seq![';', ' '] + pair(records[i])
        }),
        joined(records, Seq::<int>::empty()).len() == 0,
{
    reveal_strlit("=");
    reveal_strlit("; ");
    assert("="@ =~= seq!['=']);
    assert("; "@ =~= seq![';', ' ']);
    assert(order.push(i).drop_last() =~= order);
}

/// Cookies apply to HTTP and HTTPS URLs with a host, and to nothing else.
pub proof fn cookies_apply_to_web_urls_alone(text: Seq<char>)
    ensures
        match (url_parts(text), cookie_url(text)) {
            (Some(url), Ok(found)) => found == url && (url.scheme == "http"@ || url.scheme
                == "https"@) && url.host is Some,
            (Some(url), Err(error)) => error.kind == CookieErrorKind::InvalidUrl && !((url.scheme
                == "http"@ || url.scheme == "https"@) && url.host is Some),
            (None, Ok(_)) => false,
            (None, Err(error)) => error.kind == CookieErrorKind::InvalidUrl,
        },
{
}

} // verus!
