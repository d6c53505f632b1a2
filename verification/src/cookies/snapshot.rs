//! Caller-owned persistence of a cookie jar.

use vstd::prelude::*;
use crate::cookies::jar::CookieJar;
use crate::cookies::laws::{importing_keeps_within_the_limits, purging_keeps_within_the_limits};
use crate::cookies::model::{
    count, creation, from_field, held_at, hides_secure, record_of, JarView, RecordView,
};
use crate::cookies::rules::{
    candidate, is_public_suffix, nanos_view, public_suffix, quota_domain, quota_domain_of,
    Candidate, CandidateView, MAX_EXPIRY_NANOS,
};
use crate::cookies::state::ints;
use crate::cookies::types::{
    parse_same_site, same_site_eq, same_site_named, CookieErrorKind, CookieLimits, CookieSameSite,
    CookieSourceScheme,
};
use crate::host::{parse_url, text_view, url_parts, Url, UrlView};
use crate::lru::Key;
use crate::text::{decimal, push_decimal, same_text};
use crate::time::SystemTime;

verus! {

/// One cookie in a [`CookieSnapshot`].
#[derive(Clone, PartialEq, Eq)]
pub struct CookieSnapshotEntry {
    pub source_scheme: CookieSourceScheme,
    pub name: String,
    pub value: String,
    pub domain: String,
    pub host_only: bool,
    pub path: String,
    pub secure: bool,
    pub http_only: bool,
    pub same_site: Option<CookieSameSite>,
    pub partition_key: Option<String>,
    pub expires_at: Option<SystemTime>,
}

/// What a [`CookieSnapshotEntry`] holds.
pub struct EntryView {
    pub source_scheme: CookieSourceScheme,
    pub name: Seq<char>,
    pub value: Seq<char>,
    pub domain: Seq<char>,
    pub host_only: bool,
    pub path: Seq<char>,
    pub secure: bool,
    pub http_only: bool,
    pub same_site: Option<CookieSameSite>,
    pub partition_key: Option<Seq<char>>,
    pub expires_at: Option<SystemTime>,
}

impl View for CookieSnapshotEntry {
    type V = EntryView;

    open spec fn view(&self) -> EntryView {
        EntryView {
            source_scheme: self.source_scheme,
            name: self.name@,
            value: self.value@,
            domain: self.domain@,
            host_only: self.host_only,
            path: self.path@,
            secure: self.secure,
            http_only: self.http_only,
            same_site: self.same_site,
            partition_key: text_view(self.partition_key),
            expires_at: self.expires_at,
        }
    }
}

/// Cookies exported from one client, oldest first.
///
/// A snapshot holds each cookie's name, value, domain, path, attributes,
/// partition key, absolute expiry rounded down to a whole second, and the
/// scheme of the URL that set it.
///
/// The entries are in creation order, which is the order the jar sends
/// cookies of equal path length in a `Cookie` field. An import keeps it.
///
/// A snapshot is a typed value, not a trusted one: import revalidates every
/// entry through the rules that govern a `Set-Cookie` field, so an edited or
/// caller-built snapshot can hold only what a response could have stored.
#[derive(Clone, PartialEq, Eq)]
pub struct CookieSnapshot {
    pub entries: Vec<CookieSnapshotEntry>,
}

/// What a list of entries holds.
pub open spec fn entries_view(entries: Seq<CookieSnapshotEntry>) -> Seq<EntryView> {
    entries.map_values(|entry: CookieSnapshotEntry| entry@)
}

impl CookieSnapshot {
    /// The entries, oldest first.
    pub open spec fn view(&self) -> Seq<EntryView> {
        entries_view(self.entries@)
    }

    /// Creates a snapshot from entries ordered oldest first.
    ///
    /// Entries are validated when imported, not here.
    pub fn new(entries: Vec<CookieSnapshotEntry>) -> (r: Self)
        ensures
            r.entries == entries,
    {
        CookieSnapshot { entries }
    }

    /// Returns the entries, oldest first.
    pub fn entries(&self) -> (r: &Vec<CookieSnapshotEntry>)
        ensures
            *r == self.entries,
    {
        &self.entries
    }

    /// Returns the number of entries.
    pub fn len(&self) -> (r: usize)
        ensures
            r == self@.len(),
    {
        self.entries.len()
    }

    /// Returns whether the snapshot has no entries.
    pub fn is_empty(&self) -> (r: bool)
        ensures
            r == (self@.len() == 0),
    {
        self.entries.len() == 0
    }
}

impl Default for CookieSnapshot {
    fn default() -> (r: Self)
        ensures
            r@.len() == 0,
    {
        CookieSnapshot { entries: Vec::new() }
    }
}

/// What may be shown of an entry: neither its name and value nor its domain,
/// path and partition key.
#[derive(Clone, Copy, Debug, PartialEq, Eq)]
pub struct RedactedEntry {
    pub source_scheme: CookieSourceScheme,
    pub host_only: bool,
    pub secure: bool,
    pub http_only: bool,
    pub same_site: Option<CookieSameSite>,
    pub partitioned: bool,
    pub expires_at: Option<SystemTime>,
}

impl CookieSnapshotEntry {
    /// Creates a host-only session cookie without attributes for later
    /// import.
    ///
    /// `domain` is the canonical lowercase ASCII host the cookie belongs to,
    /// such as `example.com`, `192.0.2.1`, or `[2001:db8::1]`, and `path`
    /// starts with `/`. The `with_` methods set the remaining attributes.
    /// Import revalidates every part.
    pub fn new(
        source_scheme: CookieSourceScheme,
        name: &str,
        value: &str,
        domain: &str,
        path: &str,
    ) -> (r: Self)
        ensures
            r@ == (EntryView {
                source_scheme,
                name: name@,
                value: value@,
                domain: domain@,
                host_only: true,
                path: path@,
                secure: false,
                http_only: false,
                same_site: None,
                partition_key: None,
                expires_at: None,
            }),
    {
        CookieSnapshotEntry {
            source_scheme,
            name: name.to_owned(),
            value: value.to_owned(),
            domain: domain.to_owned(),
            host_only: true,
            path: path.to_owned(),
            secure: false,
            http_only: false,
            same_site: None,
            partition_key: None,
            expires_at: None,
        }
    }

    /// Sets whether the cookie matches only its exact host (`true`, the
    /// default) or also its subdomains, as a `Domain` attribute does.
    pub fn with_host_only(self, host_only: bool) -> (r: Self)
        ensures
            r@ == (EntryView { host_only, ..self@ }),
    {
        CookieSnapshotEntry { host_only, ..self }
    }

    /// Sets the `Secure` attribute.
    pub fn with_secure(self, secure: bool) -> (r: Self)
        ensures
            r@ == (EntryView { secure, ..self@ }),
    {
        CookieSnapshotEntry { secure, ..self }
    }

    /// Sets the `HttpOnly` attribute.
    pub fn with_http_only(self, http_only: bool) -> (r: Self)
        ensures
            r@ == (EntryView { http_only, ..self@ }),
    {
        CookieSnapshotEntry { http_only, ..self }
    }

    /// Sets the `SameSite` attribute.
    pub fn with_same_site(self, same_site: CookieSameSite) -> (r: Self)
        ensures
            r@ == (EntryView { same_site: Some(same_site), ..self@ }),
    {
        CookieSnapshotEntry { same_site: Some(same_site), ..self }
    }

    /// Marks the cookie `Partitioned` under a schemeful site, such as
    /// `https://example.com`.
    ///
    /// The jar keys a `Partitioned` cookie to the site of the URL that set
    /// it, so import accepts only the site of the source scheme and the
    /// domain's registrable domain.
    pub fn with_partition_key(self, site: &str) -> (r: Self)
        ensures
            r@ == (EntryView { partition_key: Some(site@), ..self@ }),
    {
        CookieSnapshotEntry { partition_key: Some(site.to_owned()), ..self }
    }

    /// Sets the absolute wall-clock expiry; without one the cookie is a
    /// session cookie.
    pub fn with_expires_at(self, expires_at: SystemTime) -> (r: Self)
        ensures
            r@ == (EntryView { expires_at: Some(expires_at), ..self@ }),
    {
        CookieSnapshotEntry { expires_at: Some(expires_at), ..self }
    }

    /// Returns the scheme of the URL that set the cookie.
    pub fn source_scheme(&self) -> (r: CookieSourceScheme)
        ensures
            r == self.source_scheme,
    {
        self.source_scheme
    }

    /// Returns the cookie name.
    pub fn name(&self) -> (r: &str)
        ensures
            r@ == self.name@,
    {
        self.name.as_str()
    }

    /// Returns the cookie value, a credential for many sites.
    pub fn value(&self) -> (r: &str)
        ensures
            r@ == self.value@,
    {
        self.value.as_str()
    }

    /// Returns the canonical host or domain the cookie belongs to.
    pub fn domain(&self) -> (r: &str)
        ensures
            r@ == self.domain@,
    {
        self.domain.as_str()
    }

    /// Returns whether the cookie matches only its exact host.
    pub fn host_only(&self) -> (r: bool)
        ensures
            r == self.host_only,
    {
        self.host_only
    }

    /// Returns the cookie path.
    pub fn path(&self) -> (r: &str)
        ensures
            r@ == self.path@,
    {
        self.path.as_str()
    }

    /// Returns whether the cookie has the `Secure` attribute.
    pub fn secure(&self) -> (r: bool)
        ensures
            r == self.secure,
    {
        self.secure
    }

    /// Returns whether the cookie has the `HttpOnly` attribute.
    pub fn http_only(&self) -> (r: bool)
        ensures
            r == self.http_only,
    {
        self.http_only
    }

    /// Returns the `SameSite` attribute, if the cookie has one.
    pub fn same_site(&self) -> (r: Option<CookieSameSite>)
        ensures
            r == self.same_site,
    {
        self.same_site
    }

    /// Returns the schemeful partition site of a `Partitioned` cookie.
    pub fn partition_key(&self) -> (r: Option<&str>)
        ensures
            (match r {
                Some(site) => Some(site@),
                None => None,
            }) == text_view(self.partition_key),
    {
        match &self.partition_key {
            Some(site) => Some(site.as_str()),
            None => None,
        }
    }

    /// Returns the absolute wall-clock time after which the cookie is
    /// unusable, or `None` for a session cookie.
    pub fn expires_at(&self) -> (r: Option<SystemTime>)
        ensures
            r == self.expires_at,
    {
        self.expires_at
    }

    /// Returns what may be shown of this entry.
    pub fn redacted(&self) -> (r: RedactedEntry)
        ensures
            r == (RedactedEntry {
                source_scheme: self.source_scheme,
                host_only: self.host_only,
                secure: self.secure,
                http_only: self.http_only,
                same_site: self.same_site,
                partitioned: self.partition_key is Some,
                expires_at: self.expires_at,
            }),
    {
        RedactedEntry {
            source_scheme: self.source_scheme,
            host_only: self.host_only,
            secure: self.secure,
            http_only: self.http_only,
            same_site: self.same_site,
            partitioned: self.partition_key.is_some(),
            expires_at: self.expires_at,
        }
    }
}

/// Why an import was rejected.
#[derive(Clone, Copy, Debug, PartialEq, Eq, Structural)]
#[non_exhaustive]
pub enum CookieSnapshotErrorKind {
    /// The client was built without a cookie jar.
    Disabled,
    /// An entry's domain is not a canonical host, or its name, value, path,
    /// or attributes do not survive as a `Set-Cookie` field unchanged.
    InvalidCookie,
    /// An entry's `Set-Cookie` field would exceed the jar's byte limit.
    CookieTooLarge,
    /// A domain cookie's domain is a public suffix.
    PublicSuffix,
    /// A `__Secure-` or `__Host-` prefix requirement is not satisfied.
    InvalidPrefix,
    /// A `Secure` cookie from an origin that is not potentially trustworthy,
    /// or a `SameSite=None` or `Partitioned` cookie without `Secure`.
    UnsupportedPolicy,
    /// A `Partitioned` cookie's partition key is not the schemeful site of
    /// its source scheme and domain, or a partition key is set on a cookie
    /// storage would not partition.
    InvalidPartitionKey,
}

impl CookieSnapshotErrorKind {
    /// The category of a refused `Set-Cookie` field.
    pub open spec fn storage(kind: CookieErrorKind) -> CookieSnapshotErrorKind {
        match kind {
            CookieErrorKind::CookieTooLarge => CookieSnapshotErrorKind::CookieTooLarge,
            CookieErrorKind::PublicSuffix => CookieSnapshotErrorKind::PublicSuffix,
            CookieErrorKind::InvalidPrefix => CookieSnapshotErrorKind::InvalidPrefix,
            CookieErrorKind::UnsupportedPolicy => CookieSnapshotErrorKind::UnsupportedPolicy,
            _ => CookieSnapshotErrorKind::InvalidCookie,
        }
    }

    /// Returns the category of a refused `Set-Cookie` field.
    pub fn from_storage(kind: CookieErrorKind) -> (r: Self)
        ensures
            r == CookieSnapshotErrorKind::storage(kind),
    {
        match kind {
            CookieErrorKind::CookieTooLarge => CookieSnapshotErrorKind::CookieTooLarge,
            CookieErrorKind::PublicSuffix => CookieSnapshotErrorKind::PublicSuffix,
            CookieErrorKind::InvalidPrefix => CookieSnapshotErrorKind::InvalidPrefix,
            CookieErrorKind::UnsupportedPolicy => CookieSnapshotErrorKind::UnsupportedPolicy,
            _ => CookieSnapshotErrorKind::InvalidCookie,
        }
    }

    /// What the category says.
    pub open spec fn text(self) -> Seq<char> {
        match self {
            CookieSnapshotErrorKind::Disabled => "cookies are not enabled for this client"@,
            CookieSnapshotErrorKind::InvalidCookie => "cookie snapshot entry is not a canonical cookie"@,
            CookieSnapshotErrorKind::CookieTooLarge => "cookie snapshot entry exceeds the configured byte limit"@,
            CookieSnapshotErrorKind::PublicSuffix => "cookie snapshot entry's domain is a public suffix"@,
            CookieSnapshotErrorKind::InvalidPrefix => "cookie snapshot entry violates its name prefix requirements"@,
            CookieSnapshotErrorKind::UnsupportedPolicy => "cookie snapshot entry violates the Secure, SameSite, or Partitioned rules"@,
            CookieSnapshotErrorKind::InvalidPartitionKey => "cookie snapshot entry's partition key is not its schemeful site"@,
        }
    }
}

/// A rejected cookie snapshot import; the jar is unchanged.
#[derive(Clone, Copy, Debug, PartialEq, Eq, Structural)]
pub struct CookieSnapshotError {
    pub kind: CookieSnapshotErrorKind,
    pub entry: Option<usize>,
}

impl CookieSnapshotError {
    /// An import into a client without a cookie jar.
    pub fn disabled() -> (r: Self)
        ensures
            r == (CookieSnapshotError { kind: CookieSnapshotErrorKind::Disabled, entry: None }),
    {
        CookieSnapshotError { kind: CookieSnapshotErrorKind::Disabled, entry: None }
    }

    /// Returns the rejection category.
    pub fn kind(&self) -> (r: CookieSnapshotErrorKind)
        ensures
            r == self.kind,
    {
        self.kind
    }

    /// Returns the index of the rejected entry, if one entry caused the error.
    pub fn entry_index(&self) -> (r: Option<usize>)
        ensures
            r == self.entry,
    {
        self.entry
    }

    /// Returns what this error says.
    pub fn message(&self) -> (r: String)
        ensures
            r@ == (match self.entry {
                Some(index) => self.kind.text() + " (entry "@ + decimal(index as nat) + ")"@,
                None => self.kind.text(),
            }),
    {
        let mut text = (match self.kind {
            CookieSnapshotErrorKind::Disabled => "cookies are not enabled for this client",
            CookieSnapshotErrorKind::InvalidCookie => "cookie snapshot entry is not a canonical cookie",
            CookieSnapshotErrorKind::CookieTooLarge => "cookie snapshot entry exceeds the configured byte limit",
            CookieSnapshotErrorKind::PublicSuffix => "cookie snapshot entry's domain is a public suffix",
            CookieSnapshotErrorKind::InvalidPrefix => "cookie snapshot entry violates its name prefix requirements",
            CookieSnapshotErrorKind::UnsupportedPolicy => "cookie snapshot entry violates the Secure, SameSite, or Partitioned rules",
            CookieSnapshotErrorKind::InvalidPartitionKey => "cookie snapshot entry's partition key is not its schemeful site",
        }).to_owned();
        match self.entry {
            Some(index) => {
                text.append(" (entry ");
                push_decimal(&mut text, index as u64);
                text.append(")");
            },
            None => {},
        }
        text
    }
}

/// A text, or none, where a condition holds.
pub open spec fn when(condition: bool, text: Seq<char>) -> Seq<char> {
    if condition {
        text
    } else {
        Seq::empty()
    }
}

/// The `Set-Cookie` field, apart from its expiry, that a response from
/// [`source_text`] would send to store a cookie.
pub open spec fn field_text(entry: EntryView) -> Seq<char> {
    entry.name + "="@ + entry.value + "; Path="@ + entry.path + when(
        !entry.host_only,
        "; Domain="@ + entry.domain,
    ) + when(entry.secure, "; Secure"@) + when(entry.http_only, "; HttpOnly"@) + (match entry.same_site {
        Some(same_site) => "; SameSite="@ + same_site.text(),
        None => Seq::empty(),
    }) + when(entry.partition_key is Some, "; Partitioned"@)
}

/// The root URL of a cookie's host under its source scheme.
pub open spec fn source_text(entry: EntryView) -> Seq<char> {
    entry.source_scheme.text() + "://"@ + entry.domain + "/"@
}

/// The parts of [`source_text`], when the domain is a canonical host.
pub open spec fn source(entry: EntryView) -> Option<UrlView> {
    match url_parts(source_text(entry)) {
        Some(url) => if url.scheme == entry.source_scheme.text() && url.host_text == Some(
            entry.domain,
        ) && url.path == "/"@ {
            Some(url)
        } else {
            None
        },
        None => None,
    }
}

/// Whether the stored form of the synthesized field is exactly the entry, so
/// no part was rewritten or injected by parsing.
pub open spec fn described(entry: EntryView, found: CandidateView) -> bool {
    &&& found.raw.name == entry.name
    &&& found.raw.value == entry.value
    &&& found.key.domain == entry.domain
    &&& found.key.host_only == entry.host_only
    &&& found.key.path == entry.path
    &&& found.raw.secure == entry.secure
    &&& found.raw.http_only == entry.http_only
    &&& same_site_named(found.raw.same_site) == entry.same_site
}

/// The cookie that an entry describes, or why an import rejects it.
pub open spec fn checked(entry: EntryView, limits: CookieLimits) -> Result<
    CandidateView,
    CookieSnapshotErrorKind,
> {
    match source(entry) {
        None => Err(CookieSnapshotErrorKind::InvalidCookie),
        Some(url) => if !entry.host_only && is_public_suffix(entry.domain) {
            Err(CookieSnapshotErrorKind::PublicSuffix)
        } else {
            match candidate(field_text(entry), url, limits) {
                Err(error) => Err(CookieSnapshotErrorKind::storage(error.kind)),
                Ok(found) => if found.partition_site != entry.partition_key {
                    Err(CookieSnapshotErrorKind::InvalidPartitionKey)
                } else if !described(entry, found) {
                    Err(CookieSnapshotErrorKind::InvalidCookie)
                } else {
                    Ok(found)
                },
            }
        },
    }
}

/// A revalidated snapshot entry awaiting insertion.
pub struct ImportCandidate {
    pub candidate: Candidate,
    pub url: Url,
    pub expires_at: Option<SystemTime>,
}

impl ImportCandidate {
    /// The candidate can be stored as from its URL.
    pub open spec fn wf(self) -> bool {
        &&& from_field(self.candidate@, self.url@)
        &&& self.url.wf()
        &&& self.url@.scheme == "http"@ || self.url@.scheme == "https"@
        &&& self.candidate@.key.host_only ==> self.url@.host_text == Some(
            self.candidate@.key.domain,
        )
    }
}

impl CookieSnapshotEntry {
    /// Returns the `Set-Cookie` field, apart from its expiry, that a response
    /// from [`Self::source_url`] would send to store this cookie.
    fn set_cookie_field(&self) -> (r: String)
        ensures
            r@ == field_text(self@),
    {
        let mut field = self.name.clone();
        field.append("=");
        field.append(self.value.as_str());
        field.append("; Path=");
        field.append(self.path.as_str());
        let ghost head = self@.name + "="@ + self@.value + "; Path="@ + self@.path;
        assert(field@ =~= head);
        if !self.host_only {
            field.append("; Domain=");
            field.append(self.domain.as_str());
        }
        let ghost domain = head + when(!self.host_only, "; Domain="@ + self@.domain);
        assert(field@ =~= domain);
        if self.secure {
            field.append("; Secure");
        }
        let ghost secure = domain + when(self.secure, "; Secure"@);
        assert(field@ =~= secure);
        if self.http_only {
            field.append("; HttpOnly");
        }
        let ghost http_only = secure + when(self.http_only, "; HttpOnly"@);
        assert(field@ =~= http_only);
        match self.same_site {
            Some(same_site) => {
                field.append("; SameSite=");
                field.append(same_site.as_str());
            },
            None => {},
        }
        let ghost same_site = http_only + (match self.same_site {
            Some(same_site) => "; SameSite="@ + same_site.text(),
            None => Seq::empty(),
        });
        assert(field@ =~= same_site);
        if self.partition_key.is_some() {
            field.append("; Partitioned");
        }
        assert(field@ =~= same_site + when(self.partition_key is Some, "; Partitioned"@));
        field
    }

    /// Returns the root URL of the cookie's host under its source scheme,
    /// when the domain is a canonical host.
    fn source_url(&self) -> (r: Option<Url>)
        ensures
            match r {
                Some(url) => source(self@) == Some(url@) && url.wf(),
                None => source(self@) is None,
            },
    {
        let mut text = self.source_scheme.as_str().to_owned();
        text.append("://");
        text.append(self.domain.as_str());
        text.append("/");
        assert(text@ =~= source_text(self@));
        let url = match parse_url(text.as_str()) {
            Some(url) => url,
            None => {
                return None;
            },
        };
        let same_host = match &url.host_text {
            Some(host) => *host == self.domain,
            None => false,
        };
        if same_host && same_text(url.scheme.as_str(), self.source_scheme.as_str()) && same_text(
            url.path.as_str(),
            "/",
        ) {
            Some(url)
        } else {
            None
        }
    }

    /// Returns whether the stored form of the synthesized field is exactly
    /// this entry.
    fn describes(&self, found: &Candidate) -> (r: bool)
        ensures
            r == described(self@, found@),
    {
        found.raw.name == self.name && found.raw.value == self.value && found.key.domain
            == self.domain && found.key.host_only == self.host_only && found.key.path == self.path
            && found.raw.secure == self.secure && found.raw.http_only == self.http_only
            && same_site_eq(parse_same_site(&found.raw.same_site), self.same_site)
    }

    /// Revalidates the entry as a `Set-Cookie` field from its source URL.
    fn validate(&self, limits: CookieLimits) -> (r: Result<ImportCandidate, CookieSnapshotErrorKind>)
        ensures
            match r {
                Ok(import) => checked(self@, limits) == Ok::<_, CookieSnapshotErrorKind>(
                    import.candidate@,
                ) && import.wf() && import.expires_at == self.expires_at,
                Err(kind) => checked(self@, limits) == Err::<CandidateView, _>(kind),
            },
    {
        let url = match self.source_url() {
            Some(url) => url,
            None => {
                return Err(CookieSnapshotErrorKind::InvalidCookie);
            },
        };
        // Storage turns a public-suffix `Domain` equal to the host into a
        // host-only cookie, so no stored domain cookie has one.
        if !self.host_only && public_suffix(&self.domain) {
            return Err(CookieSnapshotErrorKind::PublicSuffix);
        }
        let field = self.set_cookie_field();
        let candidate = match Candidate::new(field.as_str(), &url, limits) {
            Ok(candidate) => candidate,
            Err(error) => {
                return Err(CookieSnapshotErrorKind::from_storage(error.kind()));
            },
        };
        let same_partition = match (&candidate.partition_site, &self.partition_key) {
            (Some(site), Some(key)) => *site == *key,
            (None, None) => true,
            _ => false,
        };
        if !same_partition {
            return Err(CookieSnapshotErrorKind::InvalidPartitionKey);
        }
        if !self.describes(&candidate) {
            return Err(CookieSnapshotErrorKind::InvalidCookie);
        }
        Ok(ImportCandidate { candidate, url, expires_at: self.expires_at })
    }
}

/// The expiry that an export gives a cookie, down to a whole second; nothing
/// for a cookie that it leaves out, because no whole second after `now` is
/// left of it.
pub open spec fn exported_expiry(expires: Option<int>, now: SystemTime) -> Option<
    Option<SystemTime>,
> {
    match expires {
        None => Some(None),
        Some(at) => {
            let whole = SystemTime { nanos: at as i128 }.floored();
            if at >= 0 && whole.nanos > now.nanos {
                Some(Some(whole))
            } else {
                None
            }
        },
    }
}

/// The entry that an export makes of a cookie.
pub open spec fn exported_entry(record: RecordView, expires_at: Option<SystemTime>) -> EntryView {
    EntryView {
        source_scheme: record.source_scheme,
        name: record.key.name,
        value: record.value,
        domain: record.key.domain,
        host_only: record.key.host_only,
        path: record.key.path,
        secure: record.secure,
        http_only: record.http_only,
        same_site: record.same_site,
        partition_key: record.partition_site,
        expires_at,
    }
}

/// The entries that an export makes of the cookies at some positions.
pub open spec fn exported_at(
    records: Seq<RecordView>,
    order: Seq<int>,
    now: SystemTime,
) -> Seq<EntryView>
    decreases order.len(),
{
    if order.len() == 0 {
        Seq::empty()
    } else {
        let before = exported_at(records, order.drop_last(), now);
        let record = records[order.last()];
        match exported_expiry(record.expires, now) {
            Some(expires_at) => before.push(exported_entry(record, expires_at)),
            None => before,
        }
    }
}

/// When an imported cookie expires; nothing for one that has expired at
/// `now`. The time is rounded down to a whole second and is at most the
/// latest one that storage keeps.
pub open spec fn imported_expiry(expires_at: Option<SystemTime>, now: SystemTime) -> Option<
    Option<int>,
> {
    match expires_at {
        None => Some(None),
        Some(at) => {
            let whole = at.floored().nanos as int;
            let kept = if whole <= MAX_EXPIRY_NANOS {
                whole
            } else {
                MAX_EXPIRY_NANOS as int
            };
            if at.nanos > now.nanos && at.nanos >= 0 && kept > now.nanos {
                Some(Some(kept))
            } else {
                None
            }
        },
    }
}

/// A revalidated entry: its cookie and its expiry.
pub struct ImportView {
    pub found: CandidateView,
    pub expires_at: Option<SystemTime>,
}

/// A cookie that an import adds.
pub struct AddedView {
    pub found: CandidateView,
    pub expires: Option<int>,
}

/// How many of some cookies belong to a registrable domain.
pub open spec fn added_to(added: Seq<AddedView>, domain: Seq<char>) -> nat
    decreases added.len(),
{
    if added.len() == 0 {
        0
    } else {
        added_to(added.skip(1), domain) + (if quota_domain(added[0].found.key.domain) == domain {
            1nat
        } else {
            0nat
        })
    }
}

/// Whether an import adds an entry, where `later` follow it in the snapshot
/// and `added` of those are added: a later entry with the same key, a held
/// cookie, a held `Secure` cookie that it would hide and a full jar or domain
/// go before it.
pub open spec fn admissible(
    held: Seq<RecordView>,
    entry: ImportView,
    later: Seq<ImportView>,
    added: Seq<AddedView>,
    limits: CookieLimits,
    now: SystemTime,
) -> bool {
    let key = entry.found.key;
    let domain = quota_domain(key.domain);
    &&& forall|j: int| 0 <= j < later.len() ==> (#[trigger] later[j]).found.key != key
    &&& imported_expiry(entry.expires_at, now) is Some
    &&& held_at(held, key) is None
    &&& entry.found.trusted || !hides_secure(held, key, now)
    &&& held.len() + added.len() < limits.max_cookies
    &&& count(held, Some(domain)) + added_to(added, domain) < limits.max_cookies_per_domain
}

/// The cookies that an import adds beside the held ones, oldest first. The
/// newest entries are taken first.
pub open spec fn admitted(
    held: Seq<RecordView>,
    entries: Seq<ImportView>,
    limits: CookieLimits,
    now: SystemTime,
) -> Seq<AddedView>
    decreases entries.len(),
{
    if entries.len() == 0 {
        Seq::empty()
    } else {
        let later = entries.skip(1);
        let added = admitted(held, later, limits, now);
        if admissible(held, entries[0], later, added, limits, now) {
            seq![
                AddedView {
                    found: entries[0].found,
                    expires: imported_expiry(entries[0].expires_at, now)->0,
                },
            ] + added
        } else {
            added
        }
    }
}

/// What a list of revalidated entries holds.
pub open spec fn imports(entries: Seq<EntryView>, limits: CookieLimits) -> Seq<ImportView> {
    entries.map_values(
        |entry: EntryView|
            ImportView { found: checked(entry, limits)->Ok_0, expires_at: entry.expires_at },
    )
}

/// The first entry that an import rejects.
pub open spec fn first_rejected(entries: Seq<EntryView>, limits: CookieLimits, i: int) -> bool {
    &&& 0 <= i < entries.len()
    &&& checked(entries[i], limits) is Err
    &&& forall|j: int| 0 <= j < i ==> checked(#[trigger] entries[j], limits) is Ok
}

impl JarView {
    /// The entries of an export at `now`, in creation order.
    pub open spec fn exported(self, now: SystemTime) -> Seq<EntryView> {
        let clean = self.purged(now);
        exported_at(clean.records, creation(clean.records), now)
    }

    /// The state with cookies added, created and used in order from the first
    /// position on.
    pub open spec fn with_added(self, added: Seq<AddedView>) -> JarView
        decreases added.len(),
    {
        if added.len() == 0 {
            self
        } else {
            let at = (added.len() - 1) as u64;
            self.with_added(added.drop_last()).put(
                added.last().found,
                added.last().expires,
                at,
                at,
            )
        }
    }

    /// The state after an import at `now`: the added cookies are created and
    /// used before every held one.
    pub open spec fn imported(
        self,
        entries: Seq<EntryView>,
        limits: CookieLimits,
        now: SystemTime,
    ) -> JarView {
        let clean = self.purged(now);
        let added = admitted(clean.records, imports(entries, limits), limits, now);
        clean.shifted(added.len() as u64).with_added(added)
    }
}

fn export_expiry(expires: Option<i128>, now: SystemTime) -> (r: Option<Option<SystemTime>>)
    ensures
        r == exported_expiry(nanos_view(expires), now),
{
    match expires {
        None => Some(None),
        Some(at) => {
            let whole = (SystemTime { nanos: at }).floor_to_second();
            if at >= 0 && whole.nanos > now.nanos {
                Some(Some(whole))
            } else {
                None
            }
        },
    }
}

/// Returns when an imported cookie expires, or `None` when that is not after
/// `now`.
fn import_expiry(expires_at: Option<SystemTime>, now: SystemTime) -> (r: Option<Option<i128>>)
    ensures
        (match r {
            Some(expires) => Some(nanos_view(expires)),
            None => None,
        }) == imported_expiry(expires_at, now),
        r matches Some(Some(at)) ==> at <= MAX_EXPIRY_NANOS,
{
    match expires_at {
        None => Some(None),
        Some(at) => {
            let whole: i128 = at.floor_to_second().nanos;
            let kept: i128 = if whole <= MAX_EXPIRY_NANOS {
                whole
            } else {
                MAX_EXPIRY_NANOS
            };
            if at.nanos > now.nanos && at.nanos >= 0 && kept > now.nanos {
                Some(Some(kept))
            } else {
                None
            }
        },
    }
}

impl CookieJar {
    /// Returns the cookies that have not expired at `now`, in creation order.
    pub fn export(&mut self, now: SystemTime) -> (r: CookieSnapshot)
        requires
            old(self).wf(),
        ensures
            final(self).wf(),
            final(self).limits == old(self).limits,
            final(self)@ == old(self)@.purged(now),
            r@ == old(self)@.exported(now),
    {
        proof {
            purging_keeps_within_the_limits(self@, self.limits, now);
        }
        self.state.purge_expired(now);
        let order = self.state.creation_order();
        let ghost list = ints(order@);
        let ghost records = self@.records;
        let mut entries: Vec<CookieSnapshotEntry> = Vec::new();
        let mut k: usize = 0;
        assert(list.take(0) =~= Seq::empty());
        assert(entries_view(entries@) =~= Seq::empty());
        while k < order.len()
            invariant
                k <= order.len(),
                list == ints(order@),
                self.state.wf(),
                self@.records == records,
                forall|k: int| 0 <= k < order.len() ==> #[trigger] order[k] < records.len(),
                entries_view(entries@) == exported_at(records, list.take(k as int), now),
            decreases order.len() - k,
        {
            assert(list.take(k + 1).drop_last() =~= list.take(k as int));
            assert(list.take(k + 1).last() == order[k as int]);
            let held = self.state.held(order[k]);
            match export_expiry(held.expires, now) {
                Some(expires_at) => {
                    let ghost before = entries@;
                    entries.push(
                        CookieSnapshotEntry {
                            source_scheme: held.source_scheme,
                            name: held.key.name,
                            value: held.value,
                            domain: held.key.domain,
                            host_only: held.key.host_only,
                            path: held.key.path,
                            secure: held.secure,
                            http_only: held.http_only,
                            same_site: held.same_site,
                            partition_key: held.partition_site,
                            expires_at,
                        },
                    );
                    assert(entries_view(entries@) =~= entries_view(before).push(
                        entries@.last()@,
                    ));
                },
                None => {},
            }
            k += 1;
        }
        assert(list.take(k as int) =~= list);
        CookieSnapshot { entries }
    }
}

/// Whether a jar holds none of some cookies, and none of them occurs twice.
pub open spec fn all_new(records: Seq<RecordView>, added: Seq<AddedView>) -> bool {
    &&& forall|k: int, i: int|
        0 <= k < added.len() && 0 <= i < records.len() ==> (#[trigger] added[k]).found.key != (
        #[trigger] records[i]).key
    &&& forall|k: int, j: int|
        0 <= k < j < added.len() ==> (#[trigger] added[k]).found.key != (
        #[trigger] added[j]).found.key
}

/// The cookies that some entries become.
pub open spec fn added_records(added: Seq<AddedView>) -> Seq<RecordView> {
    Seq::new(
        added.len(),
        |k: int| record_of(added[k].found, added[k].expires, k as u64, k as u64),
    )
}

/// An import adds only cookies of its entries that the jar does not hold, and
/// none of them twice, and keeps within the limits.
pub proof fn lemma_admitted(
    held: Seq<RecordView>,
    entries: Seq<ImportView>,
    limits: CookieLimits,
    now: SystemTime,
)
    ensures
        all_new(held, admitted(held, entries, limits, now)),
        forall|k: int|
            0 <= k < admitted(held, entries, limits, now).len() ==> exists|j: int|
                0 <= j < entries.len() && (#[trigger] entries[j]).found == (#[trigger] admitted(
                    held,
                    entries,
                    limits,
                    now,
                )[k]).found,
        admitted(held, entries, limits, now).len() <= entries.len(),
    decreases entries.len(),
{
    if entries.len() > 0 {
        let later = entries.skip(1);
        let added = admitted(held, later, limits, now);
        let all = admitted(held, entries, limits, now);
        lemma_admitted(held, later, limits, now);
        assert forall|k: int| 0 <= k < added.len() implies exists|j: int|
            1 <= j < entries.len() && (#[trigger] entries[j]).found == (#[trigger] added[k]).found by {
            let j = choose|j: int| 0 <= j < later.len() && later[j].found == added[k].found;
            assert(entries[j + 1] == later[j]);
        }
        if admissible(held, entries[0], later, added, limits, now) {
            assert forall|k: int| 0 <= k < added.len() implies (
            #[trigger] added[k]).found.key != entries[0].found.key by {
                let j = choose|j: int| 0 <= j < later.len() && later[j].found == added[k].found;
            }
            assert forall|k: int| 1 <= k < all.len() implies #[trigger] all[k] == added[k - 1] by {}
            assert forall|k: int| 0 <= k < all.len() implies exists|j: int|
                0 <= j < entries.len() && (#[trigger] entries[j]).found == (
                #[trigger] all[k]).found by {
                if k == 0 {
                    assert(entries[0].found == all[0].found);
                } else {
                    assert(all[k] == added[k - 1]);
                }
            }
        }
    }
}

/// Cookies that a jar does not hold go behind the held ones.
pub proof fn lemma_with_added(jar: JarView, added: Seq<AddedView>)
    requires
        all_new(jar.records, added),
    ensures
        jar.with_added(added) == (JarView {
            records: jar.records + added_records(added),
            ..jar
        }),
    decreases added.len(),
{
    if added.len() == 0 {
        assert(jar.records + added_records(added) =~= jar.records);
    } else {
        let front = added.drop_last();
        assert(all_new(jar.records, front));
        lemma_with_added(jar, front);
        let before = jar.records + added_records(front);
        assert forall|i: int| 0 <= i < before.len() implies (
        #[trigger] before[i]).key != added.last().found.key by {
            if i < jar.records.len() {
                assert(added[added.len() - 1].found.key != jar.records[i].key);
            } else {
                let k = i - jar.records.len();
                assert(added[k].found.key != added[added.len() - 1].found.key);
                assert(before[i].key == added[k].found.key);
            }
        }
        assert(held_at(before, added.last().found.key) is None);
        assert(jar.records + added_records(added) =~= before.push(
            record_of(
                added.last().found,
                added.last().expires,
                (added.len() - 1) as u64,
                (added.len() - 1) as u64,
            ),
        ));
    }
}

/// A revalidated entry that an import adds: its place in the snapshot and its
/// expiry.
struct Accepted {
    index: usize,
    expires: Option<i128>,
}

/// What entries taken newest first add, oldest first.
spec fn accepted_view(accepted: Seq<Accepted>, imports: Seq<ImportView>) -> Seq<AddedView> {
    Seq::new(
        accepted.len(),
        |k: int|
            AddedView {
                found: imports[accepted[accepted.len() - 1 - k].index as int].found,
                expires: nanos_view(accepted[accepted.len() - 1 - k].expires),
            },
    )
}

fn accepted_to(
    accepted: &Vec<Accepted>,
    validated: &Vec<ImportCandidate>,
    domain: &String,
    Ghost(imports): Ghost<Seq<ImportView>>,
) -> (r: usize)
    requires
        validated@.len() == imports.len(),
        forall|j: int|
            0 <= j < imports.len() ==> (#[trigger] imports[j]).found == validated@[j].candidate@,
        forall|k: int| 0 <= k < accepted@.len() ==> (#[trigger] accepted@[k]).index < imports.len(),
    ensures
        r == added_to(accepted_view(accepted@, imports), domain@),
        r <= accepted@.len(),
{
    let ghost all = accepted_view(accepted@, imports);
    let mut n: usize = 0;
    let mut k: usize = 0;
    assert(all.skip(all.len() as int) =~= Seq::empty());
    while k < accepted.len()
        invariant
            k <= accepted@.len(),
            n <= k,
            all == accepted_view(accepted@, imports),
            n == added_to(all.skip(all.len() - k), domain@),
            validated@.len() == imports.len(),
            forall|j: int|
                0 <= j < imports.len() ==> (#[trigger] imports[j]).found
                    == validated@[j].candidate@,
            forall|k: int|
                0 <= k < accepted@.len() ==> (#[trigger] accepted@[k]).index < imports.len(),
        decreases accepted@.len() - k,
    {
        let ghost rest = all.skip(all.len() - k - 1);
        assert(rest.skip(1) =~= all.skip(all.len() - k));
        let index: usize = accepted[k].index;
        assert(rest[0].found == imports[index as int].found);
        if quota_domain_of(&validated[index].candidate.key.domain) == *domain {
            n += 1;
        }
        k += 1;
    }
    assert(all.skip(0) =~= all);
    n
}

impl CookieJar {
    /// Returns what an import adds for an entry, if it adds it.
    #[verifier::loop_isolation(false)]
    fn admits(
        &self,
        i: usize,
        validated: &Vec<ImportCandidate>,
        accepted: &Vec<Accepted>,
        now: SystemTime,
        Ghost(imports): Ghost<Seq<ImportView>>,
    ) -> (r: Option<Accepted>)
        requires
            self.state.wf(),
            i < validated@.len(),
            validated@.len() == imports.len(),
            forall|j: int|
                0 <= j < imports.len() ==> (#[trigger] imports[j]) == (ImportView {
                    found: validated@[j].candidate@,
                    expires_at: validated@[j].expires_at,
                }),
            forall|k: int|
                0 <= k < accepted@.len() ==> (#[trigger] accepted@[k]).index < imports.len(),
            self@.records.len() + accepted@.len() <= usize::MAX,
        ensures
            r is Some == admissible(
                self@.records,
                imports[i as int],
                imports.skip(i + 1),
                accepted_view(accepted@, imports),
                self.limits,
                now,
            ),
            r matches Some(entry) ==> entry.index == i && imported_expiry(
                imports[i as int].expires_at,
                now,
            ) == Some(nanos_view(entry.expires)) && (entry.expires matches Some(at) ==> at
                <= MAX_EXPIRY_NANOS),
    {
        let found = &validated[i].candidate;
        let ghost later = imports.skip(i + 1);
        let ghost key = found@.key;
        let n: usize = validated.len();
        let mut j: usize = i + 1;
        while j < n
            invariant
                i < j <= validated@.len(),
                validated@.len() == imports.len(),
                later == imports.skip(i + 1),
                key == found.key@,
                forall|j: int|
                    0 <= j < imports.len() ==> (#[trigger] imports[j]) == (ImportView {
                        found: validated@[j].candidate@,
                        expires_at: validated@[j].expires_at,
                    }),
                forall|k: int| 0 <= k < j - i - 1 ==> (#[trigger] later[k]).found.key != key,
            decreases validated@.len() - j,
        {
            assert(later[j - i - 1] == imports[j as int]);
            if validated[j].candidate.key.same(&found.key) {
                assert(later[j - i - 1].found.key == key);
                return None;
            }
            j += 1;
        }
        let expires = match import_expiry(validated[i].expires_at, now) {
            Some(expires) => expires,
            None => {
                return None;
            },
        };
        if self.state.find(&found.key).is_some() {
            return None;
        }
        if !found.trusted && self.state.would_hide_secure(&found.key, now) {
            return None;
        }
        let domain = quota_domain_of(&found.key.domain);
        if self.state.len() + accepted.len() >= self.limits.max_cookies {
            return None;
        }
        let held_count: usize = self.state.count(Some(&domain));
        let added: usize = accepted_to(accepted, validated, &domain, Ghost(imports));
        if held_count + added >= self.limits.max_cookies_per_domain {
            return None;
        }
        Some(Accepted { index: i, expires })
    }
}

/// The revalidated entries of a snapshot.
pub open spec fn validated_view(validated: Seq<ImportCandidate>) -> Seq<ImportView> {
    validated.map_values(
        |import: ImportCandidate|
            ImportView { found: import.candidate@, expires_at: import.expires_at },
    )
}

/// Whether an import accepts every entry.
pub open spec fn all_accepted(entries: Seq<EntryView>, limits: CookieLimits) -> bool {
    forall|j: int| 0 <= j < entries.len() ==> checked(#[trigger] entries[j], limits) is Ok
}

/// Revalidates every entry of a snapshot.
fn validate_all(snapshot: &CookieSnapshot, limits: CookieLimits) -> (r: Result<
    Vec<ImportCandidate>,
    CookieSnapshotError,
>)
    ensures
        match r {
            Ok(validated) => {
                &&& all_accepted(snapshot@, limits)
                &&& validated_view(validated@) == imports(snapshot@, limits)
                &&& forall|j: int| 0 <= j < validated@.len() ==> (#[trigger] validated@[j]).wf()
            },
            Err(error) => error.entry matches Some(i) && first_rejected(
                snapshot@,
                limits,
                i as int,
            ) && checked(snapshot@[i as int], limits) == Err::<CandidateView, _>(error.kind),
        },
{
    let ghost entries = snapshot@;
    let mut validated: Vec<ImportCandidate> = Vec::new();
    let mut i: usize = 0;
    while i < snapshot.entries.len()
        invariant
            i <= entries.len(),
            entries == snapshot@,
            validated@.len() == i,
            forall|j: int| 0 <= j < i ==> checked(#[trigger] entries[j], limits) is Ok,
            forall|j: int|
                0 <= j < i ==> (#[trigger] validated@[j]).wf() && validated@[j].expires_at
                    == entries[j].expires_at && checked(entries[j], limits) == Ok::<
                    _,
                    CookieSnapshotErrorKind,
                >(validated@[j].candidate@),
        decreases entries.len() - i,
    {
        assert(entries[i as int] == snapshot.entries@[i as int]@);
        match snapshot.entries[i].validate(limits) {
            Ok(import) => {
                validated.push(import);
            },
            Err(kind) => {
                return Err(CookieSnapshotError { kind, entry: Some(i) });
            },
        }
        i += 1;
    }
    assert(validated_view(validated@) =~= imports(entries, limits));
    Ok(validated)
}

impl CookieJar {
    /// Validates every entry, then adds cookies that have not expired at
    /// `now` and that the jar does not already hold, created and used before
    /// every held cookie.
    ///
    /// This never displaces held state: a held cookie with the same key wins,
    /// and the count bounds admit imports only up to the limit rather than
    /// evicting. A later entry with the same key wins over an earlier one, and
    /// capacity keeps the newest entries.
    pub fn import(&mut self, snapshot: &CookieSnapshot, now: SystemTime) -> (r: Result<
        (),
        CookieSnapshotError,
    >)
        requires
            old(self).wf(),
        ensures
            final(self).wf(),
            final(self).limits == old(self).limits,
            r is Ok == all_accepted(snapshot@, old(self).limits),
            r is Ok ==> final(self)@ == old(self)@.imported(snapshot@, old(self).limits, now),
            r matches Err(error) ==> {
                &&& final(self)@ == old(self)@
                &&& error.entry matches Some(i) && first_rejected(
                    snapshot@,
                    old(self).limits,
                    i as int,
                ) && checked(snapshot@[i as int], old(self).limits) == Err::<CandidateView, _>(
                    error.kind,
                )
            },
    {
        let validated = match validate_all(snapshot, self.limits) {
            Ok(validated) => validated,
            Err(error) => {
                return Err(error);
            },
        };
        proof {
            importing_keeps_within_the_limits(self@, snapshot@, self.limits, now);
        }
        self.state.purge_expired(now);
        let held: usize = self.state.len();
        assert(self@.records.len() == held);
        let ghost entries = imports(snapshot@, self.limits);
        let ghost clean = self@;
        let ghost limits = self.limits;
        assert forall|j: int| 0 <= j < entries.len() implies (#[trigger] entries[j]) == (
        ImportView { found: validated@[j].candidate@, expires_at: validated@[j].expires_at }) by {
            assert(entries[j] == validated_view(validated@)[j]);
        }
        let mut accepted: Vec<Accepted> = Vec::new();
        let mut i: usize = validated.len();
        assert(entries.skip(entries.len() as int) =~= Seq::empty());
        assert(accepted_view(accepted@, entries) =~= Seq::empty());
        while i > 0
            invariant
                i <= validated@.len(),
                self.state.wf(),
                self@ == clean,
                self.limits == limits,
                validated@.len() == entries.len(),
                forall|j: int|
                    0 <= j < entries.len() ==> (#[trigger] entries[j]) == (ImportView {
                        found: validated@[j].candidate@,
                        expires_at: validated@[j].expires_at,
                    }),
                forall|k: int|
                    0 <= k < accepted@.len() ==> (#[trigger] accepted@[k]).index < entries.len()
                        && (accepted@[k].expires matches Some(at) ==> at <= MAX_EXPIRY_NANOS),
                clean.records.len() + accepted@.len() <= usize::MAX,
                accepted_view(accepted@, entries) == admitted(
                    clean.records,
                    entries.skip(i as int),
                    limits,
                    now,
                ),
            decreases i,
        {
            i -= 1;
            let ghost rest = entries.skip(i as int);
            assert(rest.skip(1) =~= entries.skip(i + 1));
            assert(rest[0] == entries[i as int]);
            match self.admits(i, &validated, &accepted, now, Ghost(entries)) {
                Some(entry) => {
                    let ghost before = accepted@;
                    accepted.push(entry);
                    assert(accepted_view(accepted@, entries) =~= seq![
                        AddedView {
                            found: entries[i as int].found,
                            expires: nanos_view(entry.expires),
                        },
                    ] + accepted_view(before, entries));
                },
                None => {},
            }
        }
        let ghost added = accepted_view(accepted@, entries);
        assert(entries.skip(0) =~= entries);
        proof {
            lemma_admitted(clean.records, entries, limits, now);
        }
        self.state.shift(accepted.len() as u64);
        let ghost base = self@;
        assert(all_new(base.records, added)) by {
            assert forall|k: int, m: int|
                0 <= k < added.len() && 0 <= m < base.records.len() implies (
            #[trigger] added[k]).found.key != (#[trigger] base.records[m]).key by {
                assert(added[k].found.key != clean.records[m].key);
            }
        }
        let mut left: usize = accepted.len();
        assert(added.take(0) =~= Seq::empty());
        while left > 0
            invariant
                left <= accepted@.len(),
                self.state.wf(),
                self.limits == limits,
                added == accepted_view(accepted@, entries),
                all_new(base.records, added),
                self@ == base.with_added(added.take(accepted@.len() - left)),
                validated@.len() == entries.len(),
                forall|j: int| 0 <= j < validated@.len() ==> (#[trigger] validated@[j]).wf(),
                forall|j: int|
                    0 <= j < entries.len() ==> (#[trigger] entries[j]) == (ImportView {
                        found: validated@[j].candidate@,
                        expires_at: validated@[j].expires_at,
                    }),
                forall|k: int|
                    0 <= k < accepted@.len() ==> (#[trigger] accepted@[k]).index < entries.len()
                        && (accepted@[k].expires matches Some(at) ==> at <= MAX_EXPIRY_NANOS),
            decreases left,
        {
            let position: u64 = (accepted.len() - left) as u64;
            left -= 1;
            let index: usize = accepted[left].index;
            let ghost before = added.take(position as int);
            let ghost next = added.take(position + 1);
            assert(next.drop_last() =~= before);
            assert(next.last() == added[position as int]);
            assert(validated@[index as int].wf());
            assert(entries[index as int].found == validated@[index as int].candidate@);
            proof {
                assert(all_new(base.records, before));
                lemma_with_added(base, before);
                let key = added[position as int].found.key;
                assert forall|m: int| 0 <= m < self@.records.len() implies (
                #[trigger] self@.records[m]).key != key by {
                    if m < base.records.len() {
                        assert(added[position as int].found.key != base.records[m].key);
                    } else {
                        let k = m - base.records.len();
                        assert(self@.records[m].key == added[k].found.key);
                        assert(added[k].found.key != added[position as int].found.key);
                    }
                }
            }
            let expires = accepted[left].expires;
            self.state.add(
                &validated[index].candidate,
                &validated[index].url,
                expires,
                position,
            );
        }
        assert(added.take(accepted@.len() as int) =~= added);
        Ok(())
    }
}

} // verus!
