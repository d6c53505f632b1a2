//! What a cookie jar holds, as a value: which cookies are sent, replaced and
//! evicted.

use vstd::prelude::*;
use vstd::utf8::encode_utf8;
use crate::cookies::outside::{raw_cookie, resolved_cookie};
use crate::cookies::rules::{
    candidate, expiry, goes_with, overlays, quota_domain, schemeful_site, CandidateView,
    CookieKeyView, MAX_EXPIRY_NANOS,
};
use crate::cookies::types::{
    same_site_named, CookieError, CookieErrorKind, CookieErrorView, CookieLimits, CookieSameSite,
    CookieSourceScheme,
};
use crate::endpoint::HeaderView;
use crate::host::UrlView;
use crate::text::{text_before, visible};
use crate::time::SystemTime;

verus! {

/// A cookie in the jar.
pub struct RecordView {
    pub key: CookieKeyView,
    pub value: Seq<char>,
    pub secure: bool,
    pub http_only: bool,
    pub same_site: Option<CookieSameSite>,
    /// Nanoseconds from the start of 1970; nothing for a session cookie.
    pub expires: Option<int>,
    /// Creation order, kept when the cookie is replaced.
    pub sequence: u64,
    /// Order of the most recent store or send, used for eviction.
    pub last_access: u64,
    /// Registrable domain the per-domain limit counts against.
    pub quota_domain: Seq<char>,
    /// Top-level site of a `Partitioned` cookie.
    pub partition_site: Option<Seq<char>>,
    pub source_scheme: CookieSourceScheme,
}

/// The state of a jar.
pub struct JarView {
    pub records: Seq<RecordView>,
    pub next_sequence: u64,
    pub next_access: u64,
}

/// Whether a cookie has expired at `now`.
pub open spec fn expired(record: RecordView, now: SystemTime) -> bool {
    record.expires matches Some(at) && at <= now.nanos
}

/// The cookies that have not expired at `now`.
pub open spec fn live(records: Seq<RecordView>, now: SystemTime) -> Seq<RecordView>
    decreases records.len(),
{
    if records.len() == 0 {
        records
    } else if expired(records.last(), now) {
        live(records.drop_last(), now)
    } else {
        live(records.drop_last(), now).push(records.last())
    }
}

/// The number after `n`, which stays at the largest one.
pub open spec fn after(n: u64) -> u64 {
    if n == u64::MAX {
        n
    } else {
        (n + 1) as u64
    }
}

/// Whether no cookie occurs twice.
pub open spec fn unique(records: Seq<RecordView>) -> bool {
    forall|i: int, j: int|
        0 <= i < j < records.len() ==> (#[trigger] records[i]).key != (#[trigger] records[j]).key
}

/// Where the jar holds a cookie.
pub open spec fn held_at(records: Seq<RecordView>, key: CookieKeyView) -> Option<int> {
    if exists|i: int| 0 <= i < records.len() && (#[trigger] records[i]).key == key {
        Some(choose|i: int| 0 <= i < records.len() && (#[trigger] records[i]).key == key)
    } else {
        None
    }
}

/// Whether a cookie from an untrusted origin would hide a held `Secure`
/// cookie outside partitions.
pub open spec fn hides_secure(records: Seq<RecordView>, key: CookieKeyView, now: SystemTime) -> bool {
    exists|i: int|
        0 <= i < records.len() && !(#[trigger] records[i]).key.partitioned && !expired(
            records[i],
            now,
        ) && overlays(key, records[i].key, records[i].secure)
}

/// The cookie that a candidate becomes.
pub open spec fn record_of(
    found: CandidateView,
    expires: Option<int>,
    sequence: u64,
    last_access: u64,
) -> RecordView {
    RecordView {
        key: found.key,
        value: found.raw.value,
        secure: found.raw.secure,
        http_only: found.raw.http_only,
        same_site: same_site_named(found.raw.same_site),
        expires,
        sequence,
        last_access,
        quota_domain: quota_domain(found.key.domain),
        partition_site: found.partition_site,
        source_scheme: found.source_scheme,
    }
}

/// Whether a cookie counts against a domain's limit, or against the total.
pub open spec fn counts(record: RecordView, domain: Option<Seq<char>>) -> bool {
    domain matches Some(domain) ==> record.quota_domain == domain
}

/// How many cookies count against a limit.
pub open spec fn count(records: Seq<RecordView>, domain: Option<Seq<char>>) -> nat
    decreases records.len(),
{
    if records.len() == 0 {
        0
    } else {
        count(records.drop_last(), domain) + (if counts(records.last(), domain) {
            1nat
        } else {
            0nat
        })
    }
}

/// Whether the cookie at `i` is evicted before the one at `j`: one that is
/// not `Secure` first, then the least recently used one.
pub open spec fn leaves_before(records: Seq<RecordView>, i: int, j: int) -> bool {
    if records[i].secure != records[j].secure {
        !records[i].secure
    } else if records[i].last_access != records[j].last_access {
        records[i].last_access < records[j].last_access
    } else {
        i <= j
    }
}

/// Whether the cookie at `i` is the first to be evicted under a limit.
pub open spec fn first_to_leave(
    records: Seq<RecordView>,
    domain: Option<Seq<char>>,
    i: int,
) -> bool {
    &&& 0 <= i < records.len()
    &&& counts(records[i], domain)
    &&& forall|j: int|
        0 <= j < records.len() && counts(#[trigger] records[j], domain) ==> leaves_before(
            records,
            i,
            j,
        )
}

/// The cookies left after `n` were evicted under a limit, one after another.
pub open spec fn evicted(records: Seq<RecordView>, domain: Option<Seq<char>>, n: nat) -> Seq<
    RecordView,
>
    decreases n,
{
    if n == 0 || !exists|i: int| first_to_leave(records, domain, i) {
        records
    } else {
        evicted(
            records.remove(choose|i: int| first_to_leave(records, domain, i)),
            domain,
            (n - 1) as nat,
        )
    }
}

/// How many cookies leave a domain of `n` under its limit: above it, down to
/// five sixths.
pub open spec fn domain_excess(n: nat, limit: usize) -> nat {
    if n > limit {
        (n - (limit - limit / 6)) as nat
    } else {
        0
    }
}

/// How many cookies leave a jar of `n` under its limit: above it, down to ten
/// elevenths.
pub open spec fn total_excess(n: nat, limit: usize) -> nat {
    if n > limit {
        (n - (limit - limit / 11)) as nat
    } else {
        0
    }
}

/// The cookies left once the limits were applied after a store in a domain.
pub open spec fn collected(
    records: Seq<RecordView>,
    domain: Seq<char>,
    limits: CookieLimits,
) -> Seq<RecordView> {
    let first = evicted(
        records,
        Some(domain),
        domain_excess(count(records, Some(domain)), limits.max_cookies_per_domain),
    );
    evicted(first, None, total_excess(first.len(), limits.max_cookies))
}

/// Whether a jar and each of its domains keep within the limits.
pub open spec fn within(records: Seq<RecordView>, limits: CookieLimits) -> bool {
    &&& records.len() <= limits.max_cookies
    &&& forall|domain: Seq<char>|
        #[trigger] count(records, Some(domain)) <= limits.max_cookies_per_domain
}

/// Whether every cookie counts against its own domain.
pub open spec fn own_domains(records: Seq<RecordView>) -> bool {
    forall|i: int|
        0 <= i < records.len() ==> (#[trigger] records[i]).quota_domain == quota_domain(
            records[i].key.domain,
        )
}

/// Whether no cookie expires after the latest time that storage keeps.
pub open spec fn timely(records: Seq<RecordView>) -> bool {
    forall|i: int|
        0 <= i < records.len() ==> ((#[trigger] records[i]).expires matches Some(at) ==> at
            <= MAX_EXPIRY_NANOS)
}

impl JarView {
    /// No cookie occurs twice, each counts against its own domain, those in a
    /// partition know its site, and none expires after the latest time that
    /// storage keeps.
    pub open spec fn wf(self) -> bool {
        &&& unique(self.records)
        &&& own_domains(self.records)
        &&& timely(self.records)
        &&& forall|i: int|
            0 <= i < self.records.len() ==> (#[trigger] self.records[i]).key.partitioned
                == self.records[i].partition_site is Some
    }

    /// The state without the cookies that have expired at `now`.
    pub open spec fn purged(self, now: SystemTime) -> JarView {
        JarView { records: live(self.records, now), ..self }
    }

    /// The state without one cookie.
    pub open spec fn dropped(self, key: CookieKeyView) -> JarView {
        match held_at(self.records, key) {
            Some(i) => JarView { records: self.records.remove(i), ..self },
            None => self,
        }
    }

    /// The state with a candidate in place of the held cookie, or behind the
    /// others.
    pub open spec fn put(
        self,
        found: CandidateView,
        expires: Option<int>,
        sequence: u64,
        last_access: u64,
    ) -> JarView {
        let kept = record_of(found, expires, sequence, last_access);
        JarView {
            records: match held_at(self.records, found.key) {
                Some(i) => self.records.update(i, kept),
                None => self.records.push(kept),
            },
            ..self
        }
    }

    /// The state after a cookie was stored. A replacement keeps the creation
    /// position and counts as a use.
    pub open spec fn kept(self, found: CandidateView, expires: Option<int>) -> JarView {
        match held_at(self.records, found.key) {
            Some(i) => JarView {
                next_access: after(self.next_access),
                ..self.put(found, expires, self.records[i].sequence, self.next_access)
            },
            None => JarView {
                next_sequence: after(self.next_sequence),
                next_access: after(self.next_access),
                ..self.put(found, expires, self.next_sequence, self.next_access)
            },
        }
    }

    /// Why a candidate from a URL is refused at `now`, if it is.
    pub open spec fn refusal(self, found: CandidateView, url: UrlView, now: SystemTime) -> Option<
        CookieErrorView,
    > {
        if !found.trusted && hides_secure(self.records, found.key, now) {
            Some(
                CookieErrorView {
                    kind: CookieErrorKind::SecureOverlay,
                    message: "insecure cookie would overlay an existing secure cookie"@,
                },
            )
        } else if found.key.host_only && url.host_text != Some(found.key.domain) {
            Some(
                CookieErrorView {
                    kind: CookieErrorKind::InvalidSetCookie,
                    message: "Set-Cookie field violates cookie storage rules"@,
                },
            )
        } else {
            None
        }
    }

    /// The state after a candidate from a URL was applied at `now`: an expired
    /// one takes the held one out, another one is stored under the limits.
    pub open spec fn applied(
        self,
        found: CandidateView,
        url: UrlView,
        limits: CookieLimits,
        now: SystemTime,
    ) -> JarView {
        let expires = expiry(found.raw, now);
        let clean = self.purged(now);
        if !found.trusted && hides_secure(self.records, found.key, now) {
            self
        } else if self.refusal(found, url, now) is Some {
            clean
        } else if expires is Some && expires->0 <= now.nanos {
            clean.dropped(found.key)
        } else {
            let stored = clean.kept(found, expires);
            JarView {
                records: collected(stored.records, quota_domain(found.key.domain), limits),
                ..stored
            }
        }
    }
}

/// Whether a candidate is what its field says for a URL.
pub open spec fn from_field(found: CandidateView, url: UrlView) -> bool {
    &&& raw_cookie(found.field) == Some(found.raw)
    &&& resolved_cookie(found.field, found.keep_domain, url.text) matches Some(place)
        && place.domain == found.key.domain && place.path == found.key.path && place.host_only
        == found.key.host_only
    &&& found.key.name == found.raw.name
    &&& found.key.partitioned == found.raw.partitioned
    &&& found.partition_site is Some == found.raw.partitioned
}

/// The domain whose limit applies.
pub open spec fn domain_view(domain: Option<&String>) -> Option<Seq<char>> {
    match domain {
        Some(domain) => Some(domain@),
        None => None,
    }
}

/// Whether a cookie goes with a request to a URL, which is its own top-level
/// site.
pub open spec fn sent(record: RecordView, url: UrlView) -> bool {
    &&& goes_with(record.key, record.secure, url)
    &&& record.partition_site matches Some(site) ==> site == schemeful_site(url)
}

/// Whether one cookie is sent before another: longer paths first, then in
/// creation order, then by name.
pub open spec fn sent_before(a: RecordView, b: RecordView) -> bool {
    let (long_a, long_b) = (encode_utf8(a.key.path).len(), encode_utf8(b.key.path).len());
    if long_a != long_b {
        long_a > long_b
    } else if a.sequence != b.sequence {
        a.sequence < b.sequence
    } else {
        text_before(a.key.name, b.key.name)
    }
}

/// A list of positions with one more in its place: behind every cookie that
/// it does not come before.
pub open spec fn placed(
    records: Seq<RecordView>,
    order: Seq<int>,
    i: int,
    first: spec_fn(RecordView, RecordView) -> bool,
) -> Seq<int>
    decreases order.len(),
{
    if order.len() > 0 && first(records[i], records[order.last()]) {
        placed(records, order.drop_last(), i, first).push(order.last())
    } else {
        order.push(i)
    }
}

/// The positions of the first `n` cookies that a request to a URL sends, in
/// the order in which it sends them.
pub open spec fn first_sent(records: Seq<RecordView>, url: UrlView, n: nat) -> Seq<int>
    decreases n,
{
    if n == 0 {
        Seq::empty()
    } else {
        let before = first_sent(records, url, (n - 1) as nat);
        if sent(records[n - 1], url) {
            placed(records, before, n - 1, |a, b| sent_before(a, b))
        } else {
            before
        }
    }
}

/// The positions of the cookies that a request to a URL sends, in order.
pub open spec fn sending(records: Seq<RecordView>, url: UrlView) -> Seq<int> {
    first_sent(records, url, records.len())
}

/// A cookie as a request names it.
pub open spec fn pair(record: RecordView) -> Seq<char> {
    record.key.name + "="@ + record.value
}

/// Cookies as a request lists them.
pub open spec fn joined(records: Seq<RecordView>, order: Seq<int>) -> Seq<char>
    decreases order.len(),
{
    if order.len() == 0 {
        Seq::empty()
    } else if order.len() == 1 {
        pair(records[order[0]])
    } else {
        joined(records, order.drop_last()) + "; "@ + pair(records[order.last()])
    }
}

impl JarView {
    /// The `Cookie` field of a request to a URL.
    pub open spec fn field_value(self, url: UrlView) -> Option<Seq<char>> {
        let order = sending(self.records, url);
        if order.len() == 0 {
            None
        } else {
            Some(joined(self.records, order))
        }
    }

    /// The state after cookies were used, one after another.
    pub open spec fn used(self, order: Seq<int>) -> JarView
        decreases order.len(),
    {
        if order.len() == 0 {
            self
        } else {
            let before = self.used(order.drop_last());
            let i = order.last();
            JarView {
                records: before.records.update(
                    i,
                    RecordView { last_access: before.next_access, ..before.records[i] },
                ),
                next_access: after(before.next_access),
                ..before
            }
        }
    }

    /// Why a field from a URL is refused at `now`, if it is.
    pub open spec fn field_refusal(
        self,
        field: Seq<char>,
        url: UrlView,
        limits: CookieLimits,
        now: SystemTime,
    ) -> Option<CookieErrorView> {
        match candidate(field, url, limits) {
            Ok(found) => self.refusal(found, url, now),
            Err(error) => Some(error),
        }
    }

    /// The state after a request to a URL sent its cookies at `now`.
    pub open spec fn sent_to(self, url: UrlView, now: SystemTime) -> JarView {
        let clean = self.purged(now);
        clean.used(sending(clean.records, url))
    }

    /// The state after the `Set-Cookie` fields of a response from a URL were
    /// applied at `now`, in order.
    pub open spec fn with_headers(
        self,
        headers: Seq<HeaderView>,
        url: UrlView,
        limits: CookieLimits,
        now: SystemTime,
    ) -> JarView
        decreases headers.len(),
    {
        if headers.len() == 0 {
            self
        } else {
            let before = self.with_headers(headers.drop_last(), url, limits, now);
            let header = headers.last();
            match visible(header.value) {
                Some(field) => if header.name == "set-cookie"@ {
                    before.with_field(field, url, limits, now)
                } else {
                    before
                },
                None => before,
            }
        }
    }

    /// The state after a field from a URL was applied at `now`.
    pub open spec fn with_field(
        self,
        field: Seq<char>,
        url: UrlView,
        limits: CookieLimits,
        now: SystemTime,
    ) -> JarView {
        match candidate(field, url, limits) {
            Ok(found) => self.applied(found, url, limits, now),
            Err(_) => self,
        }
    }
}

/// Why a store was refused, if it was.
pub open spec fn refusal_of(result: Result<(), CookieError>) -> Option<CookieErrorView> {
    match result {
        Ok(_) => None,
        Err(error) => Some(error@),
    }
}

/// Only one cookie is the first to be evicted.
pub proof fn lemma_first_to_leave(
    records: Seq<RecordView>,
    domain: Option<Seq<char>>,
    i: int,
    j: int,
)
    requires
        first_to_leave(records, domain, i),
        first_to_leave(records, domain, j),
    ensures
        i == j,
{
    assert(leaves_before(records, i, j));
    assert(leaves_before(records, j, i));
}

/// A position goes in front of the cookies that it comes before.
pub proof fn lemma_placed(
    records: Seq<RecordView>,
    order: Seq<int>,
    i: int,
    first: spec_fn(RecordView, RecordView) -> bool,
    p: int,
)
    requires
        0 <= p <= order.len(),
        forall|k: int| p <= k < order.len() ==> first(records[i], records[#[trigger] order[k]]),
        p == 0 || !first(records[i], records[order[p - 1]]),
    ensures
        placed(records, order, i, first) == order.insert(p, i),
    decreases order.len(),
{
    if p == order.len() {
        assert(order.insert(p, i) =~= order.push(i));
    } else {
        assert(first(records[i], records[order[order.len() - 1]]));
        lemma_placed(records, order.drop_last(), i, first, p);
        assert(order.insert(p, i) =~= order.drop_last().insert(p, i).push(order.last()));
    }
}

/// Whether one cookie was created before another.
pub open spec fn created_before(a: RecordView, b: RecordView) -> bool {
    a.sequence < b.sequence
}

/// The positions of the first `n` cookies in creation order.
pub open spec fn first_created(records: Seq<RecordView>, n: nat) -> Seq<int>
    decreases n,
{
    if n == 0 {
        Seq::empty()
    } else {
        placed(
            records,
            first_created(records, (n - 1) as nat),
            n - 1,
            |a, b| created_before(a, b),
        )
    }
}

/// The positions of the cookies in creation order.
pub open spec fn creation(records: Seq<RecordView>) -> Seq<int> {
    first_created(records, records.len())
}

/// The sum of two numbers, which stays at the largest one.
pub open spec fn plus(a: u64, b: u64) -> u64 {
    if a + b > u64::MAX {
        u64::MAX
    } else {
        (a + b) as u64
    }
}

/// A cookie whose creation and use moved back behind `n` others.
pub open spec fn shifted_record(record: RecordView, n: u64) -> RecordView {
    RecordView {
        sequence: plus(record.sequence, n),
        last_access: plus(record.last_access, n),
        ..record
    }
}

impl JarView {
    /// The state with every creation and use moved back behind `n` others.
    pub open spec fn shifted(self, n: u64) -> JarView {
        JarView {
            records: Seq::new(self.records.len(), |i: int| shifted_record(self.records[i], n)),
            next_sequence: plus(self.next_sequence, n),
            next_access: plus(self.next_access, n),
        }
    }
}

} // verus!
