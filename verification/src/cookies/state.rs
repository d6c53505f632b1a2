//! The cookies of a jar and its counters.

use vstd::prelude::*;
use crate::cookies::model::{
    after, collected, count, counts, created_before, creation, domain_view, evicted, expired,
    first_created, first_sent, first_to_leave, from_field, held_at, hides_secure, joined,
    leaves_before, lemma_first_to_leave, lemma_placed, live, pair, record_of, refusal_of, sending,
    sent, sent_before, shifted_record, unique, JarView, RecordView,
};
use crate::cookies::outside::{
    lasting, on_shelf, shelf_clear, shelf_get, shelf_insert, shelf_new, shelf_remove, ShelfKey,
    StoredCookie, StoredView,
};
use crate::cookies::rules::{
    cookie_goes_with, expiry_of, nanos_view, overlays, quota_domain_of, schemeful_site,
    schemeful_site_of, would_overlay, Candidate, CookieKey, CookieKeyView, MAX_EXPIRY_NANOS,
};
use crate::cookies::types::{
    parse_same_site, same_site_named, CookieError, CookieErrorKind, CookieLimits, CookieSameSite,
    CookieSourceScheme,
};
use crate::host::{text_view, Url};
use crate::lru::Key;
use crate::text::is_before;
use crate::time::SystemTime;

verus! {

/// What the jar remembers of a cookie beside what its store holds.
#[derive(Debug)]
pub struct CookieMetadata {
    pub key: CookieKey,
    pub expires: Option<i128>,
    pub sequence: u64,
    pub last_access: u64,
    pub quota_domain: String,
    pub secure: bool,
    pub partition_site: Option<String>,
    pub source_scheme: CookieSourceScheme,
}

/// Cookie stores split by host-only flag and partition.
///
/// Partitioned cookies live apart so that a partitioned and an unpartitioned
/// cookie with the same name, domain, and path coexist.
struct Stores {
    host: cookie_store::CookieStore,
    domain: cookie_store::CookieStore,
    partitioned_host: cookie_store::CookieStore,
    partitioned_domain: cookie_store::CookieStore,
}

impl Stores {
    spec fn store(&self, key: CookieKeyView) -> cookie_store::CookieStore {
        match (key.host_only, key.partitioned) {
            (true, false) => self.host,
            (false, false) => self.domain,
            (true, true) => self.partitioned_host,
            (false, true) => self.partitioned_domain,
        }
    }

    spec fn lasting(&self) -> bool {
        lasting(self.host) && lasting(self.domain) && lasting(self.partitioned_host) && lasting(
            self.partitioned_domain,
        )
    }

    /// What the store of a cookie hands out for it.
    spec fn held(&self, key: CookieKeyView) -> Option<StoredView> {
        on_shelf(
            self.store(key),
            ShelfKey { domain: key.domain, path: key.path, name: key.name },
        )
    }

    fn new() -> (r: Self)
        ensures
            r.lasting(),
            forall|key: CookieKeyView| #[trigger] r.held(key) is None,
    {
        Stores {
            host: shelf_new(),
            domain: shelf_new(),
            partitioned_host: shelf_new(),
            partitioned_domain: shelf_new(),
        }
    }

    fn get(&self, key: &CookieKey) -> (r: Option<StoredCookie>)
        ensures
            (match r {
                Some(cookie) => Some(cookie@),
                None => None,
            }) == self.held(key@),
    {
        let store = match (key.host_only, key.partitioned) {
            (true, false) => &self.host,
            (false, false) => &self.domain,
            (true, true) => &self.partitioned_host,
            (false, true) => &self.partitioned_domain,
        };
        shelf_get(store, key.domain.as_str(), key.path.as_str(), key.name.as_str())
    }

    fn remove(&mut self, key: &CookieKey)
        requires
            old(self).lasting(),
        ensures
            final(self).lasting(),
            final(self).held(key@) is None,
            forall|other: CookieKeyView|
                other != key@ ==> #[trigger] final(self).held(other) == old(self).held(other),
    {
        let (domain, path, name) = (key.domain.as_str(), key.path.as_str(), key.name.as_str());
        if key.host_only && !key.partitioned {
            shelf_remove(&mut self.host, domain, path, name);
        } else if !key.partitioned {
            shelf_remove(&mut self.domain, domain, path, name);
        } else if key.host_only {
            shelf_remove(&mut self.partitioned_host, domain, path, name);
        } else {
            shelf_remove(&mut self.partitioned_domain, domain, path, name);
        }
    }

    fn insert(&mut self, found: &Candidate, url: &Url) -> (r: bool)
        requires
            old(self).lasting(),
            from_field(found@, url@),
            url.wf(),
            url@.scheme == "http"@ || url@.scheme == "https"@,
        ensures
            final(self).lasting(),
            r == (found@.key.host_only ==> url@.host_text == Some(found@.key.domain)),
            r ==> final(self).held(found@.key) == Some(
                StoredView {
                    value: found@.raw.value,
                    secure: found@.raw.secure,
                    http_only: found@.raw.http_only,
                    same_site: found@.raw.same_site,
                },
            ),
            forall|other: CookieKeyView|
                other != found@.key ==> #[trigger] final(self).held(other) == old(self).held(other),
            !r ==> forall|other: CookieKeyView| #[trigger]
                final(self).held(other) == old(self).held(other),
    {
        let key = &found.key;
        let (field, text) = (found.field.as_str(), url.text.as_str());
        if key.host_only && !key.partitioned {
            shelf_insert(&mut self.host, field, found.keep_domain, text)
        } else if !key.partitioned {
            shelf_insert(&mut self.domain, field, found.keep_domain, text)
        } else if key.host_only {
            shelf_insert(&mut self.partitioned_host, field, found.keep_domain, text)
        } else {
            shelf_insert(&mut self.partitioned_domain, field, found.keep_domain, text)
        }
    }

    fn clear(&mut self)
        ensures
            final(self).lasting(),
            forall|key: CookieKeyView| #[trigger] final(self).held(key) is None,
    {
        shelf_clear(&mut self.host);
        shelf_clear(&mut self.domain);
        shelf_clear(&mut self.partitioned_host);
        shelf_clear(&mut self.partitioned_domain);
    }
}

/// The jar's cookies and counters.
pub struct JarState {
    stores: Stores,
    metadata: Vec<CookieMetadata>,
    next_sequence: u64,
    next_access: u64,
}

/// What the two places that remember a cookie say of it together.
spec fn record(metadata: CookieMetadata, held: StoredView) -> RecordView {
    RecordView {
        key: metadata.key@,
        value: held.value,
        secure: metadata.secure,
        http_only: held.http_only,
        same_site: same_site_named(held.same_site),
        expires: nanos_view(metadata.expires),
        sequence: metadata.sequence,
        last_access: metadata.last_access,
        quota_domain: metadata.quota_domain@,
        partition_site: text_view(metadata.partition_site),
        source_scheme: metadata.source_scheme,
    }
}

impl JarState {
    spec fn records(&self) -> Seq<RecordView> {
        Seq::new(
            self.metadata.len() as nat,
            |i: int| record(self.metadata[i], self.stores.held(self.metadata[i].key@)->0),
        )
    }

    pub closed spec fn view(&self) -> JarView {
        JarView {
            records: self.records(),
            next_sequence: self.next_sequence,
            next_access: self.next_access,
        }
    }

    pub closed spec fn wf(&self) -> bool {
        &&& self.stores.lasting()
        &&& self@.wf()
        &&& forall|i: int|
            0 <= i < self.metadata.len() ==> self.stores.held(
                (#[trigger] self.metadata[i]).key@,
            ) is Some
    }

    /// What a consistent state holds is consistent.
    pub proof fn lemma_wf(&self)
        requires
            self.wf(),
        ensures
            self@.wf(),
    {
    }

    pub(crate) fn new() -> (r: Self)
        ensures
            r.wf(),
            r@ == (JarView { records: Seq::empty(), next_sequence: 0, next_access: 0 }),
    {
        let r = JarState {
            stores: Stores::new(),
            metadata: Vec::new(),
            next_sequence: 0,
            next_access: 0,
        };
        assert(r.records() =~= Seq::empty());
        r
    }

    pub(crate) fn find(&self, key: &CookieKey) -> (r: Option<usize>)
        requires
            self.wf(),
        ensures
            match r {
                Some(i) => held_at(self@.records, key@) == Some(i as int) && i < self@.records.len(),
                None => held_at(self@.records, key@) is None,
            },
    {
        let mut i: usize = 0;
        while i < self.metadata.len()
            invariant
                i <= self.metadata.len(),
                self.wf(),
                forall|j: int| 0 <= j < i ==> (#[trigger] self.records()[j]).key != key@,
            decreases self.metadata.len() - i,
        {
            if self.metadata[i].key.same(key) {
                assert(self.records()[i as int].key == key@);
                return Some(i);
            }
            assert(self.records()[i as int].key != key@);
            i += 1;
        }
        None
    }

    /// Takes one cookie out.
    fn drop_at(&mut self, i: usize)
        requires
            old(self).wf(),
            i < old(self)@.records.len(),
        ensures
            final(self).wf(),
            final(self)@ == (JarView { records: old(self)@.records.remove(i as int), ..old(self)@ }),
    {
        let ghost before = self.records();
        let removed = self.metadata.remove(i);
        assert(before[i as int].key == removed.key@);
        assert forall|j: int| 0 <= j < self.metadata.len() implies {
            &&& (#[trigger] self.metadata[j]).key@ != removed.key@
            &&& record(self.metadata[j], self.stores.held(self.metadata[j].key@)->0)
                == before.remove(i as int)[j]
        } by {
            if j < i {
                assert(before[j].key == self.metadata[j].key@);
            } else {
                assert(before[j + 1].key == self.metadata[j].key@);
            }
        }
        self.stores.remove(&removed.key);
        assert(self.records() =~= before.remove(i as int));
    }

    pub(crate) fn len(&self) -> (r: usize)
        ensures
            r == self@.records.len(),
    {
        self.metadata.len()
    }

    /// Drops expired cookies.
    pub(crate) fn purge_expired(&mut self, now: SystemTime)
        requires
            old(self).wf(),
        ensures
            final(self).wf(),
            final(self)@ == old(self)@.purged(now),
    {
        let ghost all = self@.records;
        let ghost mut done: int = 0;
        let mut i: usize = 0;
        assert(all.take(0) =~= Seq::empty());
        assert(live(all.take(0), now) + all.skip(0) =~= all);
        while i < self.metadata.len()
            invariant
                self.wf(),
                0 <= done <= all.len(),
                i == live(all.take(done), now).len(),
                self@.records == live(all.take(done), now) + all.skip(done),
                self@.next_sequence == old(self)@.next_sequence,
                self@.next_access == old(self)@.next_access,
            decreases all.len() - done,
        {
            let ghost kept = live(all.take(done), now);
            assert(self@.records[i as int] == all.skip(done)[0]);
            assert(self@.records[i as int].expires == nanos_view(self.metadata[i as int].expires));
            assert(all.take(done + 1).drop_last() =~= all.take(done));
            let gone = match self.metadata[i].expires {
                Some(at) => at <= now.nanos,
                None => false,
            };
            if gone {
                self.drop_at(i);
                assert(self@.records =~= kept + all.skip(done + 1));
            } else {
                assert(self@.records =~= kept.push(all[done]) + all.skip(done + 1));
                i += 1;
            }
            proof {
                done = done + 1;
            }
        }
        assert(self@.records =~= live(all.take(done), now));
        assert(done == all.len());
        assert(all.take(done) =~= all);
    }
}

impl JarState {
    fn take_access(&mut self) -> (r: u64)
        requires
            old(self).wf(),
        ensures
            final(self).wf(),
            r == old(self)@.next_access,
            final(self)@ == (JarView { next_access: after(old(self)@.next_access), ..old(self)@ }),
    {
        let access: u64 = self.next_access;
        if self.next_access < u64::MAX {
            self.next_access = self.next_access + 1;
        }
        assert(self.records() =~= old(self).records());
        access
    }

    /// Stores a candidate in its store and remembers it, in place of the held
    /// one at `position`. Returns whether the store took it.
    fn put(
        &mut self,
        position: Option<usize>,
        found: &Candidate,
        url: &Url,
        expires: Option<i128>,
        sequence: u64,
        last_access: u64,
    ) -> (r: bool)
        requires
            old(self).wf(),
            from_field(found@, url@),
            url.wf(),
            expires matches Some(at) ==> at <= MAX_EXPIRY_NANOS,
            url@.scheme == "http"@ || url@.scheme == "https"@,
            match position {
                Some(i) => held_at(old(self)@.records, found@.key) == Some(i as int) && i < old(
                    self,
                )@.records.len(),
                None => held_at(old(self)@.records, found@.key) is None,
            },
        ensures
            final(self).wf(),
            r == (found@.key.host_only ==> url@.host_text == Some(found@.key.domain)),
            r ==> final(self)@ == old(self)@.put(
                found@,
                nanos_view(expires),
                sequence,
                last_access,
            ),
            !r ==> final(self)@ == old(self)@,
    {
        let ghost before = self.records();
        assert forall|j: int| 0 <= j < self.metadata.len() && held_at(before, found@.key) != Some(j)
            implies (#[trigger] self.metadata[j]).key@ != found@.key by {
            assert(before[j].key == self.metadata[j].key@);
            if before[j].key == found@.key {
                let k = held_at(before, found@.key)->0;
                assert(before[k].key == before[j].key);
            }
        }
        if !self.stores.insert(found, url) {
            assert(self.records() =~= before);
            return false;
        }
        let partition_site = match &found.partition_site {
            Some(site) => Some(site.clone()),
            None => None,
        };
        let metadata = CookieMetadata {
            key: found.key.clone(),
            expires,
            sequence,
            last_access,
            quota_domain: quota_domain_of(&found.key.domain),
            secure: found.raw.secure,
            partition_site,
            source_scheme: found.source_scheme,
        };
        let ghost kept = record_of(found@, nanos_view(expires), sequence, last_access);
        match position {
            Some(i) => {
                self.metadata.set(i, metadata);
                assert(self.records() =~= before.update(i as int, kept));
                assert(unique(self.records())) by {
                    assert forall|a: int, b: int| 0 <= a < b < before.len() implies (
                    #[trigger] self.records()[a]).key != (#[trigger] self.records()[b]).key by {
                        assert(before[a].key != before[b].key);
                        assert(before[i as int].key == kept.key);
                    }
                }
            },
            None => {
                self.metadata.push(metadata);
                assert(self.records() =~= before.push(kept));
                assert(unique(self.records())) by {
                    assert forall|a: int, b: int| 0 <= a < b <= before.len() implies (
                    #[trigger] self.records()[a]).key != (#[trigger] self.records()[b]).key by {
                        if b < before.len() {
                            assert(before[a].key != before[b].key);
                        } else {
                            assert(before[a].key != found@.key);
                        }
                    }
                }
            },
        }
        true
    }

    /// Stores a candidate. A replacement keeps the creation position, and a
    /// store counts as a use. Returns whether the store took it.
    fn keep(&mut self, found: &Candidate, url: &Url, expires: Option<i128>) -> (r: bool)
        requires
            old(self).wf(),
            from_field(found@, url@),
            url.wf(),
            expires matches Some(at) ==> at <= MAX_EXPIRY_NANOS,
            url@.scheme == "http"@ || url@.scheme == "https"@,
        ensures
            final(self).wf(),
            r == (found@.key.host_only ==> url@.host_text == Some(found@.key.domain)),
            r ==> final(self)@ == old(self)@.kept(found@, nanos_view(expires)),
            !r ==> final(self)@ == old(self)@,
    {
        let position = self.find(&found.key);
        let sequence: u64 = match position {
            Some(i) => {
                assert(self.records()[i as int].sequence == self.metadata[i as int].sequence);
                self.metadata[i].sequence
            },
            None => self.next_sequence,
        };
        let last_access: u64 = self.next_access;
        if !self.put(position, found, url, expires, sequence, last_access) {
            return false;
        }
        if self.next_access < u64::MAX {
            self.next_access = self.next_access + 1;
        }
        if position.is_none() && self.next_sequence < u64::MAX {
            self.next_sequence = self.next_sequence + 1;
        }
        true
    }

    /// Returns whether a cookie from an untrusted origin would hide a held
    /// `Secure` cookie outside partitions.
    pub(crate) fn would_hide_secure(&self, key: &CookieKey, now: SystemTime) -> (r: bool)
        requires
            self.wf(),
        ensures
            r == hides_secure(self@.records, key@, now),
    {
        let mut i: usize = 0;
        while i < self.metadata.len()
            invariant
                i <= self.metadata.len(),
                forall|j: int|
                    0 <= j < i ==> (#[trigger] self@.records[j]).key.partitioned || expired(
                        self@.records[j],
                        now,
                    ) || !overlays(key@, self@.records[j].key, self@.records[j].secure),
            decreases self.metadata.len() - i,
        {
            let held = &self.metadata[i];
            let ghost found = self@.records[i as int];
            let gone = match held.expires {
                Some(at) => at <= now.nanos,
                None => false,
            };
            if !held.key.partitioned && !gone && would_overlay(key, &held.key, held.secure) {
                assert(overlays(key@, found.key, found.secure));
                return true;
            }
            i += 1;
        }
        false
    }

    /// Returns how many cookies count against a limit.
    pub(crate) fn count(&self, domain: Option<&String>) -> (r: usize)
        requires
            self.wf(),
        ensures
            r == count(self@.records, domain_view(domain)),
            r <= self@.records.len(),
    {
        let mut n: usize = 0;
        let mut i: usize = 0;
        let ghost all = self@.records;
        while i < self.metadata.len()
            invariant
                i <= self.metadata.len(),
                n <= i,
                all == self@.records,
                n == count(all.take(i as int), domain_view(domain)),
            decreases self.metadata.len() - i,
        {
            assert(all.take(i + 1).drop_last() =~= all.take(i as int));
            if self.counts_at(i, domain) {
                n += 1;
            }
            i += 1;
        }
        assert(all.take(i as int) =~= all);
        n
    }

    fn counts_at(&self, i: usize, domain: Option<&String>) -> (r: bool)
        requires
            i < self.metadata.len(),
        ensures
            r == counts(self@.records[i as int], domain_view(domain)),
    {
        match domain {
            Some(domain) => self.metadata[i].quota_domain == *domain,
            None => true,
        }
    }

    /// Returns the first cookie to evict under a limit.
    fn first_out(&self, domain: Option<&String>) -> (r: Option<usize>)
        requires
            self.wf(),
        ensures
            match r {
                Some(i) => first_to_leave(self@.records, domain_view(domain), i as int),
                None => forall|i: int| !first_to_leave(self@.records, domain_view(domain), i),
            },
    {
        let ghost all = self@.records;
        let ghost scope = domain_view(domain);
        let mut best: Option<usize> = None;
        let mut i: usize = 0;
        while i < self.metadata.len()
            invariant
                i <= self.metadata.len(),
                all == self@.records,
                scope == domain_view(domain),
                match best {
                    Some(b) => b < i && counts(all[b as int], scope) && forall|j: int|
                        0 <= j < i && counts(#[trigger] all[j], scope) ==> leaves_before(
                            all,
                            b as int,
                            j,
                        ),
                    None => forall|j: int| 0 <= j < i ==> !counts(#[trigger] all[j], scope),
                },
            decreases self.metadata.len() - i,
        {
            if self.counts_at(i, domain) {
                let sooner = match best {
                    Some(b) => {
                        let (new, old_best) = (&self.metadata[i], &self.metadata[b]);
                        if new.secure != old_best.secure {
                            !new.secure
                        } else {
                            new.last_access < old_best.last_access
                        }
                    },
                    None => true,
                };
                if sooner {
                    best = Some(i);
                }
            }
            i += 1;
        }
        best
    }

    /// Evicts up to `n` cookies under a limit, one after another.
    fn evict_least_recent(&mut self, n: usize, domain: Option<&String>)
        requires
            old(self).wf(),
        ensures
            final(self).wf(),
            final(self)@ == (JarView {
                records: evicted(old(self)@.records, domain_view(domain), n as nat),
                ..old(self)@
            }),
    {
        let ghost scope = domain_view(domain);
        let ghost all = self@.records;
        let mut left: usize = n;
        while left > 0
            invariant
                self.wf(),
                scope == domain_view(domain),
                evicted(self@.records, scope, left as nat) == evicted(all, scope, n as nat),
                self@.next_sequence == old(self)@.next_sequence,
                self@.next_access == old(self)@.next_access,
            decreases left,
        {
            match self.first_out(domain) {
                Some(i) => {
                    proof {
                        let k = choose|k: int| first_to_leave(self@.records, scope, k);
                        lemma_first_to_leave(self@.records, scope, i as int, k);
                    }
                    self.drop_at(i);
                    left -= 1;
                },
                None => {
                    left = 0;
                },
            }
        }
    }

    /// Applies the limits after a store in a domain: one above its count goes
    /// down to five sixths of it, then a jar above its count down to ten
    /// elevenths, least recently used cookies first, those that are not
    /// `Secure` before the others.
    fn evict(&mut self, domain: &String, limits: CookieLimits)
        requires
            old(self).wf(),
        ensures
            final(self).wf(),
            final(self)@ == (JarView {
                records: collected(old(self)@.records, domain@, limits),
                ..old(self)@
            }),
    {
        let domain_limit: usize = limits.max_cookies_per_domain;
        let domain_count: usize = self.count(Some(domain));
        if domain_count > domain_limit {
            self.evict_least_recent(domain_count - (domain_limit - domain_limit / 6), Some(domain));
        }
        let total_limit: usize = limits.max_cookies;
        let total: usize = self.metadata.len();
        if total > total_limit {
            self.evict_least_recent(total - (total_limit - total_limit / 11), None);
        }
    }
}

/// Positions as numbers.
pub open spec fn ints(order: Seq<usize>) -> Seq<int> {
    order.map_values(|i: usize| i as int)
}

impl JarState {
    /// Stores the cookie of a field.
    pub(crate) fn store(&mut self, field: &str, url: &Url, limits: CookieLimits, now: SystemTime) -> (r: Result<
        (),
        CookieError,
    >)
        requires
            old(self).wf(),
            url.wf(),
            url@.scheme == "http"@ || url@.scheme == "https"@,
        ensures
            final(self).wf(),
            final(self)@ == old(self)@.with_field(field@, url@, limits, now),
            refusal_of(r) == old(self)@.field_refusal(field@, url@, limits, now),
    {
        let found = match Candidate::new(field, url, limits) {
            Ok(found) => found,
            Err(error) => {
                return Err(error);
            },
        };
        if !found.trusted && self.would_hide_secure(&found.key, now) {
            return Err(
                CookieError::new(
                    CookieErrorKind::SecureOverlay,
                    "insecure cookie would overlay an existing secure cookie",
                ),
            );
        }
        self.purge_expired(now);
        let expires = expiry_of(&found.raw, now);
        let fits = !found.key.host_only || match &url.host_text {
            Some(host) => *host == found.key.domain,
            None => false,
        };
        let gone = match expires {
            Some(at) => at <= now.nanos,
            None => false,
        };
        if fits && gone {
            match self.find(&found.key) {
                Some(i) => self.drop_at(i),
                None => {},
            }
            return Ok(());
        }
        if !self.keep(&found, url, expires) {
            return Err(
                CookieError::new(
                    CookieErrorKind::InvalidSetCookie,
                    "Set-Cookie field violates cookie storage rules",
                ),
            );
        }
        let domain = quota_domain_of(&found.key.domain);
        self.evict(&domain, limits);
        Ok(())
    }

    fn comes_first(&self, i: usize, j: usize) -> (r: bool)
        requires
            i < self.metadata.len(),
            j < self.metadata.len(),
        ensures
            r == sent_before(self@.records[i as int], self@.records[j as int]),
    {
        let (a, b) = (&self.metadata[i], &self.metadata[j]);
        let (long_a, long_b) = (
            a.key.path.as_str().as_bytes().len(),
            b.key.path.as_str().as_bytes().len(),
        );
        if long_a != long_b {
            long_a > long_b
        } else if a.sequence != b.sequence {
            a.sequence < b.sequence
        } else {
            is_before(a.key.name.as_str(), b.key.name.as_str())
        }
    }

    fn goes_to(&self, i: usize, url: &Url, site: &String) -> (r: bool)
        requires
            i < self.metadata.len(),
            site@ == schemeful_site(url@),
        ensures
            r == sent(self@.records[i as int], url@),
    {
        let held = &self.metadata[i];
        let here = match &held.partition_site {
            Some(partition) => *partition == *site,
            None => true,
        };
        here && cookie_goes_with(&held.key, held.secure, url)
    }

    /// Returns the positions of the cookies that a request to `url` sends.
    fn matching(&self, url: &Url) -> (r: Vec<usize>)
        requires
            self.wf(),
        ensures
            ints(r@) == sending(self@.records, url@),
            forall|k: int| 0 <= k < r.len() ==> #[trigger] r[k] < self@.records.len(),
    {
        let site = schemeful_site_of(url);
        let ghost all = self@.records;
        let ghost first = |a: RecordView, b: RecordView| sent_before(a, b);
        let mut order: Vec<usize> = Vec::new();
        let mut i: usize = 0;
        assert(ints(order@) =~= Seq::empty());
        while i < self.metadata.len()
            invariant
                i <= self.metadata.len(),
                all == self@.records,
                all.len() == self.metadata.len(),
                site@ == schemeful_site(url@),
                first == (|a: RecordView, b: RecordView| sent_before(a, b)),
                ints(order@) == first_sent(all, url@, i as nat),
                forall|k: int| 0 <= k < order.len() ==> #[trigger] order[k] < i,
            decreases self.metadata.len() - i,
        {
            if self.goes_to(i, url, &site) {
                let mut p: usize = order.len();
                while p > 0 && self.comes_first(i, order[p - 1])
                    invariant
                        p <= order.len(),
                        i < self.metadata.len(),
                        all == self@.records,
                        all.len() == self.metadata.len(),
                        first == (|a: RecordView, b: RecordView| sent_before(a, b)),
                        forall|k: int| 0 <= k < order.len() ==> #[trigger] order[k] < i,
                        forall|k: int|
                            p <= k < order.len() ==> first(
                                all[i as int],
                                all[#[trigger] ints(order@)[k]],
                            ),
                    decreases p,
                {
                    p -= 1;
                }
                proof {
                    if p > 0 {
                        assert(ints(order@)[p - 1] == order[p - 1]);
                    }
                    lemma_placed(all, ints(order@), i as int, first, p as int);
                }
                let ghost before = order@;
                order.insert(p, i);
                assert(ints(order@) =~= ints(before).insert(p as int, i as int));
            }
            i += 1;
        }
        order
    }

    /// Returns cookies as a request lists them.
    fn join(&self, order: &Vec<usize>) -> (r: String)
        requires
            self.wf(),
            forall|k: int| 0 <= k < order.len() ==> #[trigger] order[k] < self@.records.len(),
        ensures
            r@ == joined(self@.records, ints(order@)),
    {
        let ghost all = self@.records;
        let mut text = String::new();
        let mut k: usize = 0;
        assert(ints(order@).take(0) =~= Seq::empty());
        assert(text@ =~= Seq::empty());
        while k < order.len()
            invariant
                k <= order.len(),
                self.wf(),
                all == self@.records,
                forall|k: int| 0 <= k < order.len() ==> #[trigger] order[k] < all.len(),
                text@ == joined(all, ints(order@).take(k as int)),
            decreases order.len() - k,
        {
            let ghost list = ints(order@);
            let i: usize = order[k];
            assert(list.take(k + 1).drop_last() =~= list.take(k as int));
            assert(list.take(k + 1).last() == i);
            let ghost before = text@;
            if k != 0 {
                text.append("; ");
            }
            let ghost start = text@;
            let held = &self.metadata[i];
            text.append(held.key.name.as_str());
            text.append("=");
            match self.stores.get(&held.key) {
                Some(cookie) => {
                    text.append(cookie.value.as_str());
                    assert(text@ =~= start + pair(all[i as int]));
                },
                None => {},
            }
            assert(k == 0 ==> text@ =~= pair(all[i as int]));
            assert(k != 0 ==> text@ =~= before + "; "@ + pair(all[i as int]));
            k += 1;
        }
        assert(ints(order@).take(k as int) =~= ints(order@));
        text
    }

    /// Returns the `Cookie` field value for `url` and the positions of the
    /// cookies in it, without recording a use.
    pub(crate) fn matching_value(&mut self, url: &Url, now: SystemTime) -> (r: Option<(String, Vec<usize>)>)
        requires
            old(self).wf(),
        ensures
            final(self).wf(),
            final(self)@ == old(self)@.purged(now),
            (match r {
                Some(found) => Some(found.0@),
                None => None,
            }) == old(self)@.purged(now).field_value(url@),
            r matches Some(found) ==> ints(found.1@) == sending(final(self)@.records, url@),
            r matches Some(found) ==> forall|k: int|
                0 <= k < found.1.len() ==> #[trigger] found.1[k] < final(self)@.records.len(),
    {
        self.purge_expired(now);
        let order = self.matching(url);
        if order.len() == 0 {
            return None;
        }
        let text = self.join(&order);
        Some((text, order))
    }

    /// Returns the `Cookie` field value for `url` and records its cookies as
    /// used for eviction.
    pub(crate) fn send_value(&mut self, url: &Url, now: SystemTime) -> (r: Option<String>)
        requires
            old(self).wf(),
        ensures
            final(self).wf(),
            text_view(r) == old(self)@.purged(now).field_value(url@),
            final(self)@ == old(self)@.purged(now).used(
                sending(old(self)@.purged(now).records, url@),
            ),
    {
        let (text, order) = match self.matching_value(url, now) {
            Some(found) => found,
            None => {
                return None;
            },
        };
        let ghost clean = self@;
        let ghost list = ints(order@);
        let mut k: usize = 0;
        assert(list.take(0) =~= Seq::empty());
        while k < order.len()
            invariant
                k <= order.len(),
                self.wf(),
                list == ints(order@),
                self@ == clean.used(list.take(k as int)),
                self@.records.len() == clean.records.len(),
                forall|k: int| 0 <= k < order.len() ==> #[trigger] order[k] < clean.records.len(),
            decreases order.len() - k,
        {
            let i: usize = order[k];
            assert(list.take(k + 1).drop_last() =~= list.take(k as int));
            assert(list.take(k + 1).last() == i);
            let last_access: u64 = self.take_access();
            self.touch(i, last_access);
            k += 1;
        }
        assert(list.take(k as int) =~= list);
        Some(text)
    }

    fn touch(&mut self, i: usize, last_access: u64)
        requires
            old(self).wf(),
            i < old(self)@.records.len(),
        ensures
            final(self).wf(),
            final(self)@ == (JarView {
                records: old(self)@.records.update(
                    i as int,
                    RecordView { last_access, ..old(self)@.records[i as int] },
                ),
                ..old(self)@
            }),
    {
        let ghost before = self.records();
        let ghost after = before.update(
            i as int,
            RecordView { last_access, ..before[i as int] },
        );
        self.metadata[i].last_access = last_access;
        assert(self.records() =~= after);
        assert(unique(self.records())) by {
            assert forall|a: int, b: int| 0 <= a < b < before.len() implies (
            #[trigger] self.records()[a]).key != (#[trigger] self.records()[b]).key by {
                assert(before[a].key != before[b].key);
            }
        }
    }

    pub(crate) fn clear(&mut self)
        ensures
            final(self).wf(),
            final(self)@ == (JarView { records: Seq::empty(), ..old(self)@ }),
    {
        self.stores.clear();
        self.metadata.clear();
        assert(self.records() =~= Seq::empty());
    }
}

/// A copy of one cookie of a jar.
pub struct HeldCookie {
    pub key: CookieKey,
    pub value: String,
    pub secure: bool,
    pub http_only: bool,
    pub same_site: Option<CookieSameSite>,
    pub expires: Option<i128>,
    pub sequence: u64,
    pub last_access: u64,
    pub quota_domain: String,
    pub partition_site: Option<String>,
    pub source_scheme: CookieSourceScheme,
}

impl View for HeldCookie {
    type V = RecordView;

    open spec fn view(&self) -> RecordView {
        RecordView {
            key: self.key@,
            value: self.value@,
            secure: self.secure,
            http_only: self.http_only,
            same_site: self.same_site,
            expires: nanos_view(self.expires),
            sequence: self.sequence,
            last_access: self.last_access,
            quota_domain: self.quota_domain@,
            partition_site: text_view(self.partition_site),
            source_scheme: self.source_scheme,
        }
    }
}

impl JarState {
    /// Returns a copy of one cookie.
    pub(crate) fn held(&self, i: usize) -> (r: HeldCookie)
        requires
            self.wf(),
            i < self@.records.len(),
        ensures
            r@ == self@.records[i as int],
    {
        let metadata = &self.metadata[i];
        let (value, http_only, same_site) = match self.stores.get(&metadata.key) {
            Some(cookie) => {
                let same_site = parse_same_site(&cookie.same_site);
                (cookie.value, cookie.http_only, same_site)
            },
            None => (String::new(), false, None),
        };
        let partition_site = match &metadata.partition_site {
            Some(site) => Some(site.clone()),
            None => None,
        };
        HeldCookie {
            key: metadata.key.clone(),
            value,
            secure: metadata.secure,
            http_only,
            same_site,
            expires: metadata.expires,
            sequence: metadata.sequence,
            last_access: metadata.last_access,
            quota_domain: metadata.quota_domain.clone(),
            partition_site,
            source_scheme: metadata.source_scheme,
        }
    }

    /// Returns the positions of the cookies in creation order.
    pub(crate) fn creation_order(&self) -> (r: Vec<usize>)
        requires
            self.wf(),
        ensures
            ints(r@) == creation(self@.records),
            forall|k: int| 0 <= k < r.len() ==> #[trigger] r[k] < self@.records.len(),
    {
        let ghost all = self@.records;
        let ghost first = |a: RecordView, b: RecordView| created_before(a, b);
        let mut order: Vec<usize> = Vec::new();
        let mut i: usize = 0;
        assert(ints(order@) =~= Seq::empty());
        while i < self.metadata.len()
            invariant
                i <= self.metadata.len(),
                all == self@.records,
                all.len() == self.metadata.len(),
                first == (|a: RecordView, b: RecordView| created_before(a, b)),
                ints(order@) == first_created(all, i as nat),
                forall|k: int| 0 <= k < order.len() ==> #[trigger] order[k] < i,
            decreases self.metadata.len() - i,
        {
            let mut p: usize = order.len();
            while p > 0 && self.metadata[i].sequence < self.metadata[order[p - 1]].sequence
                invariant
                    p <= order.len(),
                    i < self.metadata.len(),
                    all == self@.records,
                    all.len() == self.metadata.len(),
                    first == (|a: RecordView, b: RecordView| created_before(a, b)),
                    forall|k: int| 0 <= k < order.len() ==> #[trigger] order[k] < i,
                    forall|k: int|
                        p <= k < order.len() ==> first(
                            all[i as int],
                            all[#[trigger] ints(order@)[k]],
                        ),
                decreases p,
            {
                p -= 1;
            }
            proof {
                if p > 0 {
                    assert(ints(order@)[p - 1] == order[p - 1]);
                }
                lemma_placed(all, ints(order@), i as int, first, p as int);
            }
            let ghost before = order@;
            order.insert(p, i);
            assert(ints(order@) =~= ints(before).insert(p as int, i as int));
            i += 1;
        }
        order
    }

    /// Moves every cookie's creation and use back behind `n` others.
    pub(crate) fn shift(&mut self, n: u64)
        requires
            old(self).wf(),
        ensures
            final(self).wf(),
            final(self)@ == old(self)@.shifted(n),
    {
        let ghost before = self.records();
        let mut i: usize = 0;
        while i < self.metadata.len()
            invariant
                i <= self.metadata.len(),
                self.wf(),
                self.metadata.len() == before.len(),
                self.next_sequence == old(self)@.next_sequence,
                self.next_access == old(self)@.next_access,
                before == old(self)@.records,
                forall|j: int|
                    0 <= j < i ==> #[trigger] self.records()[j] == shifted_record(before[j], n),
                forall|j: int|
                    i <= j < before.len() ==> #[trigger] self.records()[j] == before[j],
            decreases self.metadata.len() - i,
        {
            let ghost now = self.records();
            assert(now[i as int] == before[i as int]);
            let sequence: u64 = self.metadata[i].sequence;
            let last_access: u64 = self.metadata[i].last_access;
            self.metadata[i].sequence = sequence.saturating_add(n);
            self.metadata[i].last_access = last_access.saturating_add(n);
            assert(self.records() =~= now.update(i as int, shifted_record(before[i as int], n)));
            assert(unique(self.records())) by {
                assert forall|a: int, b: int| 0 <= a < b < before.len() implies (
                #[trigger] self.records()[a]).key != (#[trigger] self.records()[b]).key by {
                    assert(now[a].key != now[b].key);
                }
            }
            i += 1;
        }
        self.next_sequence = self.next_sequence.saturating_add(n);
        self.next_access = self.next_access.saturating_add(n);
        assert(self.records() =~= Seq::new(
            before.len(),
            |j: int| shifted_record(before[j], n),
        ));
    }

    /// Adds a cookie that the jar does not hold at the given positions of
    /// creation and use.
    pub(crate) fn add(
        &mut self,
        found: &Candidate,
        url: &Url,
        expires: Option<i128>,
        position: u64,
    )
        requires
            old(self).wf(),
            from_field(found@, url@),
            url.wf(),
            expires matches Some(at) ==> at <= MAX_EXPIRY_NANOS,
            url@.scheme == "http"@ || url@.scheme == "https"@,
            found@.key.host_only ==> url@.host_text == Some(found@.key.domain),
            held_at(old(self)@.records, found@.key) is None,
        ensures
            final(self).wf(),
            final(self)@ == old(self)@.put(found@, nanos_view(expires), position, position),
    {
        self.put(None, found, url, expires, position, position);
    }
}

} // verus!
