//! HTTP/3 discovery from HTTPS DNS records.

use vstd::prelude::*;
use crate::endpoint::{copy_bytes, origin_of, Endpoint, OriginKey, OriginView};
use crate::host::{
    format_ipv4, ipv4_text, ipv6_literal, parse_host, parse_ipv6, url_host, Host, HostView,
};
use crate::lru::{
    lemma_position, lemma_replaced, lemma_stored, lemma_touched, lookup, position, stored, touched,
    unique_keys, LruList,
};
use crate::text::{lowercase, same_bytes, to_lowercase};
use crate::time::{Duration, Instant, NANOS_PER_SEC};

verus! {

/// How long a result without a usable TTL is kept, in seconds: a failed
/// lookup, or a negative answer without an SOA record.
pub const UNTIMED_RESULT_TTL: u64 = 60;

/// Longest time any result is kept, in seconds: one day.
pub const MAX_RESULT_TTL: u32 = 86_400;

/// The name that a record's service is found under.
#[derive(Debug)]
pub enum TargetName {
    /// The record's own name.
    Owner,
    Name(String),
}

/// A record that describes a service.
#[derive(Debug)]
pub struct ServiceRecord {
    pub priority: u16,
    pub target: TargetName,
    /// Keys whose meaning a client must know to use the record.
    pub mandatory: Vec<u16>,
    pub alpn: Vec<Vec<u8>>,
    /// The record's protocols are those of `alpn` alone.
    pub no_default_alpn: bool,
    pub port: Option<u16>,
    pub ech: Option<Vec<u8>>,
}

/// An HTTPS DNS record.
#[derive(Debug)]
pub enum HttpsRecord {
    Alias(TargetName),
    Service(ServiceRecord),
}

/// A record and the name that owns it.
#[derive(Debug)]
pub struct HttpsAnswer {
    pub owner: String,
    pub ttl: u32,
    pub record: HttpsRecord,
}

/// What a lookup found.
#[derive(Debug)]
pub struct HttpsLookup {
    pub answers: Vec<HttpsAnswer>,
    /// How long an empty answer holds, from its SOA record.
    pub negative_ttl: Option<u32>,
}

/// The protocol identifier of HTTP/3.
pub open spec fn h3_alpn() -> Seq<u8> {
    seq![0x68, 0x33]
}

/// The protocol identifier of HTTP/1.1, every record's default.
pub open spec fn http1_alpn() -> Seq<u8> {
    seq![0x68, 0x74, 0x74, 0x70, 0x2f, 0x31, 0x2e, 0x31]
}

/// Whether a list of protocols names `id`.
pub open spec fn lists(alpn: Seq<Vec<u8>>, id: Seq<u8>) -> bool {
    exists|i: int| 0 <= i < alpn.len() && (#[trigger] alpn[i])@ == id
}

/// Whether a client knows the meaning of a mandatory key: `alpn` through
/// `ipv6hint`.
pub open spec fn supported_key(key: u16) -> bool {
    1 <= key <= 6
}

/// Whether a record's service is at the origin's own name.
pub open spec fn same_target(target: TargetName, owner: Seq<char>, host: Seq<char>) -> bool {
    match target {
        TargetName::Owner => true,
        TargetName::Name(name) => lowercase(name@) == lowercase(host) || lowercase(name@)
            == lowercase(owner),
    }
}

/// Whether a service record applies to a request to `host` and `port`: its
/// mandatory keys are known, its target and port are the origin's own, and it
/// supports some protocol.
pub open spec fn applies(
    service: ServiceRecord,
    owner: Seq<char>,
    host: Seq<char>,
    port: u16,
) -> bool {
    &&& forall|i: int| 0 <= i < service.mandatory@.len() ==> supported_key(#[trigger] service.mandatory@[i])
    &&& same_target(service.target, owner, host)
    &&& (service.port matches Some(own) ==> own == port)
    &&& !(service.no_default_alpn && service.alpn@.len() == 0)
}

/// Whether an answer holds a service record that applies.
pub open spec fn kept(answer: HttpsAnswer, host: Seq<char>, port: u16) -> bool {
    match answer.record {
        HttpsRecord::Alias(_) => false,
        HttpsRecord::Service(service) => applies(service, answer.owner@, host, port),
    }
}

/// Whether an answer is kept and supports HTTP/1.1 by default.
pub open spec fn keeps_default(answer: HttpsAnswer, host: Seq<char>, port: u16) -> bool {
    kept(answer, host, port) && !answer.record->Service_0.no_default_alpn
}

/// Whether answers say anything at all: none is an alias, and not every kept
/// record goes without the default protocol.
pub open spec fn usable(answers: Seq<HttpsAnswer>, host: Seq<char>, port: u16) -> bool {
    &&& forall|i: int| 0 <= i < answers.len() ==> !((#[trigger] answers[i]).record is Alias)
    &&& exists|i: int| 0 <= i < answers.len() && keeps_default(#[trigger] answers[i], host, port)
}

/// Whether an answer is kept and lists HTTP/3.
pub open spec fn keeps_h3(answer: HttpsAnswer, host: Seq<char>, port: u16) -> bool {
    kept(answer, host, port) && lists(answer.record->Service_0.alpn@, h3_alpn())
}

/// Whether the records let a request to `host` and `port` use HTTP/3 at the
/// origin's own location.
pub open spec fn advertised(answers: Seq<HttpsAnswer>, host: Seq<char>, port: u16) -> bool {
    &&& usable(answers, host, port)
    &&& exists|i: int| 0 <= i < answers.len() && keeps_h3(#[trigger] answers[i], host, port)
}

/// Whether a kept record supports a protocol that a connection offers.
pub open spec fn supports_one_of(service: ServiceRecord, offered: Seq<Vec<u8>>) -> bool {
    exists|i: int|
        0 <= i < offered.len() && (lists(service.alpn@, (#[trigger] offered[i])@) || (
        !service.no_default_alpn && offered[i]@ == http1_alpn()))
}

/// Whether a TCP connection that offers `offered` can use an answer.
pub open spec fn serves_tcp(
    answer: HttpsAnswer,
    host: Seq<char>,
    port: u16,
    offered: Seq<Vec<u8>>,
) -> bool {
    kept(answer, host, port) && supports_one_of(answer.record->Service_0, offered)
}

/// Whether `i` is the first answer by priority, then by place, that a TCP
/// connection can use.
pub open spec fn first_for_tcp(
    answers: Seq<HttpsAnswer>,
    host: Seq<char>,
    port: u16,
    offered: Seq<Vec<u8>>,
    i: int,
) -> bool {
    &&& 0 <= i < answers.len()
    &&& serves_tcp(answers[i], host, port, offered)
    &&& forall|j: int|
        0 <= j < answers.len() && serves_tcp(#[trigger] answers[j], host, port, offered) ==> (
        answers[i].record->Service_0.priority < answers[j].record->Service_0.priority || (
        answers[i].record->Service_0.priority == answers[j].record->Service_0.priority && i <= j))
}

/// The bytes of an optional value.
pub open spec fn bytes_view(bytes: Option<Vec<u8>>) -> Option<Seq<u8>> {
    match bytes {
        Some(bytes) => Some(bytes@),
        None => None,
    }
}

fn list_has(alpn: &Vec<Vec<u8>>, id: &[u8]) -> (r: bool)
    ensures
        r == lists(alpn@, id@),
{
    let mut i: usize = 0;
    while i < alpn.len()
        invariant
            i <= alpn@.len(),
            forall|j: int| 0 <= j < i ==> (#[trigger] alpn@[j])@ != id@,
        decreases alpn@.len() - i,
    {
        if same_bytes(alpn[i].as_slice(), id) {
            return true;
        }
        i = i + 1;
    }
    false
}

fn record_applies(service: &ServiceRecord, owner: &String, host: &String, port: u16) -> (r: bool)
    ensures
        r == applies(*service, owner@, host@, port),
{
    let mut i: usize = 0;
    while i < service.mandatory.len()
        invariant
            i <= service.mandatory@.len(),
            forall|j: int| 0 <= j < i ==> supported_key(#[trigger] service.mandatory@[j]),
        decreases service.mandatory@.len() - i,
    {
        let key: u16 = service.mandatory[i];
        if key < 1 || key > 6 {
            assert(!supported_key(service.mandatory@[i as int]));
            return false;
        }
        i = i + 1;
    }
    let at_origin = match &service.target {
        TargetName::Owner => true,
        TargetName::Name(name) => {
            let lower = to_lowercase(name.as_str());
            lower == to_lowercase(host.as_str()) || lower == to_lowercase(owner.as_str())
        },
    };
    let same_port = match service.port {
        Some(own) => own == port,
        None => true,
    };
    at_origin && same_port && !(service.no_default_alpn && service.alpn.len() == 0)
}

fn is_kept(answer: &HttpsAnswer, host: &String, port: u16) -> (r: bool)
    ensures
        r == kept(*answer, host@, port),
{
    match &answer.record {
        HttpsRecord::Alias(_) => false,
        HttpsRecord::Service(service) => record_applies(service, &answer.owner, host, port),
    }
}

/// Returns whether the answers say anything at all for `host` and `port`.
pub fn answers_usable(answers: &Vec<HttpsAnswer>, host: &String, port: u16) -> (r: bool)
    ensures
        r == usable(answers@, host@, port),
{
    let mut default_alpn = false;
    let mut i: usize = 0;
    while i < answers.len()
        invariant
            i <= answers@.len(),
            forall|j: int| 0 <= j < i ==> !((#[trigger] answers@[j]).record is Alias),
            default_alpn <==> exists|j: int|
                0 <= j < i && keeps_default(#[trigger] answers@[j], host@, port),
        decreases answers@.len() - i,
    {
        match &answers[i].record {
            HttpsRecord::Alias(_) => {
                return false;
            },
            HttpsRecord::Service(service) => {
                if !service.no_default_alpn && is_kept(&answers[i], host, port) {
                    assert(keeps_default(answers@[i as int], host@, port));
                    default_alpn = true;
                }
            },
        }
        i = i + 1;
    }
    default_alpn
}

/// Returns whether the records let a request to `host` and `port` use HTTP/3
/// at the origin's own location, by Chromium 154's rules.
///
/// Every record is ignored when any is in AliasMode. Otherwise a ServiceMode
/// record is kept only when all its mandatory keys are supported, its target
/// is `.`, the origin host, or the record's owner, and its `port`, if any, is
/// the request's port. A kept record supports `alpn` plus `http/1.1` unless
/// `no-default-alpn` is set, and one supporting nothing is dropped. When
/// every kept record sets `no-default-alpn`, all are ignored. A kept record
/// then has to list `h3`.
pub fn advertises_h3(answers: &Vec<HttpsAnswer>, host: &String, port: u16) -> (r: bool)
    ensures
        r == advertised(answers@, host@, port),
{
    if !answers_usable(answers, host, port) {
        return false;
    }
    let h3: [u8; 2] = [0x68, 0x33];
    assert(h3@ =~= h3_alpn());
    let mut i: usize = 0;
    while i < answers.len()
        invariant
            i <= answers@.len(),
            h3@ == h3_alpn(),
            usable(answers@, host@, port),
            forall|j: int| 0 <= j < i ==> !keeps_h3(#[trigger] answers@[j], host@, port),
        decreases answers@.len() - i,
    {
        match &answers[i].record {
            HttpsRecord::Alias(_) => {},
            HttpsRecord::Service(service) => {
                if list_has(&service.alpn, h3.as_slice()) && is_kept(&answers[i], host, port) {
                    assert(keeps_h3(answers@[i as int], host@, port));
                    return true;
                }
            },
        }
        i = i + 1;
    }
    false
}

fn offers_one(service: &ServiceRecord, offered: &Vec<Vec<u8>>) -> (r: bool)
    ensures
        r == supports_one_of(*service, offered@),
{
    let http1: [u8; 8] = [0x68, 0x74, 0x74, 0x70, 0x2f, 0x31, 0x2e, 0x31];
    assert(http1@ =~= http1_alpn());
    let mut i: usize = 0;
    while i < offered.len()
        invariant
            i <= offered@.len(),
            http1@ == http1_alpn(),
            forall|j: int|
                0 <= j < i ==> !(lists(service.alpn@, (#[trigger] offered@[j])@) || (
                !service.no_default_alpn && offered@[j]@ == http1_alpn())),
        decreases offered@.len() - i,
    {
        if list_has(&service.alpn, offered[i].as_slice()) || (!service.no_default_alpn
            && same_bytes(offered[i].as_slice(), http1.as_slice())) {
            assert(lists(service.alpn@, offered@[i as int]@) || (!service.no_default_alpn
                && offered@[i as int]@ == http1_alpn()));
            return true;
        }
        i = i + 1;
    }
    false
}

/// Returns the `ech` value for a TCP connection to `host` and `port` that
/// offers `offered`: that of the first record by priority that the connection
/// can use, if it has one.
pub fn tcp_ech(
    answers: &Vec<HttpsAnswer>,
    host: &String,
    port: u16,
    offered: &Vec<Vec<u8>>,
) -> (r: Option<Vec<u8>>)
    ensures
        !usable(answers@, host@, port) ==> r is None,
        usable(answers@, host@, port) ==> forall|i: int| #[trigger]
            first_for_tcp(answers@, host@, port, offered@, i) ==> bytes_view(r) == bytes_view(
                answers@[i].record->Service_0.ech,
            ),
        (forall|i: int| !#[trigger] first_for_tcp(answers@, host@, port, offered@, i)) ==> r is None,
{
    if !answers_usable(answers, host, port) {
        return None;
    }
    let mut best: Option<usize> = None;
    let mut best_priority: u16 = 0;
    let mut i: usize = 0;
    while i < answers.len()
        invariant
            i <= answers@.len(),
            match best {
                Some(b) => {
                    &&& b < i
                    &&& serves_tcp(answers@[b as int], host@, port, offered@)
                    &&& best_priority == answers@[b as int].record->Service_0.priority
                    &&& forall|j: int|
                        0 <= j < i && serves_tcp(#[trigger] answers@[j], host@, port, offered@) ==> (
                        best_priority < answers@[j].record->Service_0.priority || (best_priority
                            == answers@[j].record->Service_0.priority && b <= j))
                },
                None => forall|j: int|
                    0 <= j < i ==> !serves_tcp(#[trigger] answers@[j], host@, port, offered@),
            },
        decreases answers@.len() - i,
    {
        match &answers[i].record {
            HttpsRecord::Alias(_) => {
                assert(!serves_tcp(answers@[i as int], host@, port, offered@));
            },
            HttpsRecord::Service(service) => {
                let serves = is_kept(&answers[i], host, port) && offers_one(service, offered);
                assert(serves == serves_tcp(answers@[i as int], host@, port, offered@));
                let better = match best {
                    Some(_) => service.priority < best_priority,
                    None => true,
                };
                if serves && better {
                    best = Some(i);
                    best_priority = service.priority;
                }
            },
        }
        i = i + 1;
    }
    match best {
        Some(b) => {
            proof {
                assert(first_for_tcp(answers@, host@, port, offered@, b as int));
                assert forall|k: int| #[trigger]
                    first_for_tcp(answers@, host@, port, offered@, k) implies k == b by {
                    assert(serves_tcp(answers@[k], host@, port, offered@));
                    assert(serves_tcp(answers@[b as int], host@, port, offered@));
                }
            }
            match &answers[b].record {
                HttpsRecord::Service(service) => match &service.ech {
                    Some(ech) => Some(copy_bytes(ech.as_slice())),
                    None => None,
                },
                HttpsRecord::Alias(_) => None,
            }
        },
        None => None,
    }
}

/// The lowest TTL of some answers.
pub open spec fn lowest_ttl(answers: Seq<HttpsAnswer>) -> u32
    decreases answers.len(),
{
    if answers.len() <= 1 {
        answers[0].ttl
    } else {
        let before = lowest_ttl(answers.drop_last());
        if answers.last().ttl < before {
            answers.last().ttl
        } else {
            before
        }
    }
}

/// How long a result stays fresh, in seconds: the lowest TTL of the answers,
/// or of an empty answer its negative TTL, cut at a day.
pub open spec fn ttl_seconds(found: HttpsLookup) -> u64 {
    let ttl = if found.answers@.len() > 0 {
        Some(lowest_ttl(found.answers@))
    } else {
        found.negative_ttl
    };
    match ttl {
        Some(seconds) => if seconds <= MAX_RESULT_TTL {
            seconds as u64
        } else {
            MAX_RESULT_TTL as u64
        },
        None => UNTIMED_RESULT_TTL,
    }
}

/// Returns how long a successful lookup's result stays fresh.
pub fn result_ttl(found: &HttpsLookup) -> (r: Duration)
    ensures
        r.nanos == ttl_seconds(*found) * NANOS_PER_SEC,
{
    let mut ttl: Option<u32> = found.negative_ttl;
    if found.answers.len() > 0 {
        let mut lowest: u32 = found.answers[0].ttl;
        let mut i: usize = 1;
        while i < found.answers.len()
            invariant
                1 <= i <= found.answers@.len(),
                lowest == lowest_ttl(found.answers@.take(i as int)),
            decreases found.answers@.len() - i,
        {
            assert(found.answers@.take(i + 1).drop_last() =~= found.answers@.take(i as int));
            if found.answers[i].ttl < lowest {
                lowest = found.answers[i].ttl;
            }
            i = i + 1;
        }
        assert(found.answers@.take(i as int) =~= found.answers@);
        ttl = Some(lowest);
    }
    match ttl {
        Some(seconds) => if seconds <= MAX_RESULT_TTL {
            Duration::from_secs(seconds as u64)
        } else {
            Duration::from_secs(MAX_RESULT_TTL as u64)
        },
        None => Duration::from_secs(UNTIMED_RESULT_TTL),
    }
}

/// Returns what a finished lookup means for `host` and `port` and how long it
/// holds; a failed one counts as no advertisement.
pub fn lookup_outcome(found: Option<&HttpsLookup>, host: &String, port: u16) -> (r: (bool, Duration))
    ensures
        match found {
            Some(found) => r.0 == advertised(found.answers@, host@, port) && r.1.nanos
                == ttl_seconds(*found) * NANOS_PER_SEC,
            None => !r.0 && r.1.nanos == UNTIMED_RESULT_TTL * NANOS_PER_SEC,
        },
{
    match found {
        Some(found) => (advertises_h3(&found.answers, host, port), result_ttl(found)),
        None => (false, Duration::from_secs(UNTIMED_RESULT_TTL)),
    }
}

/// What the cache holds of an origin.
#[derive(Clone, Copy, Debug, PartialEq, Eq, Structural)]
pub enum LookupState {
    /// The lookup with this number is in flight.
    Pending { lookup: u64 },
    Ready { advertises_h3: bool, expires_at: Instant },
}

impl View for LookupState {
    type V = LookupState;

    open spec fn view(&self) -> LookupState {
        *self
    }
}

/// What the cache knows about an origin's HTTPS records.
#[derive(Clone, Copy, Debug, PartialEq, Eq, Structural)]
pub enum Discovery {
    /// A fresh result says the origin's records advertise `h3`.
    Advertised,
    /// A fresh result says they do not, or no lookup can run.
    NotAdvertised,
    /// This lookup is in flight; the caller starts it when `start` is set.
    Pending { lookup: u64, start: bool },
}

/// The state of an [`HttpsRecordDiscovery`], least recently used first.
pub struct DiscoveryView {
    pub capacity: nat,
    pub entries: Seq<(OriginView, LookupState)>,
    pub next_lookup: u64,
}

/// Whether a host is the text of an IP address.
pub open spec fn is_ip_literal(host: Seq<char>) -> bool {
    (url_host(host) matches Some(HostView::Ipv4(bits)) && ipv4_text(bits) == host) || ipv6_literal(
        host,
    ) is Some
}

/// Returns whether `host` is the text of an IP address.
pub fn ip_literal(host: &String) -> (r: bool)
    ensures
        r == is_ip_literal(host@),
{
    if parse_ipv6(host.as_str()).is_some() {
        return true;
    }
    match parse_host(host.as_str()) {
        Some(Host::Ipv4(bits)) => format_ipv4(bits) == *host,
        _ => false,
    }
}

impl DiscoveryView {
    /// The bound is kept and no origin occurs twice.
    pub open spec fn wf(self) -> bool {
        &&& self.capacity > 0
        &&& self.entries.len() <= self.capacity
        &&& unique_keys(self.entries)
    }

    /// Whether a held state still answers at `now`.
    pub open spec fn answers(state: LookupState, now: Instant) -> bool {
        match state {
            LookupState::Pending { lookup } => true,
            LookupState::Ready { advertises_h3, expires_at } => expires_at.nanos > now.nanos,
        }
    }

    /// What a request for `origin` learns at `now`.
    pub open spec fn discovered(self, origin: OriginView, now: Instant) -> Discovery {
        match lookup(self.entries, origin) {
            Some(state) if Self::answers(state, now) => match state {
                LookupState::Pending { lookup } => Discovery::Pending { lookup, start: false },
                LookupState::Ready { advertises_h3, expires_at } => if advertises_h3 {
                    Discovery::Advertised
                } else {
                    Discovery::NotAdvertised
                },
            },
            _ => Discovery::Pending { lookup: self.next_lookup, start: true },
        }
    }

    /// The state after a request for `origin` at `now`: what answers becomes
    /// the most recently used entry, and what does not is looked up again.
    pub open spec fn after_discover(self, origin: OriginView, now: Instant) -> DiscoveryView {
        match lookup(self.entries, origin) {
            Some(state) if Self::answers(state, now) => DiscoveryView {
                entries: touched(self.entries, origin),
                ..self
            },
            _ => DiscoveryView {
                entries: stored(
                    self.entries,
                    origin,
                    LookupState::Pending { lookup: self.next_lookup },
                    self.capacity,
                ),
                next_lookup: if self.next_lookup == u64::MAX {
                    0
                } else {
                    (self.next_lookup + 1) as u64
                },
                ..self
            },
        }
    }

    /// The state after `number` finished: an entry that was evicted or
    /// replaced meanwhile is not filled.
    pub open spec fn completed(
        self,
        origin: OriginView,
        number: u64,
        advertises_h3: bool,
        ttl: Duration,
        now: Instant,
    ) -> DiscoveryView {
        match position(self.entries, origin) {
            Some(i) if self.entries[i].1 == (LookupState::Pending { lookup: number }) => DiscoveryView {
                entries: self.entries.update(
                    i,
                    (
                        origin,
                        LookupState::Ready {
                            advertises_h3,
                            expires_at: if now.reaches(ttl) {
                                now.after(ttl)
                            } else {
                                now
                            },
                        },
                    ),
                ),
                ..self
            },
            _ => self,
        }
    }
}

/// HTTPS-record lookups of one client, with a bounded cache that honors TTLs.
///
/// Concurrent requests for one origin share one lookup in flight.
#[derive(Debug)]
pub struct HttpsRecordDiscovery {
    entries: LruList<OriginKey, LookupState>,
    next_lookup: u64,
}

impl View for HttpsRecordDiscovery {
    type V = DiscoveryView;

    closed spec fn view(&self) -> DiscoveryView {
        DiscoveryView {
            capacity: self.entries.bound(),
            entries: self.entries@,
            next_lookup: self.next_lookup,
        }
    }
}

impl HttpsRecordDiscovery {
    /// The state is well formed.
    pub closed spec fn wf(&self) -> bool {
        self.entries.wf()
    }

    /// A well-formed cache has a well-formed state.
    pub proof fn lemma_wf(&self)
        requires
            self.wf(),
        ensures
            self@.wf(),
    {
    }

    /// An empty cache for up to `capacity` origins.
    pub fn new(capacity: usize) -> (r: Self)
        requires
            capacity > 0,
        ensures
            r.wf(),
            r@ == (DiscoveryView { capacity: capacity as nat, entries: Seq::empty(), next_lookup: 1 }),
    {
        HttpsRecordDiscovery { entries: LruList::new(capacity), next_lookup: 1 }
    }

    /// Returns the most origins the cache holds.
    pub fn capacity(&self) -> (r: usize)
        ensures
            r == self@.capacity,
    {
        self.entries.capacity()
    }

    /// Returns how many origins the cache holds.
    pub fn len(&self) -> (r: usize)
        ensures
            r == self@.entries.len(),
    {
        self.entries.len()
    }

    /// Returns the cached result for `origin`, with a shared lookup to start
    /// when there is none.
    ///
    /// An IP-literal host has no DNS name to query. Without a runtime to run
    /// the lookup on, nothing is started.
    pub fn discover(&mut self, origin: &Endpoint, has_runtime: bool, now: Instant) -> (r: Discovery)
        requires
            old(self).wf(),
        ensures
            final(self).wf(),
            is_ip_literal(origin.host@) || !has_runtime ==> r == Discovery::NotAdvertised
                && final(self)@ == old(self)@,
            !is_ip_literal(origin.host@) && has_runtime ==> r == old(self)@.discovered(
                origin_of(origin),
                now,
            ) && final(self)@ == old(self)@.after_discover(origin_of(origin), now),
    {
        if ip_literal(&origin.host) || !has_runtime {
            return Discovery::NotAdvertised;
        }
        let key = OriginKey::new(origin);
        match self.entries.find(&key) {
            Some(i) => {
                let state: LookupState = *self.entries.entry(i).1;
                match state {
                    LookupState::Pending { lookup } => {
                        let _ = self.entries.touch(&key);
                        return Discovery::Pending { lookup, start: false };
                    },
                    LookupState::Ready { advertises_h3, expires_at } => {
                        if expires_at.nanos > now.nanos {
                            let _ = self.entries.touch(&key);
                            return if advertises_h3 {
                                Discovery::Advertised
                            } else {
                                Discovery::NotAdvertised
                            };
                        }
                    },
                }
            },
            None => {},
        }
        let lookup: u64 = self.next_lookup;
        self.next_lookup = if lookup == u64::MAX {
            0
        } else {
            lookup + 1
        };
        self.entries.store(key, LookupState::Pending { lookup });
        Discovery::Pending { lookup, start: true }
    }

    /// Stores a finished lookup unless its entry was evicted or replaced
    /// meanwhile.
    pub fn complete(
        &mut self,
        origin: &Endpoint,
        number: u64,
        advertises_h3: bool,
        ttl: Duration,
        now: Instant,
    )
        requires
            old(self).wf(),
        ensures
            final(self).wf(),
            final(self)@ == old(self)@.completed(
                origin_of(origin),
                number,
                advertises_h3,
                ttl,
                now,
            ),
    {
        let key = OriginKey::new(origin);
        match self.entries.find(&key) {
            Some(i) => {
                let state: LookupState = *self.entries.entry(i).1;
                match state {
                    LookupState::Pending { lookup } => {
                        if lookup == number {
                            let expires_at = match now.checked_add(ttl) {
                                Some(at) => at,
                                None => now,
                            };
                            let fresh = LookupState::Ready { advertises_h3, expires_at };
                            proof {
                                lemma_position(self.entries@, key@);
                                lemma_replaced(self.entries@, i as int, fresh);
                            }
                            self.entries.replace(i, fresh);
                        }
                    },
                    LookupState::Ready { advertises_h3: _, expires_at: _ } => {},
                }
            },
            None => {},
        }
    }
}

/// While a lookup is in flight, another request for its origin shares it and
/// starts none.
pub proof fn concurrent_requests_share_one_lookup(
    cache: DiscoveryView,
    origin: OriginView,
    now: Instant,
    later: Instant,
)
    requires
        cache.wf(),
        cache.discovered(origin, now) is Pending,
    ensures
        cache.after_discover(origin, now).wf(),
        cache.after_discover(origin, now).discovered(origin, later) == (Discovery::Pending {
            lookup: cache.discovered(origin, now)->lookup,
            start: false,
        }),
{
    lemma_stored(
        cache.entries,
        origin,
        LookupState::Pending { lookup: cache.next_lookup },
        cache.capacity,
    );
    lemma_touched(cache.entries, origin);
    assert(lookup(touched(cache.entries, origin), origin) == lookup(cache.entries, origin));
}

/// A finished lookup answers every request for its origin until its TTL ends,
/// and not after.
pub proof fn finished_lookup_answers_until_it_expires(
    cache: DiscoveryView,
    origin: OriginView,
    number: u64,
    advertises_h3: bool,
    ttl: Duration,
    now: Instant,
    later: Instant,
)
    requires
        cache.wf(),
        lookup(cache.entries, origin) == Some(LookupState::Pending { lookup: number }),
        now.reaches(ttl),
    ensures
        ({
            let after = cache.completed(origin, number, advertises_h3, ttl, now);
            &&& after.wf()
            &&& later.nanos < now.nanos + ttl.nanos ==> after.discovered(origin, later) == (
            if advertises_h3 {
                Discovery::Advertised
            } else {
                Discovery::NotAdvertised
            })
            &&& later.nanos >= now.nanos + ttl.nanos ==> after.discovered(origin, later) == (
            Discovery::Pending { lookup: cache.next_lookup, start: true })
        }),
{
    lemma_position(cache.entries, origin);
    let i = position(cache.entries, origin)->0;
    lemma_replaced(
        cache.entries,
        i,
        LookupState::Ready { advertises_h3, expires_at: now.after(ttl) },
    );
}

} // verus!
