//! Caller-owned persistence of learned alternatives.

use vstd::prelude::*;
use crate::alt_svc::field::MAX_DELTA_SECONDS;
use crate::alt_svc::store::{
    expiration, expiration_at, serialized_origin, AltSvcLocation, AltSvcStore, LocationView,
    StoreKey, StoreKeyView, StoreView, StoredView,
};
use crate::endpoint::{Endpoint, OriginKey, OriginView, RouteView};
use crate::host::{
    format_ipv4, format_ipv6, ipv4_text, ipv6_literal, ipv6_text, parse_host, parse_ipv6, parse_url,
    url_host, url_parts, Host, HostView,
};
use crate::lru::{position, Key};
use crate::text::{decimal, lowercase, push_char, push_decimal, same_text, to_chars};
use crate::time::{Duration, Instant, SystemTime, NANOS_PER_SEC};

verus! {

/// One origin's HTTP/3 alternative in an [`AltSvcSnapshot`].
#[derive(Clone, PartialEq, Eq)]
pub struct AltSvcSnapshotEntry {
    pub origin: String,
    pub alternative_host: String,
    pub alternative_port: u16,
    pub expires_at: SystemTime,
}

/// What an [`AltSvcSnapshotEntry`] holds.
pub struct SnapshotEntryView {
    pub origin: Seq<char>,
    pub alternative_host: Seq<char>,
    pub alternative_port: u16,
    pub expires_at: SystemTime,
}

impl View for AltSvcSnapshotEntry {
    type V = SnapshotEntryView;

    open spec fn view(&self) -> SnapshotEntryView {
        SnapshotEntryView {
            origin: self.origin@,
            alternative_host: self.alternative_host@,
            alternative_port: self.alternative_port,
            expires_at: self.expires_at,
        }
    }
}

impl AltSvcSnapshotEntry {
    /// Creates an entry for later import.
    ///
    /// `origin` must be a canonical HTTPS origin serialization, such as
    /// `https://example.com` or `https://example.com:8443`. The alternative
    /// host is canonical and unbracketed, such as `alt.example.com`,
    /// `192.0.2.1`, or `2001:db8::1`. Import revalidates every part.
    pub fn new(
        origin: &str,
        alternative_host: &str,
        alternative_port: u16,
        expires_at: SystemTime,
    ) -> (r: Self)
        ensures
            r@ == (SnapshotEntryView {
                origin: origin@,
                alternative_host: alternative_host@,
                alternative_port,
                expires_at,
            }),
    {
        AltSvcSnapshotEntry {
            origin: origin.to_owned(),
            alternative_host: alternative_host.to_owned(),
            alternative_port,
            expires_at,
        }
    }

    /// Returns the canonical ASCII serialization of the HTTPS origin.
    pub fn origin(&self) -> (r: &str)
        ensures
            r@ == self@.origin,
    {
        self.origin.as_str()
    }

    /// Returns the canonical, unbracketed host that receives QUIC packets.
    pub fn alternative_host(&self) -> (r: &str)
        ensures
            r@ == self@.alternative_host,
    {
        self.alternative_host.as_str()
    }

    /// Returns the UDP port that receives QUIC packets.
    pub fn alternative_port(&self) -> (r: u16)
        ensures
            r == self@.alternative_port,
    {
        self.alternative_port
    }

    /// Returns the absolute wall-clock time after which the entry is unusable.
    pub fn expires_at(&self) -> (r: SystemTime)
        ensures
            r == self@.expires_at,
    {
        self.expires_at
    }

    /// Returns what may be shown of this entry.
    pub fn redacted(&self) -> (r: RedactedAlternative)
        ensures
            r == shown(self@),
    {
        RedactedAlternative { alternative_port: self.alternative_port, expires_at: self.expires_at }
    }
}

/// What may be shown of an entry: neither its origin nor the alternative's
/// host.
#[derive(Clone, Copy, Debug, PartialEq, Eq)]
pub struct RedactedAlternative {
    pub alternative_port: u16,
    pub expires_at: SystemTime,
}

/// What may be shown of an entry.
pub open spec fn shown(entry: SnapshotEntryView) -> RedactedAlternative {
    RedactedAlternative { alternative_port: entry.alternative_port, expires_at: entry.expires_at }
}

/// Alternatives exported from one client, least recently used first.
///
/// A snapshot contains only each origin's canonical ASCII serialization, the
/// alternative's QUIC host and port, and an absolute expiry rounded down to a
/// whole second. It holds no connection, TLS ticket, route, cookie, or
/// credential state, and describes alternatives for the direct route only.
#[derive(Clone, PartialEq, Eq)]
pub struct AltSvcSnapshot {
    pub entries: Vec<AltSvcSnapshotEntry>,
}

impl View for AltSvcSnapshot {
    type V = Seq<SnapshotEntryView>;

    open spec fn view(&self) -> Seq<SnapshotEntryView> {
        self.entries@.map_values(|entry: AltSvcSnapshotEntry| entry@)
    }
}

impl Default for AltSvcSnapshot {
    fn default() -> (r: Self)
        ensures
            r@ == Seq::<SnapshotEntryView>::empty(),
    {
        let r = AltSvcSnapshot { entries: Vec::new() };
        assert(r@ =~= Seq::<SnapshotEntryView>::empty());
        r
    }
}

impl AltSvcSnapshot {
    /// Creates a snapshot from entries ordered least recently used first.
    ///
    /// Entries are validated when imported, not here.
    pub fn new(entries: Vec<AltSvcSnapshotEntry>) -> (r: Self)
        ensures
            r.entries == entries,
    {
        AltSvcSnapshot { entries }
    }

    /// Returns the entries, least recently used first.
    pub fn entries(&self) -> (r: &[AltSvcSnapshotEntry])
        ensures
            r@ == self.entries@,
    {
        self.entries.as_slice()
    }

    /// Returns the number of entries.
    pub fn len(&self) -> (r: usize)
        ensures
            r == self@.len(),
    {
        self.entries.len()
    }

    /// Returns whether the snapshot has no entries.
    pub fn is_empty(&self) -> (r: bool)
        ensures
            r == (self@.len() == 0),
    {
        self.entries.len() == 0
    }

    /// Returns what may be shown of each entry, in order.
    pub fn redacted(&self) -> (r: Vec<RedactedAlternative>)
        ensures
            r@ == self@.map_values(|entry: SnapshotEntryView| shown(entry)),
    {
        let mut r: Vec<RedactedAlternative> = Vec::new();
        let ghost all = self@.map_values(|entry: SnapshotEntryView| shown(entry));
        let mut i: usize = 0;
        assert(all.take(0) =~= Seq::empty());
        while i < self.entries.len()
            invariant
                i <= self.entries@.len(),
                all == self@.map_values(|entry: SnapshotEntryView| shown(entry)),
                r@ == all.take(i as int),
            decreases self.entries@.len() - i,
        {
            r.push(self.entries[i].redacted());
            assert(all.take(i + 1) =~= all.take(i as int).push(all[i as int]));
            i += 1;
        }
        assert(all.take(i as int) =~= all);
        r
    }
}

/// Why an import rejected a snapshot.
#[derive(Clone, Copy, Debug, PartialEq, Eq, Structural)]
pub enum AltSvcSnapshotErrorKind {
    /// The client was built without Alt-Svc.
    Disabled,
    /// An entry's origin is not a canonical HTTPS origin serialization.
    NoncanonicalOrigin,
    /// An entry's alternative host or port is not a canonical QUIC location.
    InvalidAlternative,
}

/// A rejected import; the client state is unchanged.
#[derive(Clone, Copy, Debug, PartialEq, Eq, Structural)]
pub struct AltSvcSnapshotError {
    pub kind: AltSvcSnapshotErrorKind,
    pub entry: Option<usize>,
}

impl AltSvcSnapshotErrorKind {
    /// What the category says.
    pub open spec fn text(self) -> Seq<char> {
        match self {
            AltSvcSnapshotErrorKind::Disabled => "Alt-Svc is not enabled for this client"@,
            AltSvcSnapshotErrorKind::NoncanonicalOrigin => "Alt-Svc snapshot origin is not a canonical HTTPS origin"@,
            AltSvcSnapshotErrorKind::InvalidAlternative => "Alt-Svc snapshot alternative is not a canonical host and nonzero port"@,
        }
    }
}

impl AltSvcSnapshotError {
    /// An import into a client without Alt-Svc.
    pub fn disabled() -> (r: Self)
        ensures
            r == (AltSvcSnapshotError { kind: AltSvcSnapshotErrorKind::Disabled, entry: None }),
    {
        AltSvcSnapshotError { kind: AltSvcSnapshotErrorKind::Disabled, entry: None }
    }

    /// Returns the rejection category.
    pub fn kind(&self) -> (r: AltSvcSnapshotErrorKind)
        ensures
            r == self.kind,
    {
        self.kind
    }

    /// Returns the index of the rejected entry, if one entry caused the error.
    pub fn entry_index(&self) -> (r: Option<usize>)
        ensures
            r == self.entry,
    {
        self.entry
    }

    /// Returns what this error says.
    pub fn message(&self) -> (r: String)
        ensures
            r@ == (match self.entry {
                Some(index) => self.kind.text() + " (entry "@ + decimal(index as nat) + ")"@,
                None => self.kind.text(),
            }),
    {
        let mut text = (match self.kind {
            AltSvcSnapshotErrorKind::Disabled => "Alt-Svc is not enabled for this client",
            AltSvcSnapshotErrorKind::NoncanonicalOrigin => "Alt-Svc snapshot origin is not a canonical HTTPS origin",
            AltSvcSnapshotErrorKind::InvalidAlternative => "Alt-Svc snapshot alternative is not a canonical host and nonzero port",
        }).to_owned();
        match self.entry {
            Some(index) => {
                text.append(" (entry ");
                push_decimal(&mut text, index as u64);
                text.append(")");
            },
            None => {},
        }
        text
    }
}

/// The origin whose canonical HTTPS serialization `text` is.
pub open spec fn origin_named(text: Seq<char>) -> Option<OriginView> {
    match url_parts(text) {
        None => None,
        Some(url) => if url.scheme != "https"@ {
            None
        } else {
            match (url.host_text, url.port) {
                (Some(host), Some(port)) => match Endpoint::named(
                    host.push(':') + decimal(port as nat),
                    443,
                ) {
                    None => None,
                    Some((host, port)) => {
                        let origin = OriginView { host: lowercase(host), port };
                        if serialized_origin(origin) == text {
                            Some(origin)
                        } else {
                            None
                        }
                    },
                },
                _ => None,
            }
        },
    }
}

/// The canonical text of a host that stands without brackets.
pub open spec fn canonical_host(host: Seq<char>) -> Option<Seq<char>> {
    if host.contains(':') {
        match ipv6_literal(host) {
            Some(bits) => Some(ipv6_text(bits)),
            None => None,
        }
    } else {
        match url_host(host) {
            Some(HostView::Domain(domain)) => Some(domain),
            Some(HostView::Ipv4(bits)) => Some(ipv4_text(bits)),
            _ => None,
        }
    }
}

/// The location that a canonical host and a port other than zero name.
pub open spec fn location_named(host: Seq<char>, port: u16) -> Option<LocationView> {
    if port != 0 && host.len() > 0 && canonical_host(host) == Some(host) {
        Some(LocationView { host, port })
    } else {
        None
    }
}

/// Why an entry is refused, if it is.
pub open spec fn refusal(entry: SnapshotEntryView) -> Option<AltSvcSnapshotErrorKind> {
    if origin_named(entry.origin) is None {
        Some(AltSvcSnapshotErrorKind::NoncanonicalOrigin)
    } else if location_named(entry.alternative_host, entry.alternative_port) is None {
        Some(AltSvcSnapshotErrorKind::InvalidAlternative)
    } else {
        None
    }
}

/// The entry that a stored alternative exports as: only those of the direct
/// route that still have a whole second's boundary ahead of them.
pub open spec fn exported_entry(
    entry: (StoreKeyView, StoredView),
    now: Instant,
    system_now: SystemTime,
) -> Option<SnapshotEntryView> {
    let (key, held) = entry;
    let remaining = Duration { nanos: (held.expires_at.nanos - now.nanos) as u128 };
    let expires_at = SystemTime {
        nanos: (system_now.nanos + remaining.nanos) as i128,
    }.floored();
    if key.route == RouteView::Direct && held.expires_at.nanos >= now.nanos && system_now.reaches(
        remaining,
    ) && expires_at.nanos > system_now.nanos {
        Some(
            SnapshotEntryView {
                origin: serialized_origin(key.origin),
                alternative_host: held.location.host,
                alternative_port: held.location.port,
                expires_at,
            },
        )
    } else {
        None
    }
}

/// What a list of alternatives exports as.
pub open spec fn exported(
    entries: Seq<(StoreKeyView, StoredView)>,
    now: Instant,
    system_now: SystemTime,
) -> Seq<SnapshotEntryView>
    decreases entries.len(),
{
    if entries.len() == 0 {
        Seq::empty()
    } else {
        let before = exported(entries.drop_last(), now, system_now);
        match exported_entry(entries.last(), now, system_now) {
            Some(entry) => before.push(entry),
            None => before,
        }
    }
}

/// The direct-route key of the origin that an entry names.
pub open spec fn entry_key(entry: SnapshotEntryView) -> StoreKeyView {
    StoreKeyView { origin: origin_named(entry.origin)->0, route: RouteView::Direct }
}

/// Whether a later entry names the same origin as entry `i`.
pub open spec fn superseded(list: Seq<SnapshotEntryView>, i: int) -> bool {
    exists|j: int| i < j < list.len() && entry_key(#[trigger] list[j]) == entry_key(list[i])
}

/// The lifetime of an imported entry: what the snapshot leaves, cut at
/// [`MAX_DELTA_SECONDS`].
pub open spec fn imported_lifetime(entry: SnapshotEntryView, system_now: SystemTime) -> Duration {
    let left = entry.expires_at.nanos - system_now.nanos;
    let longest = MAX_DELTA_SECONDS * NANOS_PER_SEC;
    Duration { nanos: (if left <= longest { left } else { longest }) as u128 }
}

/// When an imported entry expires.
pub open spec fn imported_expiry(
    entry: SnapshotEntryView,
    now: Instant,
    system_now: SystemTime,
) -> Instant {
    let lifetime = imported_lifetime(entry, system_now);
    if now.reaches(lifetime) {
        now.after(lifetime)
    } else {
        expiration(now, (lifetime.nanos / NANOS_PER_SEC) as u64)
    }
}

/// The state after the entries from `i` on were imported, newest first. An
/// entry is passed over when a later one names its origin, when it has
/// expired, when the store is full, and when the store holds its origin.
pub open spec fn imported(
    store: StoreView,
    list: Seq<SnapshotEntryView>,
    i: int,
    now: Instant,
    system_now: SystemTime,
) -> StoreView
    decreases list.len() - i,
{
    if i < 0 || i >= list.len() {
        store
    } else {
        let later = imported(store, list, i + 1, now, system_now);
        let entry = list[i];
        if superseded(list, i) || entry.expires_at.nanos <= system_now.nanos || later.entries.len()
            >= later.capacity || position(later.entries, entry_key(entry)) is Some {
            later
        } else {
            later.with_oldest(
                entry_key(entry),
                LocationView { host: entry.alternative_host, port: entry.alternative_port },
                imported_expiry(entry, now, system_now),
            )
        }
    }
}

fn parse_origin(text: &String) -> (r: Option<OriginKey>)
    ensures
        match origin_named(text@) {
            Some(origin) => r matches Some(key) && key@ == origin,
            None => r is None,
        },
{
    let url = match parse_url(text.as_str()) {
        Some(url) => url,
        None => return None,
    };
    if !same_text(url.scheme.as_str(), "https") {
        return None;
    }
    match (url.host_text, url.port) {
        (Some(host), Some(port)) => {
            let mut authority = host;
            push_char(&mut authority, ':');
            push_decimal(&mut authority, port as u64);
            match Endpoint::parse(authority.as_str(), 443) {
                Some(endpoint) => {
                    let key = OriginKey::new(&endpoint);
                    if key.serialize() == *text {
                        Some(key)
                    } else {
                        None
                    }
                },
                None => None,
            }
        },
        _ => None,
    }
}

fn canonical_text(host: &String) -> (r: Option<String>)
    ensures
        match canonical_host(host@) {
            Some(text) => r matches Some(found) && found@ == text,
            None => r is None,
        },
{
    let chars = to_chars(host.as_str());
    let mut colon = false;
    let mut i: usize = 0;
    while i < chars.len()
        invariant
            i <= chars@.len(),
            chars@ == host@,
            colon <==> exists|j: int| 0 <= j < i && host@[j] == ':',
        decreases chars@.len() - i,
    {
        if chars[i] == ':' {
            colon = true;
            assert(host@[i as int] == ':');
        }
        i = i + 1;
    }
    assert(colon == host@.contains(':'));
    if colon {
        match parse_ipv6(host.as_str()) {
            Some(bits) => Some(format_ipv6(bits)),
            None => None,
        }
    } else {
        match parse_host(host.as_str()) {
            Some(Host::Domain(domain)) => Some(domain),
            Some(Host::Ipv4(bits)) => Some(format_ipv4(bits)),
            _ => None,
        }
    }
}

fn parse_alternative(host: &String, port: u16) -> (r: Option<AltSvcLocation>)
    ensures
        match location_named(host@, port) {
            Some(location) => r matches Some(found) && found@ == location,
            None => r is None,
        },
{
    if port == 0 || host.as_str().is_empty() {
        return None;
    }
    match canonical_text(host) {
        Some(text) => if text == *host {
            Some(AltSvcLocation { host: text, port })
        } else {
            None
        },
        None => None,
    }
}

impl AltSvcStore {
    /// Exports the unexpired alternatives of the direct route, least recently
    /// used first, at the wall-clock time `system_now` and the monotonic time
    /// `now`.
    pub fn export(&self, now: Instant, system_now: SystemTime) -> (r: AltSvcSnapshot)
        ensures
            r@ == exported(self@.entries, now, system_now),
    {
        let mut out: Vec<AltSvcSnapshotEntry> = Vec::new();
        let ghost all = self@.entries;
        let n: usize = self.len();
        let mut i: usize = 0;
        assert(all.take(0) =~= Seq::<(StoreKeyView, StoredView)>::empty());
        assert(out@.map_values(|entry: AltSvcSnapshotEntry| entry@) =~= Seq::<
            SnapshotEntryView,
        >::empty());
        while i < n
            invariant
                n == all.len(),
                all == self@.entries,
                i <= n,
                out@.map_values(|entry: AltSvcSnapshotEntry| entry@) == exported(
                    all.take(i as int),
                    now,
                    system_now,
                ),
            decreases n - i,
        {
            proof {
                assert(all.take(i + 1).drop_last() =~= all.take(i as int));
                assert(all.take(i + 1).last() == all[i as int]);
            }
            let (key, held) = self.entry(i);
            let ghost before = out@;
            if key.route.is_direct() && held.expires_at.nanos >= now.nanos {
                let remaining = Duration { nanos: held.expires_at.nanos - now.nanos };
                match system_now.checked_add(remaining) {
                    Some(end) => {
                        let expires_at = end.floor_to_second();
                        if expires_at.nanos > system_now.nanos {
                            out.push(
                                AltSvcSnapshotEntry {
                                    origin: key.origin.serialize(),
                                    alternative_host: held.location.host.clone(),
                                    alternative_port: held.location.port,
                                    expires_at,
                                },
                            );
                            assert(out@.map_values(|entry: AltSvcSnapshotEntry| entry@)
                                =~= before.map_values(|entry: AltSvcSnapshotEntry| entry@).push(
                                out@.last()@,
                            ));
                        }
                    },
                    None => {},
                }
            }
            i = i + 1;
        }
        assert(all.take(i as int) =~= all);
        AltSvcSnapshot::new(out)
    }

    /// Validates every entry, then adds unexpired entries for origins this
    /// store does not already hold, ranked older than every held entry.
    pub fn import(&mut self, snapshot: &AltSvcSnapshot, now: Instant, system_now: SystemTime) -> (r:
        Result<(), AltSvcSnapshotError>)
        requires
            old(self).wf(),
        ensures
            final(self).wf(),
            r is Ok <==> forall|i: int|
                0 <= i < snapshot@.len() ==> refusal(#[trigger] snapshot@[i]) is None,
            r is Ok ==> final(self)@ == imported(old(self)@, snapshot@, 0, now, system_now),
            r matches Err(error) ==> {
                &&& final(self)@ == old(self)@
                &&& error.entry matches Some(index) && index < snapshot@.len() && Some(error.kind)
                    == refusal(snapshot@[index as int]) && forall|j: int|
                    0 <= j < index ==> refusal(#[trigger] snapshot@[j]) is None
            },
    {
        let ghost list = snapshot@;
        let n: usize = snapshot.entries.len();
        let mut origins: Vec<OriginKey> = Vec::new();
        let mut locations: Vec<AltSvcLocation> = Vec::new();
        let mut i: usize = 0;
        while i < n
            invariant
                i <= n,
                n == list.len(),
                list == snapshot@,
                self.wf(),
                *self == *old(self),
                origins@.len() == i,
                locations@.len() == i,
                forall|j: int| 0 <= j < i ==> refusal(#[trigger] list[j]) is None,
                forall|j: int|
                    0 <= j < i ==> (#[trigger] origins@[j])@ == origin_named(list[j].origin)->0,
                forall|j: int|
                    0 <= j < i ==> (#[trigger] locations@[j])@ == (LocationView {
                        host: list[j].alternative_host,
                        port: list[j].alternative_port,
                    }),
            decreases n - i,
        {
            assert(list[i as int] == snapshot.entries@[i as int]@);
            let entry = &snapshot.entries[i];
            let origin = match parse_origin(&entry.origin) {
                Some(origin) => origin,
                None => {
                    return Err(
                        AltSvcSnapshotError {
                            kind: AltSvcSnapshotErrorKind::NoncanonicalOrigin,
                            entry: Some(i),
                        },
                    );
                },
            };
            let location = match parse_alternative(&entry.alternative_host, entry.alternative_port) {
                Some(location) => location,
                None => {
                    return Err(
                        AltSvcSnapshotError {
                            kind: AltSvcSnapshotErrorKind::InvalidAlternative,
                            entry: Some(i),
                        },
                    );
                },
            };
            origins.push(origin);
            locations.push(location);
            i = i + 1;
        }
        let mut k: usize = n;
        while k > 0
            invariant
                k <= n,
                n == list.len(),
                list == snapshot@,
                self.wf(),
                origins@.len() == n,
                locations@.len() == n,
                forall|j: int|
                    0 <= j < n ==> (#[trigger] origins@[j])@ == origin_named(list[j].origin)->0,
                forall|j: int|
                    0 <= j < n ==> (#[trigger] locations@[j])@ == (LocationView {
                        host: list[j].alternative_host,
                        port: list[j].alternative_port,
                    }),
                self@ == imported(old(self)@, list, k as int, now, system_now),
            decreases k,
        {
            let ghost later = self@;
            k = k - 1;
            assert(list[k as int] == snapshot.entries@[k as int]@);
            let expires_at = snapshot.entries[k].expires_at;
            let mut repeated = false;
            let mut j: usize = k + 1;
            while j < n
                invariant
                    k < n == list.len(),
                    k + 1 <= j <= n,
                    origins@.len() == n,
                    forall|j: int|
                        0 <= j < n ==> (#[trigger] origins@[j])@ == origin_named(list[j].origin)->0,
                    repeated <==> exists|m: int|
                        k < m < j && entry_key(#[trigger] list[m]) == entry_key(list[k as int]),
                decreases n - j,
            {
                if origins[j].same(&origins[k]) {
                    assert(entry_key(list[j as int]) == entry_key(list[k as int]));
                    repeated = true;
                } else {
                    assert(entry_key(list[j as int]) != entry_key(list[k as int]));
                }
                j = j + 1;
            }
            assert(repeated == superseded(list, k as int));
            if !repeated && expires_at.nanos > system_now.nanos && self.len() < self.capacity() {
                let key = StoreKey::new_direct(origins[k].clone());
                if !self.holds(&key) {
                    let longest: i128 = 2_147_483_648 * 1_000_000_000;
                    assert(longest == MAX_DELTA_SECONDS * NANOS_PER_SEC);
                    let left: i128 = match expires_at.nanos.checked_sub(system_now.nanos) {
                        Some(left) => if left <= longest {
                            left
                        } else {
                            longest
                        },
                        None => longest,
                    };
                    let lifetime = Duration { nanos: left as u128 };
                    assert(lifetime == imported_lifetime(list[k as int], system_now));
                    let expiry = match now.checked_add(lifetime) {
                        Some(at) => at,
                        None => expiration_at(now, (lifetime.nanos / NANOS_PER_SEC) as u64),
                    };
                    self.add_oldest(key, locations[k].clone(), expiry);
                }
            }
        }
        Ok(())
    }
}

} // verus!
