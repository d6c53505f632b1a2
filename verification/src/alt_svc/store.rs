//! The alternatives a client has learned, by origin and route.

use vstd::prelude::*;
use vstd::utf8::encode_utf8;
use crate::alt_svc::field::{
    field_update, member_update, parse_members, parse_response_fields, FieldUpdate, FieldUpdateView,
    MAX_DELTA_SECONDS,
};
use crate::alt_svc::policy::AltSvcBrokenBackoff;
use crate::endpoint::{
    headers_view, origin_of, Endpoint, OriginKey, OriginView, RequestHeader, Route, RouteView,
};
use crate::host::{bracketed, in_brackets, ipv6_literal, parse_ipv6};
use crate::lru::{
    lemma_position, lemma_prepended, lemma_touched, lemma_without, lookup, position, stored,
    touched, unique_keys, without, Key, LruList,
};
use crate::text::{decimal, push_char, push_decimal, same_bytes, to_chars};
use crate::time::{Duration, Instant, INSTANT_MAX_NANOS, NANOS_PER_SEC};

verus! {

/// Where an alternative is reached.
#[derive(Debug, PartialEq, Eq)]
pub struct AltSvcLocation {
    pub host: String,
    pub port: u16,
}

/// What an [`AltSvcLocation`] holds.
pub struct LocationView {
    pub host: Seq<char>,
    pub port: u16,
}

impl View for AltSvcLocation {
    type V = LocationView;

    open spec fn view(&self) -> LocationView {
        LocationView { host: self.host@, port: self.port }
    }
}

impl Clone for AltSvcLocation {
    fn clone(&self) -> (r: Self)
        ensures
            r@ == self@,
    {
        AltSvcLocation { host: self.host.clone(), port: self.port }
    }
}

/// The origin's own location.
pub open spec fn own_location(origin: &Endpoint) -> LocationView {
    LocationView { host: origin_of(origin).host, port: origin.port }
}

/// A location as an authority with an explicit port.
pub open spec fn location_authority(location: LocationView) -> Seq<char> {
    (if ipv6_literal(location.host) is Some {
        bracketed(location.host)
    } else {
        location.host
    }).push(':') + decimal(location.port as nat)
}

impl AltSvcLocation {
    /// The origin's own location.
    pub fn origin(origin: &Endpoint) -> (r: Self)
        ensures
            r@ == own_location(origin),
    {
        let key = OriginKey::new(origin);
        AltSvcLocation { host: key.host, port: key.port }
    }

    /// Returns this location as an authority with an explicit port.
    pub fn authority(&self) -> (r: String)
        ensures
            r@ == location_authority(self@),
    {
        let mut text = if parse_ipv6(self.host.as_str()).is_some() {
            in_brackets(self.host.as_str())
        } else {
            self.host.clone()
        };
        push_char(&mut text, ':');
        push_decimal(&mut text, self.port as u64);
        text
    }
}

/// The ASCII serialization of an HTTPS origin: its default port is left out.
pub open spec fn serialized_origin(origin: OriginView) -> Seq<char> {
    "https://"@ + (if origin.host.contains(':') {
        bracketed(origin.host)
    } else {
        origin.host
    }) + (if origin.port != 443 {
        seq![':'] + decimal(origin.port as nat)
    } else {
        Seq::empty()
    })
}

fn contains_colon(text: &String) -> (r: bool)
    ensures
        r == text@.contains(':'),
{
    let chars = to_chars(text.as_str());
    let mut i: usize = 0;
    while i < chars.len()
        invariant
            i <= chars@.len(),
            chars@ == text@,
            forall|j: int| 0 <= j < i ==> chars@[j] != ':',
        decreases chars@.len() - i,
    {
        if chars[i] == ':' {
            assert(text@[i as int] == ':');
            return true;
        }
        i = i + 1;
    }
    false
}

impl OriginKey {
    /// Returns the ASCII serialization of this HTTPS origin.
    pub fn serialize(&self) -> (r: String)
        ensures
            r@ == serialized_origin(self@),
    {
        let mut text = "https://".to_owned();
        if contains_colon(&self.host) {
            text.append(in_brackets(self.host.as_str()).as_str());
        } else {
            text.append(self.host.as_str());
        }
        if self.port != 443 {
            push_char(&mut text, ':');
            push_decimal(&mut text, self.port as u64);
        }
        assert(text@ =~= serialized_origin(self@));
        text
    }
}

/// Returns the ASCII serialization of the HTTPS origin of `endpoint`.
pub fn canonical_origin(endpoint: &Endpoint) -> (r: String)
    ensures
        r@ == serialized_origin(origin_of(endpoint)),
{
    OriginKey::new(endpoint).serialize()
}

/// Identity of one learned alternative: the origin it was advertised for and
/// the route that carried the advertisement.
///
/// A different route reaches a different network, or cannot carry QUIC at
/// all, so it never reuses another route's alternative.
#[derive(Debug)]
pub struct StoreKey {
    pub origin: OriginKey,
    pub route: Route,
}

/// What a [`StoreKey`] holds.
pub struct StoreKeyView {
    pub origin: OriginView,
    pub route: RouteView,
}

impl View for StoreKey {
    type V = StoreKeyView;

    open spec fn view(&self) -> StoreKeyView {
        StoreKeyView { origin: self.origin@, route: self.route@ }
    }
}

impl Key for StoreKey {
    fn same(&self, other: &Self) -> (r: bool) {
        self.origin.same(&other.origin) && self.route.same(&other.route)
    }
}

impl Clone for StoreKey {
    fn clone(&self) -> (r: Self)
        ensures
            r@ == self@,
    {
        StoreKey { origin: self.origin.clone(), route: self.route.clone() }
    }
}

/// The key of an origin and a route.
pub open spec fn store_key(origin: &Endpoint, route: RouteView) -> StoreKeyView {
    StoreKeyView { origin: origin_of(origin), route }
}

impl StoreKey {
    /// Returns the key of `endpoint` over `route`.
    pub fn new(endpoint: &Endpoint, route: &Route) -> (r: Self)
        ensures
            r@ == store_key(endpoint, route@),
    {
        StoreKey { origin: OriginKey::new(endpoint), route: route.clone() }
    }

    /// Returns the direct-route key of an origin.
    pub fn new_direct(origin: OriginKey) -> (r: Self)
        ensures
            r@ == (StoreKeyView { origin: origin@, route: RouteView::Direct }),
    {
        StoreKey { origin, route: Route::Direct }
    }
}

/// A learned alternative.
#[derive(Debug)]
pub struct Stored {
    pub location: AltSvcLocation,
    pub expires_at: Instant,
    pub generation: u64,
}

/// What a [`Stored`] alternative holds.
pub struct StoredView {
    pub location: LocationView,
    pub expires_at: Instant,
    pub generation: u64,
}

impl View for Stored {
    type V = StoredView;

    open spec fn view(&self) -> StoredView {
        StoredView {
            location: self.location@,
            expires_at: self.expires_at,
            generation: self.generation,
        }
    }
}

/// A location that failed for an origin and route.
#[derive(Debug)]
pub struct BrokenKey {
    pub key: StoreKey,
    pub location: AltSvcLocation,
}

/// What a [`BrokenKey`] holds.
pub struct BrokenKeyView {
    pub key: StoreKeyView,
    pub location: LocationView,
}

impl View for BrokenKey {
    type V = BrokenKeyView;

    open spec fn view(&self) -> BrokenKeyView {
        BrokenKeyView { key: self.key@, location: self.location@ }
    }
}

impl Key for BrokenKey {
    fn same(&self, other: &Self) -> (r: bool) {
        self.key.same(&other.key) && self.location.host == other.location.host && self.location.port
            == other.location.port
    }
}

/// The failure history of one location.
#[derive(Clone, Copy, Debug, PartialEq, Eq, Structural)]
pub struct BrokenRecord {
    /// Failures since the alternative last connected.
    pub failures: u32,
    pub until: Instant,
}

impl View for BrokenRecord {
    type V = BrokenRecord;

    open spec fn view(&self) -> BrokenRecord {
        *self
    }
}

/// An alternative selected for a request.
#[derive(Debug)]
pub struct AltSvcSelection {
    pub location: AltSvcLocation,
    pub generation: u64,
    pub broken: bool,
    pub origin_quic_recently_broken: bool,
}

/// What an [`AltSvcSelection`] holds.
pub struct SelectionView {
    pub location: LocationView,
    pub generation: u64,
    pub broken: bool,
    pub origin_quic_recently_broken: bool,
}

impl View for AltSvcSelection {
    type V = SelectionView;

    open spec fn view(&self) -> SelectionView {
        SelectionView {
            location: self.location@,
            generation: self.generation,
            broken: self.broken,
            origin_quic_recently_broken: self.origin_quic_recently_broken,
        }
    }
}

/// What an optional selection holds.
pub open spec fn selection_view(selection: Option<AltSvcSelection>) -> Option<SelectionView> {
    match selection {
        Some(selection) => Some(selection@),
        None => None,
    }
}

/// An HTTP/2 ALTSVC frame: the origin of one on stream 0, and its value.
#[derive(Debug)]
pub struct AltSvcFrame {
    pub origin: Option<Vec<u8>>,
    pub value: Vec<u8>,
}

/// What an [`AltSvcFrame`] holds.
pub struct FrameView {
    pub origin: Option<Seq<u8>>,
    pub value: Seq<u8>,
}

impl View for AltSvcFrame {
    type V = FrameView;

    open spec fn view(&self) -> FrameView {
        FrameView {
            origin: match self.origin {
                Some(origin) => Some(origin@),
                None => None,
            },
            value: self.value@,
        }
    }
}

/// The state of an [`AltSvcStore`].
///
/// Entries stand least recently used first, failure records least recently
/// marked first.
pub struct StoreView {
    pub capacity: nat,
    pub entries: Seq<(StoreKeyView, StoredView)>,
    pub broken: Seq<(BrokenKeyView, BrokenRecord)>,
    pub next_generation: u64,
}

/// The generation after `generation`.
pub open spec fn next_generation(generation: u64) -> u64 {
    if generation == u64::MAX {
        0
    } else {
        (generation + 1) as u64
    }
}

/// When something that is fresh for `seconds` from `now` expires: no later
/// than [`MAX_DELTA_SECONDS`] and the clock's range allow.
pub open spec fn expiration(now: Instant, seconds: u64) -> Instant {
    if now.nanos > INSTANT_MAX_NANOS {
        now
    } else {
        Instant { nanos: (now.nanos + expiration_seconds(now, seconds) * NANOS_PER_SEC) as u128 }
    }
}

/// The whole seconds of an expiration: the least of what is asked,
/// [`MAX_DELTA_SECONDS`] and what the clock can still represent.
pub open spec fn expiration_seconds(now: Instant, seconds: u64) -> int {
    let room = (INSTANT_MAX_NANOS - now.nanos) / (NANOS_PER_SEC as int);
    let wanted = if seconds <= MAX_DELTA_SECONDS { seconds } else { MAX_DELTA_SECONDS };
    if wanted <= room {
        wanted as int
    } else {
        room
    }
}

/// Returns when something that is fresh for `seconds` from `now` expires.
pub fn expiration_at(now: Instant, seconds: u64) -> (r: Instant)
    ensures
        r == expiration(now, seconds),
{
    if now.nanos > INSTANT_MAX_NANOS {
        return now;
    }
    let room: u128 = (INSTANT_MAX_NANOS - now.nanos) / NANOS_PER_SEC;
    let wanted: u64 = if seconds <= MAX_DELTA_SECONDS {
        seconds
    } else {
        MAX_DELTA_SECONDS
    };
    let whole: u128 = if wanted as u128 <= room {
        wanted as u128
    } else {
        room
    };
    assert(whole * NANOS_PER_SEC <= room * NANOS_PER_SEC) by (nonlinear_arith)
        requires
            whole <= room,
    ;
    assert(room * NANOS_PER_SEC <= INSTANT_MAX_NANOS - now.nanos);
    Instant { nanos: now.nanos + whole * NANOS_PER_SEC }
}

impl StoreView {
    /// Both lists keep the bound and hold nothing twice.
    pub open spec fn wf(self) -> bool {
        &&& self.capacity > 0
        &&& self.entries.len() <= self.capacity
        &&& unique_keys(self.entries)
        &&& self.broken.len() <= self.capacity
        &&& unique_keys(self.broken)
    }

    /// The state after the alternative of `key` was removed.
    pub open spec fn removed(self, key: StoreKeyView) -> StoreView {
        StoreView { entries: without(self.entries, key), ..self }
    }

    /// The state after a response of `key` said `update` at `now`.
    pub open spec fn learned(self, key: StoreKeyView, update: FieldUpdateView, now: Instant) -> StoreView {
        match update {
            FieldUpdateView::Malformed => self,
            FieldUpdateView::Absent => self,
            FieldUpdateView::Clear => self.removed(key),
            FieldUpdateView::Replace { alternative: None, age } => self.removed(key),
            FieldUpdateView::Replace { alternative: Some(found), age } => if found.max_age <= age {
                self.removed(key)
            } else {
                StoreView {
                    entries: stored(
                        self.entries,
                        key,
                        StoredView {
                            location: LocationView { host: found.host, port: found.port },
                            expires_at: expiration(now, (found.max_age - age) as u64),
                            generation: self.next_generation,
                        },
                        self.capacity,
                    ),
                    next_generation: next_generation(self.next_generation),
                    ..self
                }
            },
        }
    }

    /// The state after ALTSVC frames in arrival order. A stream-0 frame
    /// applies only when its origin is byte-identical to `canonical`.
    pub open spec fn learned_frames(
        self,
        origin_host: Seq<char>,
        canonical: Seq<u8>,
        key: StoreKeyView,
        frames: Seq<FrameView>,
        now: Instant,
    ) -> StoreView
        decreases frames.len(),
    {
        if frames.len() == 0 {
            self
        } else {
            let before = self.learned_frames(origin_host, canonical, key, frames.drop_last(), now);
            let frame = frames.last();
            if frame.origin is Some && frame.origin->0 != canonical {
                before
            } else {
                before.learned(key, member_update(origin_host, frame.value, 0), now)
            }
        }
    }

    /// Whether `location` is in a broken period at `now`.
    pub open spec fn is_broken(self, key: StoreKeyView, location: LocationView, now: Instant) -> bool {
        lookup(self.broken, BrokenKeyView { key, location }) matches Some(record)
            && record.until.nanos > now.nanos
    }

    /// Whether `location` has failed and not connected since.
    pub open spec fn has_failed(self, key: StoreKeyView, location: LocationView) -> bool {
        position(self.broken, BrokenKeyView { key, location }) is Some
    }

    /// The state after a request of `key` asked for an alternative at `now`:
    /// an expired one is dropped, a fresh one becomes the most recently used.
    pub open spec fn after_get(self, key: StoreKeyView, now: Instant) -> StoreView {
        match lookup(self.entries, key) {
            None => self,
            Some(entry) => if entry.expires_at.nanos <= now.nanos {
                self.removed(key)
            } else {
                StoreView { entries: touched(self.entries, key), ..self }
            },
        }
    }

    /// The alternative that a request of `key` gets at `now`.
    pub open spec fn selection(self, key: StoreKeyView, own: LocationView, now: Instant) -> Option<
        SelectionView,
    > {
        match lookup(self.entries, key) {
            None => None,
            Some(entry) => if entry.expires_at.nanos <= now.nanos {
                None
            } else {
                Some(
                    SelectionView {
                        location: entry.location,
                        generation: entry.generation,
                        broken: self.is_broken(key, entry.location, now),
                        origin_quic_recently_broken: self.has_failed(key, own),
                    },
                )
            },
        }
    }

    /// The failure record of a location after one more failure at `now`. A
    /// failure inside a broken period counts without extending it.
    pub open spec fn failed_record(
        self,
        failed: BrokenKeyView,
        backoff: AltSvcBrokenBackoff,
        now: Instant,
    ) -> BrokenRecord {
        let before = match lookup(self.broken, failed) {
            Some(record) => record,
            None => BrokenRecord { failures: 0, until: now },
        };
        BrokenRecord {
            failures: if before.failures == u32::MAX {
                u32::MAX
            } else {
                (before.failures + 1) as u32
            },
            until: if before.until.nanos > now.nanos {
                before.until
            } else {
                broken_until(now, backoff, before.failures)
            },
        }
    }

    /// The state after `location` failed at `now`.
    pub open spec fn marked_broken(
        self,
        failed: BrokenKeyView,
        backoff: AltSvcBrokenBackoff,
        now: Instant,
    ) -> StoreView {
        StoreView {
            broken: stored(
                self.broken,
                failed,
                self.failed_record(failed, backoff, now),
                self.capacity,
            ),
            ..self
        }
    }

    /// The state after QUIC to the origin's own location failed its
    /// handshake: an earlier record stays as it is.
    pub open spec fn marked_recently_broken(self, own: BrokenKeyView, now: Instant) -> StoreView {
        if position(self.broken, own) is Some {
            self
        } else {
            StoreView {
                broken: stored(
                    self.broken,
                    own,
                    BrokenRecord { failures: 0, until: now },
                    self.capacity,
                ),
                ..self
            }
        }
    }

    /// The state after `location` connected: its history is gone, and so is
    /// that of the origin's own location unless it is in a broken period.
    pub open spec fn confirmed(self, key: StoreKeyView, location: LocationView, own: LocationView, now: Instant) -> StoreView {
        let cleared = StoreView {
            broken: without(self.broken, BrokenKeyView { key, location }),
            ..self
        };
        if cleared.has_failed(key, own) && !cleared.is_broken(key, own, now) {
            StoreView {
                broken: without(cleared.broken, BrokenKeyView { key, location: own }),
                ..self
            }
        } else {
            cleared
        }
    }

    /// The state with one more alternative, as the least recently used one
    /// and under a fresh generation.
    pub open spec fn with_oldest(
        self,
        key: StoreKeyView,
        location: LocationView,
        expires_at: Instant,
    ) -> StoreView {
        StoreView {
            entries: seq![
                (key, StoredView { location, expires_at, generation: self.next_generation }),
            ] + self.entries,
            next_generation: next_generation(self.next_generation),
            ..self
        }
    }

    /// The state after the alternative of `key` was given up, if it is still
    /// the one of `generation`.
    pub open spec fn removed_if_current(self, key: StoreKeyView, generation: u64) -> StoreView {
        if lookup(self.entries, key) matches Some(entry) && entry.generation == generation {
            self.removed(key)
        } else {
            self
        }
    }
}

/// When a broken period that starts at `now` after `failures` ends.
pub open spec fn broken_until(now: Instant, backoff: AltSvcBrokenBackoff, failures: u32) -> Instant {
    let period = Duration { nanos: backoff.period_nanos(failures as nat) as u128 };
    if now.reaches(period) {
        now.after(period)
    } else {
        expiration(now, MAX_DELTA_SECONDS)
    }
}

/// The alternatives a client has learned, and the failures of their
/// locations.
#[derive(Debug)]
pub struct AltSvcStore {
    entries: LruList<StoreKey, Stored>,
    /// Race failure history by origin and alternative. A record outlives its
    /// broken period so a later failure backs off further; a successful
    /// alternative connection removes it.
    broken: LruList<BrokenKey, BrokenRecord>,
    next_generation: u64,
}

impl View for AltSvcStore {
    type V = StoreView;

    closed spec fn view(&self) -> StoreView {
        StoreView {
            capacity: self.entries.bound(),
            entries: self.entries@,
            broken: self.broken@,
            next_generation: self.next_generation,
        }
    }
}

impl AltSvcStore {
    /// The state is well formed.
    pub closed spec fn wf(&self) -> bool {
        &&& self.entries.wf()
        &&& self.broken.wf()
        &&& self.entries.bound() == self.broken.bound()
    }

    /// A well-formed store has a well-formed state.
    pub proof fn lemma_wf(&self)
        requires
            self.wf(),
        ensures
            self@.wf(),
    {
    }

    /// An empty store that keeps up to `capacity` origin-and-route pairs.
    pub fn new(capacity: usize) -> (r: Self)
        requires
            capacity > 0,
        ensures
            r.wf(),
            r@ == (StoreView {
                capacity: capacity as nat,
                entries: Seq::empty(),
                broken: Seq::empty(),
                next_generation: 1,
            }),
    {
        AltSvcStore {
            entries: LruList::new(capacity),
            broken: LruList::new(capacity),
            next_generation: 1,
        }
    }

    /// Returns the most origin-and-route pairs the store keeps.
    pub fn capacity(&self) -> (r: usize)
        ensures
            r == self@.capacity,
    {
        self.entries.capacity()
    }

    /// Returns how many alternatives the store holds.
    pub fn len(&self) -> (r: usize)
        ensures
            r == self@.entries.len(),
    {
        self.entries.len()
    }

    /// Returns the alternative at `i`, counted from the least recently used
    /// one, and its key.
    pub fn entry(&self, i: usize) -> (r: (&StoreKey, &Stored))
        requires
            i < self@.entries.len(),
        ensures
            (r.0@, r.1@) == self@.entries[i as int],
    {
        self.entries.entry(i)
    }

    /// Returns whether the store holds an alternative for `key`.
    pub fn holds(&self, key: &StoreKey) -> (r: bool)
        ensures
            r == (position(self@.entries, key@) is Some),
    {
        self.entries.find(key).is_some()
    }

    /// Adds an alternative for a new key as the least recently used one.
    pub fn add_oldest(&mut self, key: StoreKey, location: AltSvcLocation, expires_at: Instant)
        requires
            old(self).wf(),
            old(self)@.entries.len() < old(self)@.capacity,
            position(old(self)@.entries, key@) is None,
        ensures
            final(self).wf(),
            final(self)@ == old(self)@.with_oldest(key@, location@, expires_at),
    {
        let generation: u64 = self.next_generation;
        self.next_generation = if generation == u64::MAX {
            0
        } else {
            generation + 1
        };
        proof {
            lemma_prepended(
                self@.entries,
                key@,
                StoredView { location: location@, expires_at, generation },
            );
        }
        self.entries.push_oldest(key, Stored { location, expires_at, generation });
    }

    fn apply(&mut self, key: StoreKey, update: FieldUpdate, now: Instant)
        requires
            old(self).wf(),
        ensures
            final(self).wf(),
            final(self)@ == old(self)@.learned(key@, update@, now),
    {
        match update {
            FieldUpdate::Malformed | FieldUpdate::Absent => {},
            FieldUpdate::Clear => {
                self.entries.remove(&key);
            },
            FieldUpdate::Replace { alternative: None, age: _ } => {
                self.entries.remove(&key);
            },
            FieldUpdate::Replace { alternative: Some(found), age } => {
                if found.max_age <= age {
                    self.entries.remove(&key);
                } else {
                    let generation: u64 = self.next_generation;
                    self.next_generation = if generation == u64::MAX {
                        0
                    } else {
                        generation + 1
                    };
                    self.entries.store(
                        key,
                        Stored {
                            location: AltSvcLocation { host: found.host, port: found.port },
                            expires_at: expiration_at(now, found.max_age - age),
                            generation,
                        },
                    );
                }
            },
        }
    }

    /// Learns what the fields of a response to `origin` over `route` say.
    pub fn learn(
        &mut self,
        origin: &Endpoint,
        route: &Route,
        fields: &Vec<RequestHeader>,
        now: Instant,
    )
        requires
            old(self).wf(),
        ensures
            final(self).wf(),
            final(self)@ == old(self)@.learned(
                store_key(origin, route@),
                field_update(origin.host@, headers_view(fields@)),
                now,
            ),
    {
        let update = parse_response_fields(&origin.host, fields);
        self.apply(StoreKey::new(origin, route), update, now);
    }

    /// Applies HTTP/2 ALTSVC frames in arrival order.
    ///
    /// A stream-0 frame applies only when its origin is byte-identical to the
    /// request's canonical ASCII origin serialization; a request-stream frame
    /// applies to the request origin.
    pub fn learn_frames(
        &mut self,
        origin: &Endpoint,
        route: &Route,
        frames: &Vec<AltSvcFrame>,
        now: Instant,
    )
        requires
            old(self).wf(),
        ensures
            final(self).wf(),
            final(self)@ == old(self)@.learned_frames(
                origin.host@,
                encode_utf8(serialized_origin(origin_of(origin))),
                store_key(origin, route@),
                frames@.map_values(|frame: AltSvcFrame| frame@),
                now,
            ),
    {
        let canonical = canonical_origin(origin);
        let ghost all = frames@.map_values(|frame: AltSvcFrame| frame@);
        let ghost canonical_bytes = encode_utf8(serialized_origin(origin_of(origin)));
        let mut i: usize = 0;
        assert(all.take(0) =~= Seq::<FrameView>::empty());
        while i < frames.len()
            invariant
                self.wf(),
                i <= frames@.len(),
                all == frames@.map_values(|frame: AltSvcFrame| frame@),
                canonical_bytes == encode_utf8(canonical@),
                self@ == old(self)@.learned_frames(
                    origin.host@,
                    canonical_bytes,
                    store_key(origin, route@),
                    all.take(i as int),
                    now,
                ),
            decreases frames@.len() - i,
        {
            proof {
                assert(all.take(i + 1).drop_last() =~= all.take(i as int));
                assert(all.take(i + 1).last() == frames@[i as int]@);
            }
            let applies = match &frames[i].origin {
                Some(frame_origin) => same_bytes(frame_origin.as_slice(), canonical.as_str().as_bytes()),
                None => true,
            };
            if applies {
                let update = parse_members(&origin.host, frames[i].value.as_slice(), 0);
                self.apply(StoreKey::new(origin, route), update, now);
            }
            i = i + 1;
        }
        assert(all.take(i as int) =~= all);
    }

    /// Returns the fresh alternative of `origin` over `route`, now the most
    /// recently used one; an expired one is dropped.
    pub fn get(&mut self, origin: &Endpoint, route: &Route, now: Instant) -> (r: Option<
        AltSvcSelection,
    >)
        requires
            old(self).wf(),
        ensures
            final(self).wf(),
            final(self)@ == old(self)@.after_get(store_key(origin, route@), now),
            selection_view(r) == old(self)@.selection(
                store_key(origin, route@),
                own_location(origin),
                now,
            ),
    {
        let key = StoreKey::new(origin, route);
        let i = match self.entries.find(&key) {
            Some(i) => i,
            None => return None,
        };
        proof {
            lemma_without(self.entries@, key@);
            lemma_touched(self.entries@, key@);
            lemma_position(self.entries@, key@);
        }
        let (stored_key, entry) = self.entries.take(i);
        if entry.expires_at.nanos <= now.nanos {
            return None;
        }
        let location = entry.location.clone();
        let broken = self.broken_at(
            &BrokenKey { key: key.clone(), location: entry.location.clone() },
            now,
        );
        let own = BrokenKey { key, location: AltSvcLocation::origin(origin) };
        let recently_broken = self.broken.find(&own).is_some();
        let generation = entry.generation;
        self.entries.push(stored_key, entry);
        Some(
            AltSvcSelection {
                location,
                generation,
                broken,
                origin_quic_recently_broken: recently_broken,
            },
        )
    }

    fn broken_at(&self, key: &BrokenKey, now: Instant) -> (r: bool)
        ensures
            r == self@.is_broken(key@.key, key@.location, now),
    {
        match self.broken.find(key) {
            Some(i) => self.broken.entry(i).1.until.nanos > now.nanos,
            None => false,
        }
    }

    /// Forgets the alternative of `origin` over `route`.
    pub fn remove(&mut self, origin: &Endpoint, route: &Route)
        requires
            old(self).wf(),
        ensures
            final(self).wf(),
            final(self)@ == old(self)@.removed(store_key(origin, route@)),
    {
        self.entries.remove(&StoreKey::new(origin, route));
    }

    /// Forgets the alternative of `origin` over `route` unless a later one
    /// has replaced that of `generation`.
    pub fn remove_if_current(&mut self, origin: &Endpoint, route: &Route, generation: u64)
        requires
            old(self).wf(),
        ensures
            final(self).wf(),
            final(self)@ == old(self)@.removed_if_current(store_key(origin, route@), generation),
    {
        let key = StoreKey::new(origin, route);
        match self.entries.find(&key) {
            Some(i) => if self.entries.entry(i).1.generation == generation {
                self.entries.remove(&key);
            },
            None => {},
        }
    }

    /// Forgets every alternative and every failure.
    pub fn clear(&mut self)
        requires
            old(self).wf(),
        ensures
            final(self).wf(),
            final(self)@ == (StoreView {
                entries: Seq::empty(),
                broken: Seq::empty(),
                ..old(self)@
            }),
    {
        self.entries.clear();
        self.broken.clear();
    }

    /// Marks `location` broken for `origin` after it failed a race the origin
    /// won.
    pub fn mark_broken(
        &mut self,
        origin: &Endpoint,
        route: &Route,
        location: &AltSvcLocation,
        backoff: AltSvcBrokenBackoff,
        now: Instant,
    )
        requires
            old(self).wf(),
        ensures
            final(self).wf(),
            final(self)@ == old(self)@.marked_broken(
                BrokenKeyView { key: store_key(origin, route@), location: location@ },
                backoff,
                now,
            ),
    {
        let failed = BrokenKey { key: StoreKey::new(origin, route), location: location.clone() };
        let before = match self.broken.find(&failed) {
            Some(i) => *self.broken.entry(i).1,
            None => BrokenRecord { failures: 0, until: now },
        };
        let failures: u32 = if before.failures == u32::MAX {
            u32::MAX
        } else {
            before.failures + 1
        };
        let until = if before.until.nanos > now.nanos {
            before.until
        } else {
            match now.checked_add(backoff.period(before.failures)) {
                Some(until) => until,
                None => expiration_at(now, MAX_DELTA_SECONDS),
            }
        };
        self.broken.store(failed, BrokenRecord { failures, until });
    }

    /// Records that QUIC to `origin`'s own host and port failed its handshake
    /// after a connection there was already in use, without a broken period.
    pub fn mark_origin_quic_recently_broken(
        &mut self,
        origin: &Endpoint,
        route: &Route,
        now: Instant,
    )
        requires
            old(self).wf(),
        ensures
            final(self).wf(),
            final(self)@ == old(self)@.marked_recently_broken(
                BrokenKeyView { key: store_key(origin, route@), location: own_location(origin) },
                now,
            ),
    {
        let own = BrokenKey {
            key: StoreKey::new(origin, route),
            location: AltSvcLocation::origin(origin),
        };
        if self.broken.find(&own).is_none() {
            self.broken.store(own, BrokenRecord { failures: 0, until: now });
        }
    }

    /// Clears the failure history of `location` after it connected.
    ///
    /// A completed QUIC handshake for the origin also confirms QUIC to the
    /// origin's own host and port, unless that location is in a broken period
    /// of its own.
    pub fn confirm(
        &mut self,
        origin: &Endpoint,
        route: &Route,
        location: &AltSvcLocation,
        now: Instant,
    )
        requires
            old(self).wf(),
        ensures
            final(self).wf(),
            final(self)@ == old(self)@.confirmed(
                store_key(origin, route@),
                location@,
                own_location(origin),
                now,
            ),
    {
        self.broken.remove(
            &BrokenKey { key: StoreKey::new(origin, route), location: location.clone() },
        );
        let own = BrokenKey {
            key: StoreKey::new(origin, route),
            location: AltSvcLocation::origin(origin),
        };
        if self.broken.find(&own).is_some() && !self.broken_at(&own, now) {
            self.broken.remove(&own);
        }
    }

    /// Returns whether `location` is in a broken period for `origin` and
    /// `route`.
    pub fn is_broken(
        &self,
        origin: &Endpoint,
        route: &Route,
        location: &AltSvcLocation,
        now: Instant,
    ) -> (r: bool)
        ensures
            r == self@.is_broken(store_key(origin, route@), location@, now),
    {
        self.broken_at(
            &BrokenKey { key: StoreKey::new(origin, route), location: location.clone() },
            now,
        )
    }

    /// Returns whether QUIC to `origin`'s own host and port failed a race and
    /// has not connected since, whether or not its broken period ended.
    pub fn origin_quic_recently_broken(&self, origin: &Endpoint, route: &Route) -> (r: bool)
        ensures
            r == self@.has_failed(store_key(origin, route@), own_location(origin)),
    {
        let own = BrokenKey {
            key: StoreKey::new(origin, route),
            location: AltSvcLocation::origin(origin),
        };
        self.broken.find(&own).is_some()
    }
}

} // verus!
