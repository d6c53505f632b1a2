//! How long alternatives are used, and what becomes of those that fail.

use vstd::prelude::*;
use crate::alt_svc::field::{member_update, AdvertisedView, FieldUpdateView};
use crate::alt_svc::policy::{AltSvcBrokenBackoff, AltSvcPolicy};
use crate::alt_svc::snapshot::{
    exported_entry, imported_expiry, location_named, origin_named, refusal,
    AltSvcSnapshotErrorKind, SnapshotEntryView,
};
use crate::alt_svc::store::{
    expiration, location_authority, own_location, serialized_origin, store_key, BrokenKeyView,
    BrokenRecord, FrameView, LocationView, StoreKeyView, StoreView, StoredView,
};
use crate::alt_svc::target::invalidates;
use crate::endpoint::{Endpoint, OriginView, Route, RouteView};
use crate::error::{Http3ConnectorErrorKind, RequestError, RequestErrorKind};
use crate::host::{ipv6_literal, url_parts};
use crate::lru::{lemma_position, lemma_stored, lemma_without, lookup, position};
use crate::text::decimal;
use crate::text_laws::{lower_case_ignores_ascii_case_alone, same_letters};
use crate::time::{Instant, SystemTime};
use crate::timeout::TimeoutPhase;

verus! {

/// What is fresh for some seconds expires that long after now, with no more
/// than 2^31 seconds and no more whole seconds than the clock has left.
pub proof fn freshness_is_counted_in_seconds(now: Instant, seconds: u64)
    ensures
        ({
            let at = expiration(now, seconds);
            &&& now.nanos <= at.nanos <= now.nanos + seconds * 1_000_000_000
            &&& seconds <= 2_147_483_648 && now.nanos + seconds * 1_000_000_000
                <= 9_223_372_036_854_775_807_999_999_999 ==> at.nanos == now.nanos + seconds
                * 1_000_000_000
            &&& seconds > 2_147_483_648 ==> at == expiration(now, 2_147_483_648)
        }),
{
}

/// An advertised alternative is selected until its lifetime, less the age of
/// the response, has passed, and not from then on.
pub proof fn an_alternative_is_used_while_it_is_fresh(
    store: StoreView,
    key: StoreKeyView,
    own: LocationView,
    found: AdvertisedView,
    age: u64,
    now: Instant,
    later: Instant,
)
    requires
        store.wf(),
        found.max_age <= 2_147_483_648,
        now.nanos + found.max_age * 1_000_000_000 <= 9_223_372_036_854_775_807_999_999_999,
    ensures
        ({
            let after = store.learned(
                key,
                FieldUpdateView::Replace { alternative: Some(found), age },
                now,
            );
            let fresh = found.max_age > age && later.nanos < now.nanos + (found.max_age - age)
                * 1_000_000_000;
            &&& after.selection(key, own, later) is Some == fresh
            &&& after.selection(key, own, later) matches Some(selection) ==> selection.location.host
                == found.host && selection.location.port == found.port
        }),
{
    lemma_without(store.entries, key);
    lemma_position(store.removed(key).entries, key);
    if found.max_age > age {
        let value = StoredView {
            location: LocationView { host: found.host, port: found.port },
            expires_at: expiration(now, (found.max_age - age) as u64),
            generation: store.next_generation,
        };
        lemma_stored(store.entries, key, value, store.capacity);
        freshness_is_counted_in_seconds(now, (found.max_age - age) as u64);
    }
}

/// Alternatives and failures belong to one origin and one route: the same
/// host but for ASCII case, the same port, and a route with the same proxy,
/// name resolution and credentials.
pub proof fn alternatives_belong_to_one_origin_and_route(
    one: &Endpoint,
    other: &Endpoint,
    first: Route,
    second: Route,
)
    ensures
        store_key(one, first@) == store_key(other, second@) ==> {
            &&& same_letters(one.host@, other.host@)
            &&& one.port == other.port
            &&& first@ == second@
        },
        same_letters(one.host@, other.host@) && one.port == other.port && first@ == second@
            ==> store_key(one, first@) == store_key(other, second@),
        own_location(one).port == one.port,
        same_letters(own_location(one).host, one.host@),
{
    lower_case_ignores_ascii_case_alone(one.host@, other.host@);
}

/// The first failure of a location breaks it for the first period of the
/// backoff, and each further one, once that period has passed, for twice the
/// period before it, up to the longest.
pub proof fn a_failed_location_backs_off(
    store: StoreView,
    failed: BrokenKeyView,
    backoff: AltSvcBrokenBackoff,
    now: Instant,
)
    requires
        store.wf(),
        backoff.wf(),
        now.nanos + backoff.maximum.nanos <= 9_223_372_036_854_775_807_999_999_999,
    ensures
        ({
            let record = store.failed_record(failed, backoff, now);
            match lookup(store.broken, failed) {
                None => record.failures == 1 && record.until.nanos == now.nanos
                    + backoff.initial.nanos,
                Some(before) => {
                    &&& before.failures < u32::MAX ==> record.failures == before.failures + 1
                    &&& before.until.nanos > now.nanos ==> record.until == before.until
                    &&& before.until.nanos <= now.nanos ==> record.until.nanos == now.nanos
                        + backoff.period_nanos(before.failures as nat)
                },
            }
        }),
{
    crate::alt_svc::policy::broken_periods_double_up_to_the_cap(backoff, 0);
    match lookup(store.broken, failed) {
        None => {},
        Some(before) => {
            crate::alt_svc::policy::broken_periods_double_up_to_the_cap(
                backoff,
                before.failures as nat,
            );
        },
    }
}

/// QUIC that failed its handshake without a race is remembered but not
/// broken; what was remembered before stays as it is.
pub proof fn a_failed_handshake_is_remembered_without_a_broken_period(
    store: StoreView,
    key: StoreKeyView,
    own: LocationView,
    now: Instant,
    later: Instant,
)
    requires
        store.wf(),
        now.nanos <= later.nanos,
    ensures
        ({
            let failed = BrokenKeyView { key, location: own };
            let after = store.marked_recently_broken(failed, now);
            &&& after.has_failed(key, own)
            &&& after.is_broken(key, own, later) == store.is_broken(key, own, later)
            &&& store.has_failed(key, own) ==> after == store
            &&& after.entries == store.entries
        }),
{
    let failed = BrokenKeyView { key, location: own };
    lemma_stored(
        store.broken,
        failed,
        BrokenRecord { failures: 0, until: now },
        store.capacity,
    );
    lemma_position(store.broken, failed);
}

/// A selection says whether its location is in a broken period now, and
/// whether QUIC to the origin itself failed and was not confirmed since.
pub proof fn a_selection_says_what_failed(
    store: StoreView,
    key: StoreKeyView,
    own: LocationView,
    now: Instant,
)
    ensures
        store.selection(key, own, now) matches Some(selection) ==> {
            &&& selection.broken == (lookup(
                store.broken,
                BrokenKeyView { key, location: selection.location },
            ) matches Some(record) && record.until.nanos > now.nanos)
            &&& selection.origin_quic_recently_broken == (position(
                store.broken,
                BrokenKeyView { key, location: own },
            ) is Some)
            &&& lookup(store.entries, key) matches Some(entry) && entry.location
                == selection.location && entry.generation == selection.generation
                && entry.expires_at.nanos > now.nanos
        },
        store.selection(key, own, now) is None ==> (lookup(store.entries, key) matches Some(entry)
            ==> entry.expires_at.nanos <= now.nanos),
{
}

/// A failure takes out the alternative that failed, and only while it is
/// still the one that is held.
pub proof fn a_failure_takes_out_the_current_alternative(
    store: StoreView,
    key: StoreKeyView,
    generation: u64,
    entry: StoredView,
)
    requires
        store.wf(),
        lookup(store.entries, key) == Some(entry),
    ensures
        entry.generation == generation ==> lookup(
            store.removed_if_current(key, generation).entries,
            key,
        ) is None,
        entry.generation != generation ==> store.removed_if_current(key, generation) == store,
{
    lemma_without(store.entries, key);
}

/// Frames apply in order, one on stream 0 only for the request's own origin,
/// byte for byte.
pub proof fn frames_apply_in_order_and_to_their_origin(
    store: StoreView,
    host: Seq<char>,
    canonical: Seq<u8>,
    key: StoreKeyView,
    frames: Seq<FrameView>,
    frame: FrameView,
    now: Instant,
)
    ensures
        ({
            let before = store.learned_frames(host, canonical, key, frames, now);
            let after = store.learned_frames(host, canonical, key, frames.push(frame), now);
            match frame.origin {
                Some(origin) => if origin == canonical {
                    after == before.learned(key, member_update(host, frame.value, 0), now)
                } else {
                    after == before
                },
                None => after == before.learned(key, member_update(host, frame.value, 0), now),
            }
        }),
        store.learned_frames(host, canonical, key, Seq::empty(), now) == store,
{
    assert(frames.push(frame).drop_last() =~= frames);
}

/// An origin is written as `https://`, its host, in brackets where it is an
/// address with colons, and its port unless that is 443. A location always
/// has its port.
pub proof fn origins_and_locations_are_written_in_full(
    host: Seq<char>,
    port: u16,
)
    requires
        !host.contains(':'),
    ensures
        serialized_origin(OriginView { host, port: 443 }) == "https://"@ + host,
        port != 443 ==> serialized_origin(OriginView { host, port }) == "https://"@ + host + seq![
            ':',
        ] + decimal(port as nat),
        ipv6_literal(host) is None ==> location_authority(LocationView { host, port }) == host
            + seq![':'] + decimal(port as nat),
        ipv6_literal(host) is Some ==> location_authority(LocationView { host, port }) == seq!['[']
            + host + seq![']', ':'] + decimal(port as nat),
{
    assert(serialized_origin(OriginView { host, port: 443 }) =~= "https://"@ + host);
    if port != 443 {
        assert(serialized_origin(OriginView { host, port }) =~= "https://"@ + host + seq![':']
            + decimal(port as nat));
    }
    let named = location_authority(LocationView { host, port });
    if ipv6_literal(host) is None {
        assert(named =~= host + seq![':'] + decimal(port as nat));
    } else {
        assert(named =~= seq!['['] + host + seq![']', ':'] + decimal(port as nat));
    }
}

/// The origin of an address with colons is written in brackets.
pub proof fn an_origin_with_colons_is_written_in_brackets(host: Seq<char>, port: u16)
    requires
        host.contains(':'),
    ensures
        serialized_origin(OriginView { host, port: 443 }) == "https://"@ + seq!['['] + host + seq![
            ']',
        ],
        port != 443 ==> serialized_origin(OriginView { host, port }) == "https://"@ + seq!['[']
            + host + seq![']', ':'] + decimal(port as nat),
{
    assert(serialized_origin(OriginView { host, port: 443 }) =~= "https://"@ + seq!['['] + host
        + seq![']']);
    if port != 443 {
        assert(serialized_origin(OriginView { host, port }) =~= "https://"@ + seq!['['] + host
            + seq![']', ':'] + decimal(port as nat));
    }
}

/// A failure withdraws the alternative that it happened on when that could
/// not be reached or did not answer as HTTP/3: its name did not resolve, its
/// connection, handshake or TLS failed or timed out, or its protocol broke.
/// A failure of the request itself, or of the client, does not.
pub proof fn only_failures_of_the_alternative_withdraw_it(error: RequestError)
    ensures
        invalidates(error) == {
            ||| error.kind == RequestErrorKind::Resolve
            ||| error.kind == RequestErrorKind::Connect
            ||| error.kind == RequestErrorKind::Tls
            ||| error.kind == RequestErrorKind::Timeout && error.phase == Some(
                TimeoutPhase::Connect,
            )
            ||| error.kind == RequestErrorKind::Timeout && error.phase == Some(
                TimeoutPhase::ResponseHead,
            )
            ||| error.kind == RequestErrorKind::Http3 && (error.http3 == Some(
                Http3ConnectorErrorKind::Endpoint,
            ) || error.http3 == Some(Http3ConnectorErrorKind::Connect) || error.http3 == Some(
                Http3ConnectorErrorKind::Connection,
            ) || error.http3 == Some(Http3ConnectorErrorKind::Handshake) || error.http3 == Some(
                Http3ConnectorErrorKind::Protocol,
            ))
        },
{
}

/// A racing policy is valid exactly when the clock reaches its delay.
pub proof fn a_racing_delay_lies_within_the_clock(policy: AltSvcPolicy, now: Instant)
    ensures
        policy.valid(now) == (match policy.race {
            Some(race) => now.nanos + race.origin_delay.nanos
                <= 9_223_372_036_854_775_807_999_999_999,
            None => true,
        }),
{
}

/// A snapshot shows an alternative of the direct route, under its origin,
/// with its own location and with what is left of its lifetime, down to a
/// second of the wall clock; none of another route and none that is over.
pub proof fn a_snapshot_shows_what_is_left(
    key: StoreKeyView,
    held: StoredView,
    now: Instant,
    system_now: SystemTime,
)
    requires
        system_now.nanos >= 0,
        held.expires_at.nanos <= 9_223_372_036_854_775_807_999_999_999,
    ensures
        ({
            let end = system_now.nanos + (held.expires_at.nanos - now.nanos);
            match exported_entry((key, held), now, system_now) {
                Some(entry) => {
                    &&& key.route == RouteView::Direct
                    &&& held.expires_at.nanos >= now.nanos
                    &&& entry.origin == serialized_origin(key.origin)
                    &&& entry.alternative_host == held.location.host
                    &&& entry.alternative_port == held.location.port
                    &&& entry.expires_at.nanos <= end < entry.expires_at.nanos + 1_000_000_000
                    &&& entry.expires_at.nanos as int % 1_000_000_000 == 0
                    &&& entry.expires_at.nanos > system_now.nanos
                },
                None => key.route != RouteView::Direct || held.expires_at.nanos < now.nanos || end
                    - end % 1_000_000_000 <= system_now.nanos || end
                    > 9_223_372_036_854_775_807_999_999_999,
            }
        }),
{
}

/// An entry is accepted exactly when its origin is the canonical text of an
/// HTTPS origin and its location a canonical host with a port; the origin is
/// looked at first.
pub proof fn an_import_accepts_canonical_entries(entry: SnapshotEntryView)
    ensures
        match refusal(entry) {
            None => {
                &&& origin_named(entry.origin) matches Some(origin) && serialized_origin(origin)
                    == entry.origin
                &&& url_parts(entry.origin) matches Some(url) && url.scheme == "https"@
                &&& location_named(entry.alternative_host, entry.alternative_port) == Some(
                    LocationView { host: entry.alternative_host, port: entry.alternative_port },
                )
                &&& entry.alternative_port != 0
                &&& entry.alternative_host.len() > 0
            },
            Some(kind) => if origin_named(entry.origin) is None {
                kind == AltSvcSnapshotErrorKind::NoncanonicalOrigin
            } else {
                kind == AltSvcSnapshotErrorKind::InvalidAlternative && location_named(
                    entry.alternative_host,
                    entry.alternative_port,
                ) is None
            },
        },
{
}

/// What is left of an entry by the wall clock is what its alternative has
/// left by the other clock.
pub proof fn an_import_keeps_what_is_left(
    entry: SnapshotEntryView,
    now: Instant,
    system_now: SystemTime,
)
    requires
        entry.expires_at.nanos > system_now.nanos,
        entry.expires_at.nanos - system_now.nanos <= 2_147_483_648_000_000_000,
        now.nanos + (entry.expires_at.nanos - system_now.nanos)
            <= 9_223_372_036_854_775_807_999_999_999,
    ensures
        imported_expiry(entry, now, system_now).nanos - now.nanos == entry.expires_at.nanos
            - system_now.nanos,
{
}

} // verus!
