//! What holds of the alternatives a client remembers, whatever it is told.

use vstd::prelude::*;
use crate::alt_svc::field::{AdvertisedView, FieldUpdateView, MAX_DELTA_SECONDS};
use crate::alt_svc::policy::AltSvcBrokenBackoff;
use crate::alt_svc::snapshot::{
    entry_key, exported, exported_entry, imported, imported_expiry, imported_lifetime,
    location_named, origin_named, refusal, superseded, SnapshotEntryView,
};
use crate::alt_svc::store::{
    expiration, expiration_seconds, next_generation, serialized_origin, BrokenKeyView, LocationView,
    StoreKeyView, StoreView, StoredView,
};
use crate::endpoint::RouteView;
use crate::lru::{
    lemma_position, lemma_position_none, lemma_prepended, lemma_pushed, lemma_skip_first,
    lemma_stored, lemma_touched, lemma_without, lookup, position, with_room, without,
};
use crate::time::{Instant, SystemTime, INSTANT_MAX_NANOS, NANOS_PER_SEC};

verus! {

/// What a response advertises is what a later request gets, as long as it is
/// fresh.
pub proof fn learned_alternative_is_selected(
    store: StoreView,
    key: StoreKeyView,
    own: LocationView,
    found: AdvertisedView,
    age: u64,
    now: Instant,
    later: Instant,
)
    requires
        store.wf(),
        found.max_age > age,
        later.nanos < expiration(now, (found.max_age - age) as u64).nanos,
    ensures
        store.learned(
            key,
            FieldUpdateView::Replace { alternative: Some(found), age },
            now,
        ).selection(key, own, later) matches Some(selection) && selection.location == (LocationView {
            host: found.host,
            port: found.port,
        }) && selection.generation == store.next_generation,
{
    let value = StoredView {
        location: LocationView { host: found.host, port: found.port },
        expires_at: expiration(now, (found.max_age - age) as u64),
        generation: store.next_generation,
    };
    lemma_stored(store.entries, key, value, store.capacity);
}

/// A malformed or absent field changes nothing.
pub proof fn malformed_fields_change_nothing(store: StoreView, key: StoreKeyView, now: Instant)
    ensures
        store.learned(key, FieldUpdateView::Malformed, now) == store,
        store.learned(key, FieldUpdateView::Absent, now) == store,
{
}

/// A withdrawn alternative is not selected again.
pub proof fn cleared_alternative_is_not_selected(
    store: StoreView,
    key: StoreKeyView,
    own: LocationView,
    now: Instant,
    later: Instant,
)
    requires
        store.wf(),
    ensures
        store.learned(key, FieldUpdateView::Clear, now).selection(key, own, later) is None,
        store.removed(key).selection(key, own, later) is None,
{
    lemma_without(store.entries, key);
}

/// What is learned for one origin and route neither adds nor changes the
/// alternative of another origin or route; at the bound the least recently
/// used one leaves.
pub proof fn learning_is_scoped_to_origin_and_route(
    store: StoreView,
    key: StoreKeyView,
    other: StoreKeyView,
    update: FieldUpdateView,
    now: Instant,
)
    requires
        store.wf(),
        other != key,
    ensures
        lookup(store.learned(key, update, now).entries, other) == lookup(store.entries, other) || (
        lookup(store.learned(key, update, now).entries, other) is None && store.entries.len()
            == store.capacity && store.entries[0].0 == other),
        store.learned(key, update, now).broken == store.broken,
        store.learned(key, update, now).wf(),
{
    lemma_without(store.entries, key);
    lemma_position(store.entries, key);
    if let FieldUpdateView::Replace { alternative: Some(found), age } = update {
        let value = StoredView {
            location: LocationView { host: found.host, port: found.port },
            expires_at: expiration(now, (found.max_age - age) as u64),
            generation: store.next_generation,
        };
        let rest = without(store.entries, key);
        let room = with_room(rest, store.capacity);
        lemma_stored(store.entries, key, value, store.capacity);
        assert(lookup(rest, other) == lookup(store.entries, other));
        if rest.len() >= store.capacity {
            lemma_skip_first(rest, other);
            lemma_skip_first(rest, key);
        }
        lemma_pushed(room, key, value);
        assert(lookup(room.push((key, value)), other) == lookup(room, other));
    }
}

/// A failure of an alternative that was replaced meanwhile does not remove
/// the newer one.
pub proof fn stale_failure_keeps_the_newer_alternative(
    store: StoreView,
    key: StoreKeyView,
    found: AdvertisedView,
    age: u64,
    now: Instant,
    stale: u64,
)
    requires
        store.wf(),
        found.max_age > age,
        stale != store.next_generation,
    ensures
        ({
            let newer = store.learned(
                key,
                FieldUpdateView::Replace { alternative: Some(found), age },
                now,
            );
            newer.removed_if_current(key, stale) == newer
        }),
{
    let value = StoredView {
        location: LocationView { host: found.host, port: found.port },
        expires_at: expiration(now, (found.max_age - age) as u64),
        generation: store.next_generation,
    };
    lemma_stored(store.entries, key, value, store.capacity);
}

/// Asking for an alternative does not change what a later request gets.
pub proof fn selecting_changes_no_later_selection(
    store: StoreView,
    key: StoreKeyView,
    asked: StoreKeyView,
    own: LocationView,
    now: Instant,
    later: Instant,
)
    requires
        store.wf(),
        now.nanos <= later.nanos,
    ensures
        store.after_get(asked, now).selection(key, own, later) == store.selection(key, own, later),
        store.after_get(asked, now).wf(),
{
    lemma_without(store.entries, asked);
    lemma_touched(store.entries, asked);
    let after = store.after_get(asked, now);
    if lookup(store.entries, asked) is Some {
        if lookup(store.entries, asked)->0.expires_at.nanos <= now.nanos {
            if key == asked {
                assert(position(after.entries, key) is None);
            } else {
                assert(lookup(after.entries, key) == lookup(store.entries, key));
            }
        } else {
            assert(lookup(after.entries, key) == lookup(store.entries, key));
        }
    }
}

/// A failed location is broken exactly until its record says, and only for
/// the origin and route that it failed on.
pub proof fn failure_breaks_only_its_own_location(
    store: StoreView,
    failed: BrokenKeyView,
    other: BrokenKeyView,
    backoff: AltSvcBrokenBackoff,
    now: Instant,
    later: Instant,
)
    requires
        store.wf(),
        other != failed,
    ensures
        ({
            let marked = store.marked_broken(failed, backoff, now);
            &&& marked.wf()
            &&& marked.has_failed(failed.key, failed.location)
            &&& marked.is_broken(failed.key, failed.location, later) <==> later.nanos
                < store.failed_record(failed, backoff, now).until.nanos
            &&& !store.is_broken(other.key, other.location, later) ==> !marked.is_broken(
                other.key,
                other.location,
                later,
            )
            &&& marked.entries == store.entries
        }),
{
    let record = store.failed_record(failed, backoff, now);
    lemma_stored(store.broken, failed, record, store.capacity);
    lemma_without(store.broken, failed);
    let rest = without(store.broken, failed);
    assert(lookup(rest, other) == lookup(store.broken, other));
    if rest.len() >= store.capacity {
        lemma_skip_first(rest, other);
        lemma_skip_first(rest, failed);
    }
    let room = with_room(rest, store.capacity);
    lemma_pushed(room, failed, record);
    assert(lookup(room.push((failed, record)), other) == lookup(room, other));
    assert(lookup(store.marked_broken(failed, backoff, now).broken, failed) == Some(record));
}

/// A failure inside a broken period counts toward the next period without
/// extending the current one.
pub proof fn failure_while_broken_does_not_extend_the_period(
    store: StoreView,
    failed: BrokenKeyView,
    backoff: AltSvcBrokenBackoff,
    now: Instant,
)
    requires
        store.is_broken(failed.key, failed.location, now),
    ensures
        ({
            let before = lookup(store.broken, failed)->0;
            let after = store.failed_record(failed, backoff, now);
            &&& after.until == before.until
            &&& before.failures < u32::MAX ==> after.failures == before.failures + 1
        }),
{
}

/// A connection to a location clears its failure history, so its next
/// failure backs off as a first one.
pub proof fn connecting_clears_the_failure_history(
    store: StoreView,
    key: StoreKeyView,
    location: LocationView,
    own: LocationView,
    now: Instant,
)
    requires
        store.wf(),
    ensures
        ({
            let confirmed = store.confirmed(key, location, own, now);
            &&& confirmed.wf()
            &&& !confirmed.has_failed(key, location)
            &&& !store.is_broken(key, own, now) ==> !confirmed.has_failed(key, own)
            &&& confirmed.entries == store.entries
        }),
{
    let failed = BrokenKeyView { key, location };
    let own_key = BrokenKeyView { key, location: own };
    lemma_without(store.broken, failed);
    let cleared = without(store.broken, failed);
    lemma_without(cleared, own_key);
    lemma_position(cleared, own_key);
    if own_key != failed {
        assert(lookup(cleared, own_key) == lookup(store.broken, own_key));
        assert(lookup(without(cleared, own_key), failed) == lookup(cleared, failed));
        lemma_position(without(cleared, own_key), failed);
    }
}

/// A connection to a location leaves the failures of every other one as they
/// are, those of the origin's own location too while it is in a broken period.
pub proof fn connecting_keeps_the_other_failures(
    store: StoreView,
    key: StoreKeyView,
    location: LocationView,
    own: LocationView,
    other: BrokenKeyView,
    now: Instant,
)
    requires
        store.wf(),
        other != (BrokenKeyView { key, location }),
        other != (BrokenKeyView { key, location: own }) || store.is_broken(key, own, now),
    ensures
        ({
            let confirmed = store.confirmed(key, location, own, now);
            &&& confirmed.has_failed(other.key, other.location) == store.has_failed(
                other.key,
                other.location,
            )
            &&& confirmed.is_broken(other.key, other.location, now) == store.is_broken(
                other.key,
                other.location,
                now,
            )
        }),
{
    let failed = BrokenKeyView { key, location };
    let own_key = BrokenKeyView { key, location: own };
    let cleared = without(store.broken, failed);
    lemma_without(store.broken, failed);
    lemma_without(cleared, own_key);
    lemma_position(store.broken, other);
    lemma_position(cleared, other);
    lemma_position(without(cleared, own_key), other);
    assert(lookup(cleared, other) == lookup(store.broken, other));
    if other != own_key {
        assert(lookup(without(cleared, own_key), other) == lookup(cleared, other));
    }
}

/// An import keeps every held alternative as it is and ranks what it adds
/// below all of them; the bound is kept, and what it adds belongs to the
/// direct route.
pub proof fn import_ranks_below_what_is_held(
    store: StoreView,
    list: Seq<SnapshotEntryView>,
    i: int,
    now: Instant,
    system_now: SystemTime,
)
    requires
        store.wf(),
        0 <= i <= list.len(),
    ensures
        ({
            let after = imported(store, list, i, now, system_now);
            let added = after.entries.len() - store.entries.len();
            &&& after.wf()
            &&& after.capacity == store.capacity
            &&& after.broken == store.broken
            &&& added >= 0
            &&& after.entries.skip(added) == store.entries
            &&& forall|k: int|
                0 <= k < added ==> (#[trigger] after.entries[k]).0.route == RouteView::Direct
        }),
    decreases list.len() - i,
{
    let after = imported(store, list, i, now, system_now);
    if i == list.len() {
        assert(after.entries.skip(0) =~= store.entries);
    } else {
        import_ranks_below_what_is_held(store, list, i + 1, now, system_now);
        let later = imported(store, list, i + 1, now, system_now);
        let entry = list[i];
        if after != later {
            let value = StoredView {
                location: LocationView {
                    host: entry.alternative_host,
                    port: entry.alternative_port,
                },
                expires_at: imported_expiry(entry, now, system_now),
                generation: later.next_generation,
            };
            lemma_prepended(later.entries, entry_key(entry), value);
            let added = after.entries.len() - store.entries.len();
            assert(after.entries.skip(added) =~= later.entries.skip(added - 1));
            assert forall|k: int| 0 <= k < added implies (#[trigger] after.entries[k]).0.route
                == RouteView::Direct by {
                if k > 0 {
                    assert(after.entries[k] == later.entries[k - 1]);
                }
            }
        }
    }
}

/// Whether an import may add entry `i`: it has not expired, no later entry
/// names its origin, and the store holds no alternative for it.
pub open spec fn addable(
    store: StoreView,
    list: Seq<SnapshotEntryView>,
    i: int,
    system_now: SystemTime,
) -> bool {
    &&& 0 <= i < list.len()
    &&& !superseded(list, i)
    &&& list[i].expires_at.nanos > system_now.nanos
    &&& position(store.entries, entry_key(list[i])) is None
}

/// The entries from `i` on that an import may add, in the list's order.
pub open spec fn addable_from(
    store: StoreView,
    list: Seq<SnapshotEntryView>,
    i: int,
    system_now: SystemTime,
) -> Seq<int>
    decreases list.len() - i,
{
    if i < 0 || i >= list.len() {
        Seq::empty()
    } else if addable(store, list, i, system_now) {
        seq![i] + addable_from(store, list, i + 1, system_now)
    } else {
        addable_from(store, list, i + 1, system_now)
    }
}

/// These are exactly the entries that an import may add, each once and in
/// the list's order.
proof fn lemma_addable_from(
    store: StoreView,
    list: Seq<SnapshotEntryView>,
    i: int,
    system_now: SystemTime,
)
    requires
        0 <= i <= list.len(),
    ensures
        ({
            let all = addable_from(store, list, i, system_now);
            &&& forall|k: int|
                0 <= k < all.len() ==> i <= #[trigger] all[k] && addable(
                    store,
                    list,
                    all[k],
                    system_now,
                )
            &&& forall|k: int, j: int|
                0 <= k < j < all.len() ==> #[trigger] all[k] < #[trigger] all[j]
            &&& forall|p: int|
                i <= p && #[trigger] addable(store, list, p, system_now) ==> all.contains(p)
        }),
    decreases list.len() - i,
{
    if i < list.len() {
        lemma_addable_from(store, list, i + 1, system_now);
        let all = addable_from(store, list, i, system_now);
        let rest = addable_from(store, list, i + 1, system_now);
        if addable(store, list, i, system_now) {
            assert(all[0] == i);
            assert forall|k: int| 0 <= k < rest.len() implies #[trigger] rest[k] == all[k + 1] by {}
            assert forall|k: int| 1 <= k < all.len() implies #[trigger] all[k] == rest[k - 1] by {}
            assert forall|p: int|
                i <= p && #[trigger] addable(store, list, p, system_now) implies all.contains(p) by {
                if p > i {
                    assert(rest.contains(p));
                    let k = choose|k: int| 0 <= k < rest.len() && rest[k] == p;
                    assert(all[k + 1] == p);
                }
            }
        }
    }
}

/// How many entries an import adds: as many as it may, up to the bound.
pub open spec fn added_count(store: StoreView, addable: Seq<int>) -> int {
    let room = store.capacity - store.entries.len();
    if addable.len() <= room {
        addable.len() as int
    } else {
        room
    }
}

/// What an import stores of an entry, beside its generation.
pub open spec fn stored_of(
    stored: (StoreKeyView, StoredView),
    entry: SnapshotEntryView,
    now: Instant,
    system_now: SystemTime,
) -> bool {
    &&& stored.0 == entry_key(entry)
    &&& stored.1.location == (LocationView {
        host: entry.alternative_host,
        port: entry.alternative_port,
    })
    &&& stored.1.expires_at == imported_expiry(entry, now, system_now)
}

proof fn lemma_imported_last(
    store: StoreView,
    list: Seq<SnapshotEntryView>,
    i: int,
    now: Instant,
    system_now: SystemTime,
)
    requires
        store.wf(),
        0 <= i <= list.len(),
    ensures
        ({
            let after = imported(store, list, i, now, system_now);
            let all = addable_from(store, list, i, system_now);
            let added = added_count(store, all);
            &&& after.entries.len() == added + store.entries.len()
            &&& forall|k: int|
                0 <= k < added ==> stored_of(
                    #[trigger] after.entries[k],
                    list[all[all.len() - added + k]],
                    now,
                    system_now,
                )
        }),
    decreases list.len() - i,
{
    if i < list.len() {
        lemma_imported_last(store, list, i + 1, now, system_now);
        import_ranks_below_what_is_held(store, list, i + 1, now, system_now);
        lemma_addable_from(store, list, i + 1, system_now);
        let later = imported(store, list, i + 1, now, system_now);
        let after = imported(store, list, i, now, system_now);
        let rest = addable_from(store, list, i + 1, system_now);
        let all = addable_from(store, list, i, system_now);
        let before = added_count(store, rest);
        let added = added_count(store, all);
        let key = entry_key(list[i]);
        lemma_position(store.entries, key);
        lemma_position(later.entries, key);
        assert forall|k: int| 0 <= k < store.entries.len() implies #[trigger] store.entries[k]
            == later.entries[before + k] by {
            assert(later.entries.skip(before)[k] == later.entries[before + k]);
        }
        if !superseded(list, i) {
            assert forall|k: int| 0 <= k < before implies (
            #[trigger] later.entries[k]).0 != key by {
                let p = rest[rest.len() - before + k];
                assert(stored_of(later.entries[k], list[p], now, system_now));
                assert(addable(store, list, p, system_now));
                assert(entry_key(list[p]) != key);
            }
            assert((position(later.entries, key) is None) == (position(store.entries, key)
                is None)) by {
                if position(store.entries, key) is None {
                    assert forall|k: int| 0 <= k < later.entries.len() implies (
                    #[trigger] later.entries[k]).0 != key by {
                        if k >= before {
                            assert(store.entries[k - before] == later.entries[k]);
                        }
                    }
                    lemma_position_none(later.entries, key);
                } else {
                    let m = position(store.entries, key)->0;
                    assert(store.entries[m] == later.entries[before + m]);
                }
            }
        }
        if addable(store, list, i, system_now) {
            assert forall|k: int| 0 <= k < rest.len() implies all[k + 1] == #[trigger] rest[k] by {}
            assert forall|k: int| 0 <= k < added implies stored_of(
                #[trigger] after.entries[k],
                list[all[all.len() - added + k]],
                now,
                system_now,
            ) by {
                if after == later {
                    assert(stored_of(
                        later.entries[k],
                        list[rest[rest.len() - before + k]],
                        now,
                        system_now,
                    ));
                } else if k > 0 {
                    assert(after.entries[k] == later.entries[k - 1]);
                    assert(all[k] == rest[k - 1]);
                } else {
                    assert(all[0] == i);
                }
            }
        }
    }
}

/// An import keeps every held alternative as it is. What it adds ranks less
/// recently used than all of them and among itself in the snapshot's order:
/// entries that have not expired, for direct-route origins that the store
/// does not hold, of several for one origin the last. Where the bound leaves
/// no room for all of them, the later ones are added. None outlives what the
/// snapshot says or the longest lifetime of an advertisement.
pub proof fn an_import_takes_the_last_entries_in_order(
    store: StoreView,
    list: Seq<SnapshotEntryView>,
    now: Instant,
    system_now: SystemTime,
)
    requires
        store.wf(),
    ensures
        ({
            let after = imported(store, list, 0, now, system_now);
            let all = addable_from(store, list, 0, system_now);
            let added = added_count(store, all);
            let first = all.len() - added;
            &&& forall|p: int| all.contains(p) <==> #[trigger] addable(store, list, p, system_now)
            &&& forall|k: int, j: int|
                0 <= k < j < all.len() ==> #[trigger] all[k] < #[trigger] all[j]
            &&& after.capacity == store.capacity
            &&& after.entries.len() == added + store.entries.len() <= store.capacity
            &&& after.entries.skip(added) == store.entries
            &&& forall|k: int|
                0 <= k < added ==> {
                    let entry = list[all[first + k]];
                    let stored = #[trigger] after.entries[k];
                    &&& stored_of(stored, entry, now, system_now)
                    &&& stored.0.route == RouteView::Direct
                    &&& stored.1.expires_at.nanos - now.nanos <= entry.expires_at.nanos
                        - system_now.nanos
                    &&& stored.1.expires_at.nanos - now.nanos <= MAX_DELTA_SECONDS * NANOS_PER_SEC
                }
        }),
{
    let after = imported(store, list, 0, now, system_now);
    let all = addable_from(store, list, 0, system_now);
    let added = added_count(store, all);
    lemma_imported_last(store, list, 0, now, system_now);
    lemma_addable_from(store, list, 0, system_now);
    import_ranks_below_what_is_held(store, list, 0, now, system_now);
    assert forall|p: int| all.contains(p) implies #[trigger] addable(store, list, p, system_now) by {
        let k = choose|k: int| 0 <= k < all.len() && all[k] == p;
        assert(addable(store, list, all[k], system_now));
    }
    assert forall|k: int| 0 <= k < added implies {
        let entry = list[all[all.len() - added + k]];
        let stored = #[trigger] after.entries[k];
        &&& stored.1.expires_at.nanos - now.nanos <= entry.expires_at.nanos - system_now.nanos
        &&& stored.1.expires_at.nanos - now.nanos <= MAX_DELTA_SECONDS * NANOS_PER_SEC
    } by {
        let entry = list[all[all.len() - added + k]];
        assert(addable(store, list, all[all.len() - added + k], system_now));
        import_never_extends_a_lifetime(entry, now, system_now);
        assert(stored_of(after.entries[k], entry, now, system_now));
    }
}

/// An import never extends a lifetime: an imported alternative expires no
/// later than the snapshot says, whatever the clocks show.
pub proof fn import_never_extends_a_lifetime(
    entry: SnapshotEntryView,
    now: Instant,
    system_now: SystemTime,
)
    requires
        entry.expires_at.nanos > system_now.nanos,
    ensures
        imported_expiry(entry, now, system_now).nanos - now.nanos <= entry.expires_at.nanos
            - system_now.nanos,
        imported_expiry(entry, now, system_now).nanos - now.nanos <= MAX_DELTA_SECONDS
            * NANOS_PER_SEC,
{
    let lifetime = imported_lifetime(entry, system_now);
    if !now.reaches(lifetime) && now.nanos <= INSTANT_MAX_NANOS {
        let whole = (lifetime.nanos / NANOS_PER_SEC) as u64;
        let seconds = expiration_seconds(now, whole);
        assert(seconds <= whole);
        assert(seconds * NANOS_PER_SEC <= whole * NANOS_PER_SEC) by (nonlinear_arith)
            requires
                seconds <= whole,
        ;
    }
}

/// Whether an alternative survives a round trip through a snapshot: its
/// origin and location are canonical, it belongs to the direct route, and it
/// is exported.
pub open spec fn persists(
    entry: (StoreKeyView, StoredView),
    now: Instant,
    system_now: SystemTime,
) -> bool {
    &&& exported_entry(entry, now, system_now) is Some
    &&& origin_named(serialized_origin(entry.0.origin)) == Some(entry.0.origin)
    &&& location_named(entry.1.location.host, entry.1.location.port) == Some(entry.1.location)
    &&& entry.1.expires_at.nanos - now.nanos <= MAX_DELTA_SECONDS * NANOS_PER_SEC
    &&& entry.1.expires_at.nanos <= INSTANT_MAX_NANOS
}

proof fn lemma_all_exported(
    entries: Seq<(StoreKeyView, StoredView)>,
    now: Instant,
    system_now: SystemTime,
)
    requires
        forall|k: int| 0 <= k < entries.len() ==> persists(#[trigger] entries[k], now, system_now),
    ensures
        exported(entries, now, system_now).len() == entries.len(),
        forall|k: int|
            0 <= k < entries.len() ==> Some(#[trigger] exported(entries, now, system_now)[k])
                == exported_entry(entries[k], now, system_now),
    decreases entries.len(),
{
    if entries.len() > 0 {
        let before = entries.drop_last();
        assert forall|k: int| 0 <= k < before.len() implies persists(
            #[trigger] before[k],
            now,
            system_now,
        ) by {
            assert(before[k] == entries[k]);
        }
        lemma_all_exported(before, now, system_now);
        let list = exported(entries, now, system_now);
        assert(persists(entries[entries.len() - 1], now, system_now));
        assert forall|k: int| 0 <= k < entries.len() implies Some(#[trigger] list[k])
            == exported_entry(entries[k], now, system_now) by {
            if k < before.len() {
                assert(list[k] == exported(before, now, system_now)[k]);
                assert(before[k] == entries[k]);
            }
        }
    }
}

/// What a client exports, an empty client with room imports: the same
/// alternatives in the same order, none of them refused, each with a lifetime
/// cut by less than a second.
pub proof fn export_then_import_restores_the_alternatives(
    store: StoreView,
    empty: StoreView,
    i: int,
    now: Instant,
    system_now: SystemTime,
)
    requires
        store.wf(),
        forall|k: int|
            0 <= k < store.entries.len() ==> persists(#[trigger] store.entries[k], now, system_now),
        empty.entries.len() == 0,
        empty.capacity >= store.entries.len(),
        0 <= i <= store.entries.len(),
        system_now.nanos >= 0,
    ensures
        ({
            let list = exported(store.entries, now, system_now);
            let after = imported(empty, list, i, now, system_now);
            &&& list.len() == store.entries.len()
            &&& forall|k: int| 0 <= k < list.len() ==> refusal(#[trigger] list[k]) is None
            &&& after.entries.len() == store.entries.len() - i
            &&& after.capacity == empty.capacity
            &&& forall|k: int|
                0 <= k < after.entries.len() ==> {
                    &&& (#[trigger] after.entries[k]).0 == store.entries[k + i].0
                    &&& after.entries[k].1.location == store.entries[k + i].1.location
                    &&& after.entries[k].1.expires_at.nanos <= store.entries[k + i].1.expires_at.nanos
                    &&& after.entries[k].1.expires_at.nanos + NANOS_PER_SEC
                        > store.entries[k + i].1.expires_at.nanos
                }
        }),
    decreases store.entries.len() - i,
{
    let entries = store.entries;
    let list = exported(entries, now, system_now);
    lemma_all_exported(entries, now, system_now);
    assert forall|k: int| 0 <= k < list.len() implies refusal(#[trigger] list[k]) is None by {
        assert(persists(entries[k], now, system_now));
    }
    if i < entries.len() {
        export_then_import_restores_the_alternatives(store, empty, i + 1, now, system_now);
        let later = imported(empty, list, i + 1, now, system_now);
        let after = imported(empty, list, i, now, system_now);
        let entry = list[i];
        assert(persists(entries[i], now, system_now));
        assert(entry_key(entry) == entries[i].0);
        assert(!superseded(list, i)) by {
            assert forall|j: int| i < j < list.len() implies entry_key(#[trigger] list[j])
                != entry_key(entry) by {
                assert(persists(entries[j], now, system_now));
                assert(entry_key(list[j]) == entries[j].0);
            }
        }
        assert(position(later.entries, entry_key(entry)) is None) by {
            assert forall|k: int| 0 <= k < later.entries.len() implies (
            #[trigger] later.entries[k]).0 != entry_key(entry) by {
                assert(later.entries[k].0 == entries[k + i + 1].0);
            }
            lemma_position_none(later.entries, entry_key(entry));
        }
        let lifetime = imported_lifetime(entry, system_now);
        let remaining = entries[i].1.expires_at.nanos - now.nanos;
        let end = system_now.nanos + remaining;
        assert(entry.expires_at.nanos == end - end % (NANOS_PER_SEC as int));
        assert(0 <= end % (NANOS_PER_SEC as int) < NANOS_PER_SEC);
        assert(remaining - NANOS_PER_SEC < lifetime.nanos <= remaining);
        assert(now.reaches(lifetime));
        assert(imported_expiry(entry, now, system_now).nanos == now.nanos + lifetime.nanos);
        assert forall|k: int| 0 <= k < after.entries.len() implies {
            &&& (#[trigger] after.entries[k]).0 == entries[k + i].0
            &&& after.entries[k].1.location == entries[k + i].1.location
            &&& after.entries[k].1.expires_at.nanos <= entries[k + i].1.expires_at.nanos
            &&& after.entries[k].1.expires_at.nanos + NANOS_PER_SEC
                > entries[k + i].1.expires_at.nanos
        } by {
            if k > 0 {
                assert(after.entries[k] == later.entries[k - 1]);
            }
        }
    }
}

} // verus!
