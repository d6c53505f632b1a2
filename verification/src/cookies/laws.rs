//! What holds of every cookie jar.

use vstd::prelude::*;
use vstd::utf8::encode_utf8;
use crate::cookies::jar::CookieJar;
use crate::cookies::model::{
    collected, count, counts, created_before, creation, domain_excess, evicted, expired,
    first_created, first_sent, first_to_leave, held_at, hides_secure, leaves_before,
    lemma_first_to_leave, lemma_placed, live, placed, record_of, sending, sent, sent_before, shifted_record,
    total_excess, unique, within, JarView, RecordView,
};
use crate::cookies::rules::{
    candidate, expiry, goes_with, overlays, quota_domain, schemeful_site, trustworthy,
    CandidateView, CookieKeyView, MAX_EXPIRY_NANOS,
};
use crate::cookies::snapshot::{
    added_records, added_to, admissible, admitted, all_accepted, checked, exported_at,
    exported_entry, exported_expiry, imported_expiry, imports, lemma_admitted, lemma_with_added,
    AddedView, EntryView, ImportView,
};
use crate::cookies::types::{CookieErrorKind, CookieLimits};
use crate::host::UrlView;
use crate::text::text_before;
use crate::time::{SystemTime, NANOS_PER_SEC};

verus! {

proof fn lemma_count_remove(records: Seq<RecordView>, domain: Option<Seq<char>>, i: int)
    requires
        0 <= i < records.len(),
    ensures
        count(records.remove(i), domain) + (if counts(records[i], domain) {
            1nat
        } else {
            0nat
        }) == count(records, domain),
    decreases records.len(),
{
    if i < records.len() - 1 {
        lemma_count_remove(records.drop_last(), domain, i);
        assert(records.remove(i).drop_last() =~= records.drop_last().remove(i));
        assert(records.remove(i).last() == records.last());
    } else {
        assert(records.remove(i) =~= records.drop_last());
    }
}

/// No more cookies count against a limit than there are.
pub proof fn lemma_count_bound(records: Seq<RecordView>, domain: Option<Seq<char>>)
    ensures
        count(records, domain) <= records.len(),
        domain is None ==> count(records, domain) == records.len(),
        count(records, domain) > 0 ==> exists|i: int|
            0 <= i < records.len() && counts(#[trigger] records[i], domain),
    decreases records.len(),
{
    if records.len() > 0 {
        lemma_count_bound(records.drop_last(), domain);
        if count(records.drop_last(), domain) > 0 {
            let front = records.drop_last();
            let i = choose|i: int| 0 <= i < front.len() && counts(#[trigger] front[i], domain);
            assert(counts(records[i], domain));
        } else if count(records, domain) > 0 {
            assert(counts(records[records.len() - 1], domain));
        }
    }
}

/// Whether the cookie at `i` is the first of the first `n` to leave.
spec fn first_among(
    records: Seq<RecordView>,
    domain: Option<Seq<char>>,
    n: int,
    i: int,
) -> bool {
    &&& 0 <= i < n
    &&& counts(records[i], domain)
    &&& forall|j: int|
        0 <= j < n && counts(#[trigger] records[j], domain) ==> leaves_before(records, i, j)
}

/// Where some cookie counts, one of them is the first to leave.
proof fn lemma_some_leaves(records: Seq<RecordView>, domain: Option<Seq<char>>, n: int, some: int)
    requires
        0 <= some < n <= records.len(),
        counts(records[some], domain),
    ensures
        exists|i: int| first_among(records, domain, n, i),
    decreases n,
{
    let last = n - 1;
    if exists|i: int| 0 <= i < last && counts(#[trigger] records[i], domain) {
        let other = choose|i: int| 0 <= i < last && counts(#[trigger] records[i], domain);
        lemma_some_leaves(records, domain, last, other);
        let i = choose|i: int| first_among(records, domain, last, i);
        if counts(records[last], domain) && !leaves_before(records, i, last) {
            assert(first_among(records, domain, n, last));
        } else {
            assert(first_among(records, domain, n, i));
        }
    } else {
        assert(some == last);
        assert(first_among(records, domain, n, last));
    }
}

/// Eviction takes as many cookies as it is asked to, all of them under the
/// limit that applies, and keeps the others in order.
pub proof fn lemma_evicted(records: Seq<RecordView>, domain: Option<Seq<char>>, n: nat)
    requires
        n <= count(records, domain),
    ensures
        evicted(records, domain, n).len() == records.len() - n,
        count(evicted(records, domain, n), domain) == count(records, domain) - n,
        forall|other: Option<Seq<char>>|
            count(evicted(records, domain, n), other) <= #[trigger] count(records, other),
        forall|i: int|
            0 <= i < evicted(records, domain, n).len() ==> records.contains(
                #[trigger] evicted(records, domain, n)[i],
            ),
    decreases n,
{
    if n > 0 {
        lemma_count_bound(records, domain);
        let some = choose|i: int| 0 <= i < records.len() && counts(#[trigger] records[i], domain);
        lemma_some_leaves(records, domain, records.len() as int, some);
        let i = choose|i: int| first_among(records, domain, records.len() as int, i);
        assert(first_to_leave(records, domain, i));
        let k = choose|k: int| first_to_leave(records, domain, k);
        lemma_first_to_leave(records, domain, i, k);
        let rest = records.remove(k);
        lemma_count_remove(records, domain, k);
        lemma_evicted(rest, domain, (n - 1) as nat);
        let left = evicted(records, domain, n);
        assert forall|other: Option<Seq<char>>| count(left, other) <= #[trigger] count(
            records,
            other,
        ) by {
            lemma_count_remove(records, other, k);
            assert(count(left, other) <= count(rest, other));
        }
        assert forall|m: int| 0 <= m < left.len() implies records.contains(#[trigger] left[m]) by {
            assert(rest.contains(left[m]));
            let p = choose|p: int| 0 <= p < rest.len() && rest[p] == left[m];
            assert(rest[p] == records[if p < k {
                p
            } else {
                p + 1
            }]);
        }
    }
}

/// Whether a jar keeps within the limits everywhere but in one domain, and
/// for one cookie.
pub open spec fn nearly_within(
    records: Seq<RecordView>,
    domain: Seq<char>,
    limits: CookieLimits,
) -> bool {
    &&& records.len() <= limits.max_cookies + 1
    &&& forall|other: Seq<char>|
        other != domain ==> #[trigger] count(records, Some(other)) <= limits.max_cookies_per_domain
}

proof fn lemma_collected(records: Seq<RecordView>, domain: Seq<char>, limits: CookieLimits)
    requires
        nearly_within(records, domain, limits),
    ensures
        within(collected(records, domain, limits), limits),
{
    let scope = Some(domain);
    let n = domain_excess(count(records, scope), limits.max_cookies_per_domain);
    let first = evicted(records, scope, n);
    lemma_evicted(records, scope, n);
    lemma_count_bound(first, None);
    let m = total_excess(first.len(), limits.max_cookies);
    lemma_evicted(first, None, m);
    let left = collected(records, domain, limits);
    assert forall|other: Seq<char>| #[trigger] count(left, Some(other))
        <= limits.max_cookies_per_domain by {
        assert(count(left, Some(other)) <= count(first, Some(other)));
        assert(count(first, Some(other)) <= count(records, Some(other)));
    }
}

/// Exactly the cookies that have not expired are live, in order.
pub proof fn lemma_live(records: Seq<RecordView>, now: SystemTime)
    ensures
        live(records, now).len() <= records.len(),
        forall|domain: Option<Seq<char>>|
            #[trigger] count(live(records, now), domain) <= count(records, domain),
        forall|i: int|
            0 <= i < live(records, now).len() ==> records.contains(#[trigger] live(records, now)[i])
                && !expired(live(records, now)[i], now),
        forall|i: int|
            0 <= i < records.len() && !expired(#[trigger] records[i], now) ==> live(
                records,
                now,
            ).contains(records[i]),
        unique(records) ==> unique(live(records, now)),
    decreases records.len(),
{
    if records.len() > 0 {
        let front = records.drop_last();
        let last = records.last();
        lemma_live(front, now);
        let kept = live(records, now);
        let before = live(front, now);
        assert forall|domain: Option<Seq<char>>| #[trigger] count(kept, domain) <= count(
            records,
            domain,
        ) by {
            assert(count(before, domain) <= count(front, domain));
            if !expired(last, now) {
                assert(kept.drop_last() =~= before);
            }
        }
        assert forall|i: int| 0 <= i < kept.len() implies records.contains(#[trigger] kept[i])
            && !expired(kept[i], now) by {
            if i < before.len() {
                assert(kept[i] == before[i]);
                let j = choose|j: int| 0 <= j < front.len() && front[j] == before[i];
                assert(records[j] == kept[i]);
            } else {
                assert(records[records.len() - 1] == kept[i]);
            }
        }
        assert forall|i: int|
            0 <= i < records.len() && !expired(#[trigger] records[i], now) implies kept.contains(
            records[i],
        ) by {
            if i < front.len() {
                assert(front[i] == records[i]);
                let j = choose|j: int| 0 <= j < before.len() && before[j] == front[i];
                assert(kept[j] == records[i]);
            } else {
                assert(kept[kept.len() - 1] == records[i]);
            }
        }
        if unique(records) {
            assert forall|i: int, j: int| 0 <= i < j < front.len() implies (
            #[trigger] front[i]).key != (#[trigger] front[j]).key by {
                assert(records[i].key != records[j].key);
            }
            assert forall|i: int, j: int| 0 <= i < j < kept.len() implies (
            #[trigger] kept[i]).key != (#[trigger] kept[j]).key by {
                if !expired(last, now) && j == before.len() {
                    assert(kept[i] == before[i]);
                    let k = choose|k: int| 0 <= k < front.len() && front[k] == before[i];
                    assert(records[k].key != records[records.len() - 1].key);
                } else {
                    assert(before[i].key != before[j].key);
                }
            }
        }
    }
}

proof fn lemma_count_update(
    records: Seq<RecordView>,
    i: int,
    record: RecordView,
    domain: Option<Seq<char>>,
)
    requires
        0 <= i < records.len(),
        counts(record, domain) == counts(records[i], domain),
    ensures
        count(records.update(i, record), domain) == count(records, domain),
    decreases records.len(),
{
    if i < records.len() - 1 {
        lemma_count_update(records.drop_last(), i, record, domain);
        assert(records.update(i, record).drop_last() =~= records.drop_last().update(i, record));
    } else {
        assert(records.update(i, record).drop_last() =~= records.drop_last());
    }
}

/// A jar within its limits stays within them when expired cookies leave.
pub proof fn purging_keeps_within_the_limits(jar: JarView, limits: CookieLimits, now: SystemTime)
    requires
        within(jar.records, limits),
    ensures
        within(jar.purged(now).records, limits),
{
    lemma_live(jar.records, now);
    let left = jar.purged(now).records;
    assert forall|domain: Seq<char>| #[trigger] count(left, Some(domain))
        <= limits.max_cookies_per_domain by {
        assert(count(left, Some(domain)) <= count(jar.records, Some(domain)));
    }
}

/// A jar within its limits stays within them, whatever field it is given.
pub proof fn storing_keeps_within_the_limits(
    jar: JarView,
    field: Seq<char>,
    url: UrlView,
    limits: CookieLimits,
    now: SystemTime,
)
    requires
        jar.wf(),
        within(jar.records, limits),
    ensures
        within(jar.with_field(field, url, limits, now).records, limits),
{
    lemma_live(jar.records, now);
    let clean = jar.purged(now);
    assert(within(clean.records, limits)) by {
        assert forall|domain: Seq<char>| #[trigger] count(clean.records, Some(domain))
            <= limits.max_cookies_per_domain by {
            assert(count(clean.records, Some(domain)) <= count(jar.records, Some(domain)));
        }
    }
    match candidate(field, url, limits) {
        Ok(found) => {
            let expires = expiry(found.raw, now);
            let domain = quota_domain(found.key.domain);
            let stored = clean.kept(found, expires);
            let dropped = clean.dropped(found.key);
            match held_at(clean.records, found.key) {
                Some(i) => {
                    assert(within(dropped.records, limits)) by {
                        assert forall|other: Seq<char>| #[trigger] count(
                            dropped.records,
                            Some(other),
                        ) <= limits.max_cookies_per_domain by {
                            lemma_count_remove(clean.records, Some(other), i);
                            assert(count(clean.records, Some(other))
                                <= limits.max_cookies_per_domain);
                        }
                    }
                    let kept = stored.records[i];
                    assert(clean.records[i].quota_domain == domain) by {
                        assert(jar.records.contains(clean.records[i]));
                    }
                    assert forall|other: Seq<char>| other != domain implies #[trigger] count(
                        stored.records,
                        Some(other),
                    ) <= limits.max_cookies_per_domain by {
                        lemma_count_update(clean.records, i, kept, Some(other));
                        assert(count(clean.records, Some(other)) <= limits.max_cookies_per_domain);
                    }
                },
                None => {
                    assert(stored.records.drop_last() =~= clean.records);
                    assert forall|other: Seq<char>| other != domain implies #[trigger] count(
                        stored.records,
                        Some(other),
                    ) <= limits.max_cookies_per_domain by {
                        assert(count(clean.records, Some(other)) <= limits.max_cookies_per_domain);
                    }
                },
            }
            lemma_collected(stored.records, domain, limits);
        },
        Err(_) => {},
    }
}

/// Eviction takes cookies that are not `Secure` before those that are, and
/// among equals the least recently used ones: of two cookies under the limit,
/// one that left and one that stayed, the one that left came first.
pub proof fn eviction_spares_secure_and_recent_cookies(
    records: Seq<RecordView>,
    domain: Option<Seq<char>>,
    n: nat,
    left: RecordView,
    stayed: RecordView,
)
    requires
        n <= count(records, domain),
        records.contains(left),
        counts(left, domain),
        !evicted(records, domain, n).contains(left),
        evicted(records, domain, n).contains(stayed),
        counts(stayed, domain),
    ensures
        left.secure ==> stayed.secure,
        left.secure == stayed.secure ==> left.last_access <= stayed.last_access,
    decreases n,
{
    if n > 0 {
        lemma_count_bound(records, domain);
        let some = choose|i: int| 0 <= i < records.len() && counts(#[trigger] records[i], domain);
        lemma_some_leaves(records, domain, records.len() as int, some);
        let i = choose|i: int| first_among(records, domain, records.len() as int, i);
        assert(first_to_leave(records, domain, i));
        let k = choose|k: int| first_to_leave(records, domain, k);
        lemma_first_to_leave(records, domain, i, k);
        let rest = records.remove(k);
        lemma_count_remove(records, domain, k);
        lemma_evicted(rest, domain, (n - 1) as nat);
        let m = choose|m: int|
            0 <= m < evicted(records, domain, n).len() && evicted(records, domain, n)[m] == stayed;
        assert(rest.contains(evicted(rest, domain, (n - 1) as nat)[m]));
        let q = choose|q: int| 0 <= q < rest.len() && rest[q] == stayed;
        let at = if q < k {
            q
        } else {
            q + 1
        };
        assert(records[at] == stayed);
        if records[k] == left {
            assert(leaves_before(records, k, at));
        } else {
            let p = choose|p: int| 0 <= p < records.len() && records[p] == left;
            assert(rest[if p < k {
                p
            } else {
                p - 1
            }] == left);
            eviction_spares_secure_and_recent_cookies(
                rest,
                domain,
                (n - 1) as nat,
                left,
                stayed,
            );
        }
    }
}

/// A cookie that replaces a held one keeps its creation position, and no
/// other cookie changes.
pub proof fn replacing_keeps_the_creation_position(
    jar: JarView,
    found: CandidateView,
    expires: Option<int>,
    i: int,
)
    requires
        jar.wf(),
        0 <= i < jar.records.len(),
        jar.records[i].key == found.key,
    ensures
        jar.kept(found, expires).records.len() == jar.records.len(),
        jar.kept(found, expires).records[i].sequence == jar.records[i].sequence,
        jar.kept(found, expires).records[i].value == found.raw.value,
        jar.kept(found, expires).next_sequence == jar.next_sequence,
        forall|j: int|
            0 <= j < jar.records.len() && j != i ==> jar.kept(found, expires).records[j]
                == #[trigger] jar.records[j],
{
    lemma_held_at(jar.records, i);
}

proof fn lemma_held_at(records: Seq<RecordView>, i: int)
    requires
        unique(records),
        0 <= i < records.len(),
    ensures
        held_at(records, records[i].key) == Some(i),
{
    let key = records[i].key;
    let k = choose|k: int| 0 <= k < records.len() && (#[trigger] records[k]).key == key;
    if k < i {
        assert(records[k].key != records[i].key);
    } else if i < k {
        assert(records[i].key != records[k].key);
    }
}

/// A cookie that has expired when it is set takes the held one out, and adds
/// none.
pub proof fn an_expired_cookie_deletes(
    jar: JarView,
    found: CandidateView,
    url: UrlView,
    limits: CookieLimits,
    now: SystemTime,
)
    requires
        jar.wf(),
        jar.refusal(found, url, now) is None,
        expiry(found.raw, now) matches Some(at) && at <= now.nanos,
    ensures
        held_at(jar.applied(found, url, limits, now).records, found.key) is None,
{
    lemma_live(jar.records, now);
    let clean = jar.purged(now).records;
    let left = jar.applied(found, url, limits, now).records;
    match held_at(clean, found.key) {
        Some(i) => {
            assert forall|j: int| 0 <= j < left.len() implies (
            #[trigger] left[j]).key != found.key by {
                if j < i {
                    assert(clean[j].key != clean[i].key);
                } else {
                    assert(clean[i].key != clean[j + 1].key);
                }
            }
        },
        None => {},
    }
}

/// Looking at a jar again at the same time changes nothing more.
pub proof fn inspecting_is_idempotent(jar: JarView, now: SystemTime)
    ensures
        jar.purged(now).purged(now) == jar.purged(now),
{
    lemma_live(jar.records, now);
    lemma_all_live(live(jar.records, now), now);
}

proof fn lemma_all_live(records: Seq<RecordView>, now: SystemTime)
    requires
        forall|i: int| 0 <= i < records.len() ==> !expired(#[trigger] records[i], now),
    ensures
        live(records, now) == records,
    decreases records.len(),
{
    if records.len() > 0 {
        lemma_all_live(records.drop_last(), now);
        assert(!expired(records[records.len() - 1], now));
        assert(records.drop_last().push(records.last()) =~= records);
    }
}

/// Whether a comparison orders cookies: it contradicts itself nowhere, and of
/// three cookies the middle one tells.
pub open spec fn orders(first: spec_fn(RecordView, RecordView) -> bool) -> bool {
    &&& forall|a: RecordView, b: RecordView| #[trigger] first(a, b) ==> !first(b, a)
    &&& forall|a: RecordView, b: RecordView, c: RecordView|
        !(#[trigger] first(a, b)) && !(#[trigger] first(b, c)) ==> !first(a, c)
}

/// Whether no cookie of a list comes before one in front of it.
pub open spec fn in_order(
    records: Seq<RecordView>,
    order: Seq<int>,
    first: spec_fn(RecordView, RecordView) -> bool,
) -> bool {
    forall|a: int, b: int|
        0 <= a < b < order.len() ==> !first(
            records[#[trigger] order[b]],
            records[#[trigger] order[a]],
        )
}

/// Whether a list names positions below `n`, none of them twice.
pub open spec fn positions(order: Seq<int>, n: int) -> bool {
    &&& forall|k: int| 0 <= k < order.len() ==> 0 <= #[trigger] order[k] < n
    &&& forall|a: int, b: int|
        0 <= a < b < order.len() ==> #[trigger] order[a] != #[trigger] order[b]
}

proof fn lemma_placed_in_order(
    records: Seq<RecordView>,
    order: Seq<int>,
    i: int,
    first: spec_fn(RecordView, RecordView) -> bool,
)
    requires
        orders(first),
        in_order(records, order, first),
        positions(order, i),
        0 <= i,
    ensures
        in_order(records, placed(records, order, i, first), first),
        positions(placed(records, order, i, first), i + 1),
        placed(records, order, i, first).len() == order.len() + 1,
        forall|x: int|
            #[trigger] placed(records, order, i, first).contains(x) <==> order.contains(x) || x
                == i,
    decreases order.len(),
{
    let all = placed(records, order, i, first);
    if order.len() > 0 && first(records[i], records[order.last()]) {
        let front = order.drop_last();
        let last = order.last();
        assert(last == order[order.len() - 1]);
        assert forall|a: int, b: int| 0 <= a < b < front.len() implies !first(
            records[#[trigger] front[b]],
            records[#[trigger] front[a]],
        ) by {
            assert(!first(records[order[b]], records[order[a]]));
        }
        assert forall|a: int, b: int| 0 <= a < b < front.len() implies #[trigger] front[a]
            != #[trigger] front[b] by {
            assert(order[a] != order[b]);
        }
        lemma_placed_in_order(records, front, i, first);
        let before = placed(records, front, i, first);
        assert(all == before.push(last));
        assert forall|k: int| 0 <= k < before.len() implies !first(
            records[last],
            records[#[trigger] before[k]],
        ) && before[k] != last by {
            assert(before.contains(before[k]));
            if before[k] != i {
                let m = choose|m: int| 0 <= m < front.len() && front[m] == before[k];
                assert(order[m] == before[k]);
                assert(!first(records[order[order.len() - 1]], records[order[m]]));
                assert(order[m] != order[order.len() - 1]);
            }
        }
        assert forall|x: int| #[trigger] all.contains(x) <==> order.contains(x) || x == i by {
            if all.contains(x) {
                let k = choose|k: int| 0 <= k < all.len() && all[k] == x;
                if k < before.len() {
                    assert(before.contains(x));
                    if x != i {
                        let m = choose|m: int| 0 <= m < front.len() && front[m] == x;
                        assert(order[m] == x);
                    }
                }
            }
            if x == i || order.contains(x) {
                if x == last {
                    assert(all[before.len() as int] == x);
                } else {
                    if x != i {
                        let m = choose|m: int| 0 <= m < order.len() && order[m] == x;
                        assert(front[m] == x);
                    }
                    assert(before.contains(x));
                    let k = choose|k: int| 0 <= k < before.len() && before[k] == x;
                    assert(all[k] == x);
                }
            }
        }
    } else {
        assert(all == order.push(i));
        assert forall|k: int| 0 <= k < order.len() implies !first(
            records[i],
            records[#[trigger] order[k]],
        ) by {
            let last = order.len() - 1;
            if k < last {
                assert(!first(records[order[last]], records[order[k]]));
                assert(!first(records[i], records[order[last]]));
            }
        }
        assert forall|x: int| #[trigger] all.contains(x) <==> order.contains(x) || x == i by {
            if all.contains(x) {
                let k = choose|k: int| 0 <= k < all.len() && all[k] == x;
                if k < order.len() {
                    assert(order[k] == x);
                }
            }
            if order.contains(x) {
                let k = choose|k: int| 0 <= k < order.len() && order[k] == x;
                assert(all[k] == x);
            }
            assert(all[order.len() as int] == i);
        }
    }
}

proof fn lemma_text_order(a: Seq<char>, b: Seq<char>, c: Seq<char>)
    ensures
        text_before(a, b) ==> !text_before(b, a),
        !text_before(a, b) && !text_before(b, c) ==> !text_before(a, c),
    decreases a.len() + b.len() + c.len(),
{
    if a.len() > 0 && b.len() > 0 && c.len() > 0 {
        lemma_text_order(a.skip(1), b.skip(1), c.skip(1));
    } else if a.len() > 0 && b.len() > 0 {
        lemma_text_order(a.skip(1), b.skip(1), c);
    }
}

proof fn lemma_sent_order()
    ensures
        orders(|a: RecordView, b: RecordView| sent_before(a, b)),
{
    let first = |a: RecordView, b: RecordView| sent_before(a, b);
    assert forall|a: RecordView, b: RecordView| #[trigger] first(a, b) implies !first(b, a) by {
        lemma_text_order(a.key.name, b.key.name, b.key.name);
    }
    assert forall|a: RecordView, b: RecordView, c: RecordView|
        !(#[trigger] first(a, b)) && !(#[trigger] first(b, c)) implies !first(a, c) by {
        lemma_text_order(a.key.name, b.key.name, c.key.name);
    }
}

proof fn lemma_first_sent(records: Seq<RecordView>, url: UrlView, n: nat)
    requires
        n <= records.len(),
    ensures
        in_order(records, first_sent(records, url, n), |a: RecordView, b: RecordView| sent_before(a, b)),
        positions(first_sent(records, url, n), n as int),
        forall|i: int| #[trigger]
            first_sent(records, url, n).contains(i) <==> 0 <= i < n && sent(records[i], url),
    decreases n,
{
    if n > 0 {
        let before = first_sent(records, url, (n - 1) as nat);
        lemma_first_sent(records, url, (n - 1) as nat);
        lemma_sent_order();
        if sent(records[n - 1], url) {
            lemma_placed_in_order(
                records,
                before,
                n - 1,
                |a: RecordView, b: RecordView| sent_before(a, b),
            );
        }
    }
}

/// A request sends exactly the cookies that go with its URL, each once: longer
/// paths first, then in creation order.
pub proof fn cookies_are_sent_once_and_in_order(records: Seq<RecordView>, url: UrlView)
    ensures
        forall|i: int| #[trigger]
            sending(records, url).contains(i) <==> 0 <= i < records.len() && sent(records[i], url),
        forall|a: int, b: int|
            0 <= a < b < sending(records, url).len() ==> #[trigger] sending(records, url)[a]
                != #[trigger] sending(records, url)[b],
        forall|a: int, b: int|
            0 <= a < b < sending(records, url).len() ==> {
                let earlier = records[#[trigger] sending(records, url)[a]];
                let later = records[#[trigger] sending(records, url)[b]];
                let (long, short) = (
                    encode_utf8(earlier.key.path).len(),
                    encode_utf8(later.key.path).len(),
                );
                long >= short && (long == short ==> earlier.sequence <= later.sequence)
            },
{
    lemma_first_sent(records, url, records.len());
    let order = sending(records, url);
    let first = |a: RecordView, b: RecordView| sent_before(a, b);
    assert forall|a: int, b: int| 0 <= a < b < order.len() implies {
        let earlier = records[#[trigger] order[a]];
        let later = records[#[trigger] order[b]];
        let (long, short) = (
            encode_utf8(earlier.key.path).len(),
            encode_utf8(later.key.path).len(),
        );
        long >= short && (long == short ==> earlier.sequence <= later.sequence)
    } by {
        assert(!first(records[order[b]], records[order[a]]));
    }
}

/// `Secure` cookies are sent only to potentially trustworthy URLs.
pub proof fn secure_cookies_stay_off_untrustworthy_urls(
    records: Seq<RecordView>,
    url: UrlView,
    k: int,
)
    requires
        0 <= k < sending(records, url).len(),
        !trustworthy(url),
    ensures
        !records[sending(records, url)[k]].secure,
{
    lemma_first_sent(records, url, records.len());
    assert(sending(records, url).contains(sending(records, url)[k]));
}

/// A URL that is not potentially trustworthy can neither replace, expire nor
/// hide a live `Secure` cookie outside partitions: its cookie of the same
/// name, for a domain above, at or below the held one's and a path at or under
/// it, is refused, and the jar stays as it is.
pub proof fn an_untrusted_cookie_leaves_secure_ones(
    jar: JarView,
    found: CandidateView,
    url: UrlView,
    limits: CookieLimits,
    now: SystemTime,
    i: int,
)
    requires
        !found.trusted,
        0 <= i < jar.records.len(),
        !jar.records[i].key.partitioned,
        !expired(jar.records[i], now),
        overlays(found.key, jar.records[i].key, jar.records[i].secure),
    ensures
        jar.refusal(found, url, now) matches Some(error) && error.kind
            == CookieErrorKind::SecureOverlay,
        jar.applied(found, url, limits, now) == jar,
{
    assert(hides_secure(jar.records, found.key, now));
}

/// A cookie in a partition is sent only to the site of its partition.
pub proof fn partitioned_cookies_stay_in_their_partition(jar: JarView, url: UrlView, k: int)
    requires
        jar.wf(),
        0 <= k < sending(jar.records, url).len(),
        jar.records[sending(jar.records, url)[k]].key.partitioned,
    ensures
        jar.records[sending(jar.records, url)[k]].partition_site == Some(schemeful_site(url)),
{
    lemma_first_sent(jar.records, url, jar.records.len());
    assert(sending(jar.records, url).contains(sending(jar.records, url)[k]));
}

/// Whether a request to a URL sends a cookie with a value.
pub open spec fn sends(
    records: Seq<RecordView>,
    url: UrlView,
    key: CookieKeyView,
    value: Seq<char>,
) -> bool {
    exists|k: int|
        0 <= k < sending(records, url).len() && records[#[trigger] sending(records, url)[k]].key
            == key && records[sending(records, url)[k]].value == value
}

/// A cookie that was stored is there with its value, unless it was evicted at
/// once, and goes with every request that its place allows until it expires.
pub proof fn a_stored_cookie_is_sent(
    jar: JarView,
    found: CandidateView,
    url: UrlView,
    limits: CookieLimits,
    now: SystemTime,
    later: SystemTime,
    request: UrlView,
)
    requires
        jar.wf(),
        jar.refusal(found, url, now) is None,
        !(expiry(found.raw, now) matches Some(at) && at <= now.nanos),
        !(expiry(found.raw, now) matches Some(at) && at <= later.nanos),
        held_at(jar.applied(found, url, limits, now).records, found.key) is Some,
        goes_with(found.key, found.raw.secure, request),
        found.partition_site is Some ==> found.partition_site == Some(schemeful_site(request)),
    ensures
        sends(
            jar.applied(found, url, limits, now).purged(later).records,
            request,
            found.key,
            found.raw.value,
        ),
{
    let expires = expiry(found.raw, now);
    let clean = jar.purged(now);
    lemma_live(jar.records, now);
    let stored = clean.kept(found, expires);
    let after_store = jar.applied(found, url, limits, now);
    let domain = quota_domain(found.key.domain);
    lemma_collected_from(stored.records, domain, limits);
    let i = held_at(after_store.records, found.key)->0;
    let record = after_store.records[i];
    assert(stored.records.contains(record));
    let j = choose|j: int| 0 <= j < stored.records.len() && stored.records[j] == record;
    assert(record == record_of(found, expires, record.sequence, record.last_access)) by {
        match held_at(clean.records, found.key) {
            Some(p) => {
                if j != p {
                    assert(clean.records[j].key == found.key);
                    if j < p {
                        assert(clean.records[j].key != clean.records[p].key);
                    } else {
                        assert(clean.records[p].key != clean.records[j].key);
                    }
                }
            },
            None => {
                if j < clean.records.len() {
                    assert(clean.records[j].key == found.key);
                }
            },
        }
    }
    lemma_live(after_store.records, later);
    let records = after_store.purged(later).records;
    assert(!expired(record, later));
    assert(records.contains(record));
    let m = choose|m: int| 0 <= m < records.len() && records[m] == record;
    lemma_first_sent(records, request, records.len());
    assert(sent(records[m], request));
    assert(sending(records, request).contains(m));
    let k = choose|k: int| 0 <= k < sending(records, request).len() && sending(records, request)[k] == m;
    assert(records[sending(records, request)[k]].key == found.key);
}

/// Applying the limits adds no cookie.
pub proof fn lemma_collected_from(records: Seq<RecordView>, domain: Seq<char>, limits: CookieLimits)
    ensures
        forall|i: int|
            0 <= i < collected(records, domain, limits).len() ==> records.contains(
                #[trigger] collected(records, domain, limits)[i],
            ),
{
    let scope = Some(domain);
    let n = domain_excess(count(records, scope), limits.max_cookies_per_domain);
    let first = evicted(records, scope, n);
    lemma_evicted(records, scope, n);
    lemma_count_bound(first, None);
    let m = total_excess(first.len(), limits.max_cookies);
    lemma_evicted(first, None, m);
    let left = collected(records, domain, limits);
    assert forall|i: int| 0 <= i < left.len() implies records.contains(#[trigger] left[i]) by {
        assert(first.contains(left[i]));
        let j = choose|j: int| 0 <= j < first.len() && first[j] == left[i];
        assert(records.contains(first[j]));
    }
}

/// Where neither limit is reached, storing a cookie evicts none, and the
/// cookie is there.
pub proof fn a_cookie_below_the_limits_is_kept(
    jar: JarView,
    found: CandidateView,
    url: UrlView,
    limits: CookieLimits,
    now: SystemTime,
)
    requires
        jar.wf(),
        jar.refusal(found, url, now) is None,
        !(expiry(found.raw, now) matches Some(at) && at <= now.nanos),
        jar.purged(now).records.len() < limits.max_cookies,
        count(jar.purged(now).records, Some(quota_domain(found.key.domain)))
            < limits.max_cookies_per_domain,
    ensures
        jar.applied(found, url, limits, now) == jar.purged(now).kept(
            found,
            expiry(found.raw, now),
        ),
        held_at(jar.applied(found, url, limits, now).records, found.key) is Some,
{
    lemma_live(jar.records, now);
    let clean = jar.purged(now);
    let domain = Some(quota_domain(found.key.domain));
    let stored = clean.kept(found, expiry(found.raw, now));
    match held_at(clean.records, found.key) {
        Some(i) => {
            assert(clean.records[i].quota_domain == quota_domain(found.key.domain)) by {
                assert(jar.records.contains(clean.records[i]));
            }
            lemma_count_update(clean.records, i, stored.records[i], domain);
            assert(stored.records[i].key == found.key);
        },
        None => {
            assert(stored.records.drop_last() =~= clean.records);
            assert(stored.records[clean.records.len() as int].key == found.key);
        },
    }
}

proof fn lemma_added_within(
    held: Seq<RecordView>,
    entries: Seq<ImportView>,
    limits: CookieLimits,
    now: SystemTime,
)
    ensures
        admitted(held, entries, limits, now).len() == 0 || held.len() + admitted(
            held,
            entries,
            limits,
            now,
        ).len() <= limits.max_cookies,
        forall|domain: Seq<char>| #[trigger]
            added_to(admitted(held, entries, limits, now), domain) == 0 || count(
                held,
                Some(domain),
            ) + added_to(admitted(held, entries, limits, now), domain)
                <= limits.max_cookies_per_domain,
    decreases entries.len(),
{
    if entries.len() > 0 {
        let later = entries.skip(1);
        let added = admitted(held, later, limits, now);
        let all = admitted(held, entries, limits, now);
        lemma_added_within(held, later, limits, now);
        if admissible(held, entries[0], later, added, limits, now) {
            assert(all.skip(1) =~= added);
            assert forall|domain: Seq<char>| #[trigger] added_to(all, domain) == 0 || count(
                held,
                Some(domain),
            ) + added_to(all, domain) <= limits.max_cookies_per_domain by {
                assert(added_to(added, domain) == 0 || count(held, Some(domain)) + added_to(
                    added,
                    domain,
                ) <= limits.max_cookies_per_domain);
            }
        }
    }
}

proof fn lemma_added_push(added: Seq<AddedView>, more: AddedView, domain: Seq<char>)
    ensures
        added_to(added.push(more), domain) == added_to(added, domain) + (if quota_domain(
            more.found.key.domain,
        ) == domain {
            1nat
        } else {
            0nat
        }),
    decreases added.len(),
{
    if added.len() > 0 {
        lemma_added_push(added.skip(1), more, domain);
        assert(added.push(more).skip(1) =~= added.skip(1).push(more));
    } else {
        assert(added.push(more).skip(1) =~= added);
    }
}

proof fn lemma_count_added(held: Seq<RecordView>, added: Seq<AddedView>, domain: Seq<char>)
    ensures
        count(held + added_records(added), Some(domain)) == count(held, Some(domain)) + added_to(
            added,
            domain,
        ),
    decreases added.len(),
{
    if added.len() > 0 {
        let front = added.drop_last();
        lemma_count_added(held, front, domain);
        lemma_added_push(front, added.last(), domain);
        assert(front.push(added.last()) =~= added);
        assert((held + added_records(added)).drop_last() =~= held + added_records(front));
    } else {
        assert(held + added_records(added) =~= held);
    }
}

proof fn lemma_imported(
    jar: JarView,
    entries: Seq<EntryView>,
    limits: CookieLimits,
    now: SystemTime,
)
    ensures
        jar.imported(entries, limits, now).records == jar.purged(now).shifted(
            admitted(
                jar.purged(now).records,
                imports(entries, limits),
                limits,
                now,
            ).len() as u64,
        ).records + added_records(
            admitted(jar.purged(now).records, imports(entries, limits), limits, now),
        ),
        admitted(jar.purged(now).records, imports(entries, limits), limits, now).len()
            <= limits.max_cookies,
{
    let clean = jar.purged(now);
    let added = admitted(clean.records, imports(entries, limits), limits, now);
    lemma_admitted(clean.records, imports(entries, limits), limits, now);
    lemma_added_within(clean.records, imports(entries, limits), limits, now);
    let base = clean.shifted(added.len() as u64);
    assert forall|k: int, m: int|
        0 <= k < added.len() && 0 <= m < base.records.len() implies (
    #[trigger] added[k]).found.key != (#[trigger] base.records[m]).key by {
        assert(added[k].found.key != clean.records[m].key);
    }
    lemma_with_added(base, added);
}

/// An import neither drops nor changes a held cookie, beyond moving all of
/// them behind the added ones, which count as created and used before every
/// held one.
pub proof fn held_cookies_win_over_imported_ones(
    jar: JarView,
    entries: Seq<EntryView>,
    limits: CookieLimits,
    now: SystemTime,
)
    ensures
        jar.imported(entries, limits, now).records.len() >= jar.purged(now).records.len(),
        forall|i: int|
            0 <= i < jar.purged(now).records.len() ==> #[trigger] jar.imported(
                entries,
                limits,
                now,
            ).records[i] == shifted_record(
                jar.purged(now).records[i],
                (jar.imported(entries, limits, now).records.len() - jar.purged(
                    now,
                ).records.len()) as u64,
            ),
        forall|i: int, k: int|
            0 <= i < jar.purged(now).records.len() <= k < jar.imported(
                entries,
                limits,
                now,
            ).records.len() ==> {
                let held = #[trigger] jar.imported(entries, limits, now).records[i];
                let added = #[trigger] jar.imported(entries, limits, now).records[k];
                added.sequence < held.sequence && added.last_access < held.last_access
                    && added.key != held.key
            },
{
    lemma_imported(jar, entries, limits, now);
    let clean = jar.purged(now).records;
    let added = admitted(clean, imports(entries, limits), limits, now);
    let records = jar.imported(entries, limits, now).records;
    lemma_admitted(clean, imports(entries, limits), limits, now);
    assert forall|i: int, k: int| 0 <= i < clean.len() <= k < records.len() implies {
        let held = #[trigger] records[i];
        let one = #[trigger] records[k];
        one.sequence < held.sequence && one.last_access < held.last_access && one.key != held.key
    } by {
        assert(records[k] == added_records(added)[k - clean.len()]);
        assert(added[k - clean.len()].found.key != clean[i].key);
    }
}

proof fn lemma_used(jar: JarView, order: Seq<int>, domain: Option<Seq<char>>)
    requires
        forall|k: int| 0 <= k < order.len() ==> 0 <= #[trigger] order[k] < jar.records.len(),
    ensures
        jar.used(order).records.len() == jar.records.len(),
        count(jar.used(order).records, domain) == count(jar.records, domain),
    decreases order.len(),
{
    if order.len() > 0 {
        let front = order.drop_last();
        assert forall|k: int| 0 <= k < front.len() implies 0 <= #[trigger] front[k]
            < jar.records.len() by {
            assert(front[k] == order[k]);
        }
        lemma_used(jar, front, domain);
        let before = jar.used(front);
        let i = order[order.len() - 1];
        lemma_count_update(
            before.records,
            i,
            RecordView { last_access: before.next_access, ..before.records[i] },
            domain,
        );
    }
}

/// A jar within its limits stays within them when a request sends cookies.
pub proof fn sending_keeps_within_the_limits(
    jar: JarView,
    url: UrlView,
    limits: CookieLimits,
    now: SystemTime,
)
    requires
        within(jar.records, limits),
    ensures
        within(jar.sent_to(url, now).records, limits),
{
    purging_keeps_within_the_limits(jar, limits, now);
    let clean = jar.purged(now);
    let order = sending(clean.records, url);
    cookies_are_sent_once_and_in_order(clean.records, url);
    assert forall|k: int| 0 <= k < order.len() implies 0 <= #[trigger] order[k]
        < clean.records.len() by {
        assert(order.contains(order[k]));
    }
    lemma_used(clean, order, None);
    assert forall|domain: Seq<char>| #[trigger] count(
        jar.sent_to(url, now).records,
        Some(domain),
    ) <= limits.max_cookies_per_domain by {
        lemma_used(clean, order, Some(domain));
        assert(count(clean.records, Some(domain)) <= limits.max_cookies_per_domain);
    }
}

/// A jar within its limits stays within them, whatever it imports.
pub proof fn importing_keeps_within_the_limits(
    jar: JarView,
    entries: Seq<EntryView>,
    limits: CookieLimits,
    now: SystemTime,
)
    requires
        within(jar.records, limits),
    ensures
        within(jar.imported(entries, limits, now).records, limits),
{
    lemma_live(jar.records, now);
    lemma_imported(jar, entries, limits, now);
    let clean = jar.purged(now).records;
    let added = admitted(clean, imports(entries, limits), limits, now);
    lemma_added_within(clean, imports(entries, limits), limits, now);
    let moved = jar.purged(now).shifted(added.len() as u64).records;
    let records = jar.imported(entries, limits, now).records;
    assert forall|domain: Seq<char>| #[trigger] count(records, Some(domain))
        <= limits.max_cookies_per_domain by {
        lemma_count_added(moved, added, domain);
        lemma_count_shifted(clean, moved, Some(domain));
        assert(count(clean, Some(domain)) <= count(jar.records, Some(domain)));
        assert(added_to(added, domain) == 0 || count(clean, Some(domain)) + added_to(
            added,
            domain,
        ) <= limits.max_cookies_per_domain);
    }
}

proof fn lemma_count_shifted(
    before: Seq<RecordView>,
    moved: Seq<RecordView>,
    domain: Option<Seq<char>>,
)
    requires
        before.len() == moved.len(),
        forall|i: int|
            0 <= i < before.len() ==> (#[trigger] moved[i]).quota_domain == before[i].quota_domain,
    ensures
        count(moved, domain) == count(before, domain),
    decreases before.len(),
{
    if before.len() > 0 {
        let (b, m) = (before.drop_last(), moved.drop_last());
        assert forall|i: int| 0 <= i < b.len() implies (#[trigger] m[i]).quota_domain
            == b[i].quota_domain by {
            assert(moved[i].quota_domain == before[i].quota_domain);
        }
        lemma_count_shifted(b, m, domain);
        assert(moved[moved.len() - 1].quota_domain == before[before.len() - 1].quota_domain);
    }
}

/// An import never lets a cookie live longer than its entry says, and adds
/// none that has expired.
pub proof fn an_import_never_extends_a_cookie_s_life(at: SystemTime, now: SystemTime)
    ensures
        imported_expiry(Some(at), now) matches Some(expires) ==> expires matches Some(end) && now.nanos
            < end <= at.nanos,
{
}

proof fn lemma_first_created(records: Seq<RecordView>, n: nat)
    requires
        n <= records.len(),
    ensures
        in_order(
            records,
            first_created(records, n),
            |a: RecordView, b: RecordView| created_before(a, b),
        ),
        positions(first_created(records, n), n as int),
        first_created(records, n).len() == n,
    decreases n,
{
    if n > 0 {
        lemma_first_created(records, (n - 1) as nat);
        lemma_placed_in_order(
            records,
            first_created(records, (n - 1) as nat),
            n - 1,
            |a: RecordView, b: RecordView| created_before(a, b),
        );
    }
}

/// An export lists every cookie once, in creation order.
pub proof fn an_export_is_in_creation_order(records: Seq<RecordView>)
    ensures
        creation(records).len() == records.len(),
        positions(creation(records), records.len() as int),
        forall|a: int, b: int|
            0 <= a < b < records.len() ==> records[#[trigger] creation(records)[a]].sequence
                <= records[#[trigger] creation(records)[b]].sequence,
{
    lemma_first_created(records, records.len());
    let order = creation(records);
    let first = |a: RecordView, b: RecordView| created_before(a, b);
    assert forall|a: int, b: int| 0 <= a < b < records.len() implies records[#[trigger] order[a]].sequence
        <= records[#[trigger] order[b]].sequence by {
        assert(!first(records[order[b]], records[order[a]]));
    }
}

/// The positions of the cookies that an export keeps.
spec fn lasting_at(records: Seq<RecordView>, order: Seq<int>, now: SystemTime) -> Seq<int>
    decreases order.len(),
{
    if order.len() == 0 {
        Seq::empty()
    } else {
        let before = lasting_at(records, order.drop_last(), now);
        if exported_expiry(records[order.last()].expires, now) is Some {
            before.push(order.last())
        } else {
            before
        }
    }
}

proof fn lemma_lasting_at(records: Seq<RecordView>, order: Seq<int>, now: SystemTime)
    requires
        positions(order, records.len() as int),
    ensures
        positions(lasting_at(records, order, now), records.len() as int),
        exported_at(records, order, now).len() == lasting_at(records, order, now).len(),
        lasting_at(records, order, now).len() <= order.len(),
        forall|k: int|
            0 <= k < lasting_at(records, order, now).len() ==> {
                let record = records[#[trigger] lasting_at(records, order, now)[k]];
                exported_expiry(record.expires, now) is Some && exported_at(records, order, now)[k]
                    == exported_entry(record, exported_expiry(record.expires, now)->0)
            },
        forall|x: int| #[trigger]
            lasting_at(records, order, now).contains(x) ==> order.contains(x),
    decreases order.len(),
{
    if order.len() > 0 {
        let front = order.drop_last();
        assert forall|a: int, b: int| 0 <= a < b < front.len() implies #[trigger] front[a]
            != #[trigger] front[b] by {
            assert(order[a] != order[b]);
        }
        lemma_lasting_at(records, front, now);
        let before = lasting_at(records, front, now);
        let all = lasting_at(records, order, now);
        let last = order.last();
        assert(last == order[order.len() - 1]);
        assert forall|k: int| 0 <= k < before.len() implies #[trigger] before[k] != last by {
            assert(before.contains(before[k]));
            let m = choose|m: int| 0 <= m < front.len() && front[m] == before[k];
            assert(order[m] != order[order.len() - 1]);
        }
        assert forall|x: int| #[trigger] all.contains(x) implies order.contains(x) by {
            let k = choose|k: int| 0 <= k < all.len() && all[k] == x;
            if k < before.len() {
                assert(before[k] == x);
                assert(before.contains(x));
                let m = choose|m: int| 0 <= m < front.len() && front[m] == x;
                assert(order[m] == x);
            }
        }
    }
}

spec fn at_positions(records: Seq<RecordView>, order: Seq<int>) -> Seq<RecordView> {
    order.map_values(|i: int| records[i])
}

/// Of a list without repetitions no more cookies count than of the jar.
proof fn lemma_count_positions(
    records: Seq<RecordView>,
    order: Seq<int>,
    domain: Option<Seq<char>>,
)
    requires
        positions(order, records.len() as int),
    ensures
        count(at_positions(records, order), domain) <= count(records, domain),
    decreases records.len(),
{
    if records.len() == 0 {
        if order.len() > 0 {
            assert(0 <= order[0] < records.len());
        }
    } else {
        let front = records.drop_last();
        let n = records.len() - 1;
        if exists|p: int| 0 <= p < order.len() && #[trigger] order[p] == n {
            let p = choose|p: int| 0 <= p < order.len() && #[trigger] order[p] == n;
            let rest = order.remove(p);
            assert forall|a: int, b: int| 0 <= a < b < rest.len() implies #[trigger] rest[a]
                != #[trigger] rest[b] by {
                let x = if a < p {
                    a
                } else {
                    a + 1
                };
                let y = if b < p {
                    b
                } else {
                    b + 1
                };
                assert(order[x] != order[y]);
            }
            assert forall|a: int| 0 <= a < rest.len() implies 0 <= #[trigger] rest[a] < n by {
                let x = if a < p {
                    a
                } else {
                    a + 1
                };
                if x < p {
                    assert(order[x] != order[p]);
                } else {
                    assert(order[p] != order[x]);
                }
                assert(0 <= order[x] < records.len());
            }
            lemma_count_positions(front, rest, domain);
            assert(at_positions(front, rest) =~= at_positions(records, order).remove(p));
            lemma_count_remove(at_positions(records, order), domain, p);
        } else {
            assert forall|a: int| 0 <= a < order.len() implies 0 <= #[trigger] order[a] < n by {
                assert(order[a] != n);
            }
            lemma_count_positions(front, order, domain);
            assert(at_positions(front, order) =~= at_positions(records, order));
        }
    }
}

proof fn lemma_count_as_added(
    records: Seq<RecordView>,
    added: Seq<AddedView>,
    domain: Seq<char>,
)
    requires
        records.len() == added.len(),
        forall|k: int|
            0 <= k < added.len() ==> quota_domain((#[trigger] added[k]).found.key.domain)
                == records[k].quota_domain,
    ensures
        added_to(added, domain) == count(records, Some(domain)),
    decreases added.len(),
{
    if added.len() > 0 {
        let (r, a) = (records.drop_last(), added.drop_last());
        assert forall|k: int| 0 <= k < a.len() implies quota_domain(
            (#[trigger] a[k]).found.key.domain,
        ) == r[k].quota_domain by {
            assert(quota_domain(added[k].found.key.domain) == records[k].quota_domain);
        }
        lemma_count_as_added(r, a, domain);
        lemma_added_push(a, added.last(), domain);
        assert(a.push(added.last()) =~= added);
        assert(quota_domain(added[added.len() - 1].found.key.domain) == records[records.len()
            - 1].quota_domain);
    }
}

proof fn lemma_added_suffix(added: Seq<AddedView>, i: int, domain: Seq<char>)
    requires
        0 <= i <= added.len(),
    ensures
        added_to(added.skip(i), domain) <= added_to(added, domain),
    decreases i,
{
    if i > 0 {
        lemma_added_suffix(added, i - 1, domain);
        assert(added.skip(i - 1).skip(1) =~= added.skip(i));
    } else {
        assert(added.skip(0) =~= added);
    }
}

/// An empty jar takes every entry that it has room for.
proof fn lemma_all_admitted(
    entries: Seq<ImportView>,
    added: Seq<AddedView>,
    limits: CookieLimits,
    now: SystemTime,
    i: int,
)
    requires
        0 <= i <= entries.len(),
        added.len() == entries.len(),
        entries.len() <= limits.max_cookies,
        forall|domain: Seq<char>| #[trigger]
            added_to(added, domain) <= limits.max_cookies_per_domain,
        forall|k: int|
            0 <= k < entries.len() ==> (#[trigger] entries[k]).found == added[k].found
                && imported_expiry(entries[k].expires_at, now) == Some(added[k].expires),
        forall|k: int, j: int|
            0 <= k < j < entries.len() ==> (#[trigger] entries[k]).found.key != (
            #[trigger] entries[j]).found.key,
    ensures
        admitted(Seq::empty(), entries.skip(i), limits, now) == added.skip(i),
    decreases entries.len() - i,
{
    let rest = entries.skip(i);
    if i < entries.len() {
        lemma_all_admitted(entries, added, limits, now, i + 1);
        let later = rest.skip(1);
        assert(later =~= entries.skip(i + 1));
        assert(rest[0] == entries[i]);
        let taken = added.skip(i + 1);
        let domain = quota_domain(entries[i].found.key.domain);
        assert(added.skip(i).skip(1) =~= taken);
        lemma_added_suffix(added, i, domain);
        assert(added_to(added, domain) <= limits.max_cookies_per_domain);
        assert forall|j: int| 0 <= j < later.len() implies (
        #[trigger] later[j]).found.key != entries[i].found.key by {
            assert(entries[i].found.key != entries[i + 1 + j].found.key);
        }
        let none = Seq::<RecordView>::empty();
        assert(count(none, Some(domain)) == 0);
        assert(held_at(none, entries[i].found.key) is None);
        assert(admissible(none, rest[0], later, taken, limits, now));
        assert(added.skip(i) =~= seq![added[i]] + taken);
    } else {
        assert(rest =~= Seq::empty());
        assert(added.skip(i) =~= Seq::empty());
    }
}

/// Cookies created in the order in which they stand are exported in it.
proof fn lemma_created_in_place(records: Seq<RecordView>, n: nat)
    requires
        n <= records.len(),
        forall|a: int, b: int|
            0 <= a < b < records.len() ==> (#[trigger] records[a]).sequence < (
            #[trigger] records[b]).sequence,
    ensures
        first_created(records, n) == Seq::new(n, |i: int| i),
    decreases n,
{
    if n > 0 {
        lemma_created_in_place(records, (n - 1) as nat);
        let before = first_created(records, (n - 1) as nat);
        if n > 1 {
            assert(before.last() == n - 2);
            assert(records[n - 2].sequence < records[n - 1].sequence);
        }
        assert(first_created(records, n) =~= Seq::new(n, |i: int| i));
    } else {
        assert(first_created(records, n) =~= Seq::new(n, |i: int| i));
    }
}

proof fn lemma_reexported(
    records: Seq<RecordView>,
    entries: Seq<EntryView>,
    now: SystemTime,
    n: nat,
)
    requires
        n <= records.len(),
        records.len() == entries.len(),
        forall|k: int|
            0 <= k < records.len() ==> exported_expiry((#[trigger] records[k]).expires, now)
                is Some && exported_entry(
                records[k],
                exported_expiry(records[k].expires, now)->0,
            ) == entries[k],
    ensures
        exported_at(records, Seq::new(n, |i: int| i), now) == entries.take(n as int),
    decreases n,
{
    let order = Seq::new(n, |i: int| i);
    if n > 0 {
        let front = Seq::new((n - 1) as nat, |i: int| i);
        assert(order.drop_last() =~= front);
        lemma_reexported(records, entries, now, (n - 1) as nat);
        assert(order.last() == n - 1);
        assert(exported_expiry(records[n - 1].expires, now) is Some);
        assert(entries.take(n as int) =~= entries.take(n - 1).push(entries[n - 1]));
    } else {
        assert(entries.take(0) =~= Seq::empty());
    }
}

/// Whether what an import at `meanwhile` makes of a cookie's entry is the cookie
/// again, as an export at `later` shows it.
spec fn restores(
    record: RecordView,
    entry: EntryView,
    import: ImportView,
    added: AddedView,
    position: u64,
    meanwhile: SystemTime,
    later: SystemTime,
) -> bool {
    let again = record_of(added.found, added.expires, position, position);
    &&& import.found == added.found
    &&& added.found.key == record.key
    &&& imported_expiry(import.expires_at, meanwhile) == Some(added.expires)
    &&& exported_expiry(added.expires, later) is Some
    &&& exported_entry(again, exported_expiry(added.expires, later)->0) == entry
    &&& again.quota_domain == record.quota_domain
    &&& !expired(again, later)
}

proof fn lemma_restores(
    record: RecordView,
    limits: CookieLimits,
    now: SystemTime,
    meanwhile: SystemTime,
    later: SystemTime,
    position: u64,
)
    requires
        meanwhile.nanos <= later.nanos,
        exported_expiry(record.expires, now) matches Some(Some(at)) ==> at.nanos > later.nanos,
        record.quota_domain == quota_domain(record.key.domain),
        record.key.partitioned == record.partition_site is Some,
        record.expires matches Some(at) ==> at <= MAX_EXPIRY_NANOS,
        exported_expiry(record.expires, now) is Some,
        checked(
            exported_entry(record, exported_expiry(record.expires, now)->0),
            limits,
        ) is Ok,
    ensures
        ({
            let entry = exported_entry(record, exported_expiry(record.expires, now)->0);
            let found = checked(entry, limits)->Ok_0;
            restores(
                record,
                entry,
                ImportView { found, expires_at: entry.expires_at },
                AddedView { found, expires: imported_expiry(entry.expires_at, meanwhile)->0 },
                position,
                meanwhile,
                later,
            )
        }),
{
    let entry = exported_entry(record, exported_expiry(record.expires, now)->0);
    let found = checked(entry, limits)->Ok_0;
    assert(found.key == record.key);
    reveal_strlit("http");
    reveal_strlit("https");
    assert("http"@.len() != "https"@.len());
    assert(found.source_scheme == record.source_scheme);
}

/// Whether no entry of a snapshot has expired at `now`.
pub open spec fn unexpired(entries: Seq<EntryView>, now: SystemTime) -> bool {
    forall|k: int|
        0 <= k < entries.len() ==> ((#[trigger] entries[k]).expires_at matches Some(at) ==> at.nanos
            > now.nanos)
}

proof fn lemma_restored(
    jar: JarView,
    empty: JarView,
    limits: CookieLimits,
    now: SystemTime,
    meanwhile: SystemTime,
    later: SystemTime,
)
    requires
        jar.wf(),
        empty.records.len() == 0,
        within(jar.records, limits),
        all_accepted(jar.exported(now), limits),
        meanwhile.nanos <= later.nanos,
        unexpired(jar.exported(now), later),
    ensures
        empty.imported(jar.exported(now), limits, meanwhile).exported(later) == jar.exported(now),
{
    let records = jar.purged(now).records;
    let entries = jar.exported(now);
    lemma_live(jar.records, now);
    assert(within(records, limits)) by {
        assert forall|domain: Seq<char>| #[trigger] count(records, Some(domain))
            <= limits.max_cookies_per_domain by {
            assert(count(records, Some(domain)) <= count(jar.records, Some(domain)));
        }
    }
    an_export_is_in_creation_order(records);
    let order = creation(records);
    lemma_lasting_at(records, order, now);
    let kept = lasting_at(records, order, now);
    let list = imports(entries, limits);
    let added = Seq::new(
        entries.len(),
        |k: int|
            AddedView { found: list[k].found, expires: imported_expiry(list[k].expires_at, meanwhile)->0 },
    );
    assert forall|k: int| 0 <= k < entries.len() implies restores(
        records[kept[k]],
        entries[k],
        #[trigger] list[k],
        added[k],
        k as u64,
        meanwhile,
        later,
    ) by {
        let record = records[kept[k]];
        assert(jar.records.contains(record));
        let p = choose|p: int| 0 <= p < jar.records.len() && jar.records[p] == record;
        assert(jar.records[p].key.partitioned == jar.records[p].partition_site is Some);
        assert(entries[k] == exported_entry(record, exported_expiry(record.expires, now)->0));
        assert(checked(entries[k], limits) is Ok);
        assert(entries[k].expires_at matches Some(at) ==> at.nanos > later.nanos);
        lemma_restores(record, limits, now, meanwhile, later, k as u64);
    }
    assert forall|k: int, j: int| 0 <= k < j < list.len() implies (
    #[trigger] list[k]).found.key != (#[trigger] list[j]).found.key by {
        let (a, b) = (kept[k], kept[j]);
        assert(restores(records[a], entries[k], list[k], added[k], k as u64, meanwhile, later));
        assert(restores(records[b], entries[j], list[j], added[j], j as u64, meanwhile, later));
        assert(a != b);
        if a < b {
            assert(records[a].key != records[b].key);
        } else {
            assert(records[b].key != records[a].key);
        }
    }
    assert forall|domain: Seq<char>| #[trigger] added_to(added, domain)
        <= limits.max_cookies_per_domain by {
        let shown = at_positions(records, kept);
        assert forall|k: int| 0 <= k < added.len() implies quota_domain(
            (#[trigger] added[k]).found.key.domain,
        ) == shown[k].quota_domain by {
            assert(restores(records[kept[k]], entries[k], list[k], added[k], k as u64, meanwhile, later));
        }
        lemma_count_as_added(shown, added, domain);
        lemma_count_positions(records, kept, Some(domain));
        assert(count(records, Some(domain)) <= limits.max_cookies_per_domain);
    }
    assert forall|k: int| 0 <= k < list.len() implies (#[trigger] list[k]).found == added[k].found
        && imported_expiry(list[k].expires_at, meanwhile) == Some(added[k].expires) by {
        assert(restores(records[kept[k]], entries[k], list[k], added[k], k as u64, meanwhile, later));
    }
    lemma_all_admitted(list, added, limits, meanwhile, 0);
    assert(list.skip(0) =~= list);
    assert(added.skip(0) =~= added);
    assert(empty.purged(meanwhile).records =~= Seq::empty());
    lemma_imported(empty, entries, limits, meanwhile);
    let restored = empty.imported(entries, limits, meanwhile);
    assert(restored.records =~= added_records(added));
    assert forall|k: int| 0 <= k < restored.records.len() implies !expired(
        #[trigger] restored.records[k],
        later,
    ) by {
        assert(restores(records[kept[k]], entries[k], list[k], added[k], k as u64, meanwhile, later));
    }
    lemma_all_live(restored.records, later);
    lemma_created_in_place(restored.records, restored.records.len());
    assert forall|k: int| 0 <= k < restored.records.len() implies exported_expiry(
        (#[trigger] restored.records[k]).expires,
        later,
    ) is Some && exported_entry(
        restored.records[k],
        exported_expiry(restored.records[k].expires, later)->0,
    ) == entries[k] by {
        assert(restores(records[kept[k]], entries[k], list[k], added[k], k as u64, meanwhile, later));
    }
    lemma_reexported(restored.records, entries, later, entries.len());
    assert(entries.take(entries.len() as int) =~= entries);
}

/// What a jar exports is what a jar without cookies, whose limits are no
/// lower, exports once it has imported it: every attribute and the order
/// survive. The import has to accept the entries, and nothing expires
/// meanwhile.
pub proof fn export_then_import_restores_the_cookies(
    jar: CookieJar,
    other: CookieJar,
    now: SystemTime,
    meanwhile: SystemTime,
    later: SystemTime,
)
    requires
        jar.wf(),
        other.wf(),
        other@.records.len() == 0,
        other.limits.max_cookies >= jar.limits.max_cookies,
        other.limits.max_cookies_per_domain >= jar.limits.max_cookies_per_domain,
        all_accepted(jar@.exported(now), other.limits),
        meanwhile.nanos <= later.nanos,
        unexpired(jar@.exported(now), later),
    ensures
        other@.imported(jar@.exported(now), other.limits, meanwhile).exported(later) == jar@.exported(
            now,
        ),
{
    jar.state.lemma_wf();
    assert(within(jar@.records, other.limits)) by {
        assert forall|domain: Seq<char>| #[trigger] count(jar@.records, Some(domain))
            <= other.limits.max_cookies_per_domain by {
            assert(count(jar@.records, Some(domain)) <= jar.limits.max_cookies_per_domain);
        }
    }
    lemma_restored(jar@, other@, other.limits, now, meanwhile, later);
}

proof fn lemma_placed_same(
    one: Seq<RecordView>,
    other: Seq<RecordView>,
    order: Seq<int>,
    i: int,
    first: spec_fn(RecordView, RecordView) -> bool,
)
    requires
        forall|k: int|
            0 <= k < order.len() ==> first(one[i], one[#[trigger] order[k]]) == first(
                other[i],
                other[order[k]],
            ),
    ensures
        placed(one, order, i, first) == placed(other, order, i, first),
    decreases order.len(),
{
    if order.len() > 0 {
        let last = order[order.len() - 1];
        assert(first(one[i], one[last]) == first(other[i], other[last]));
        let front = order.drop_last();
        assert forall|k: int| 0 <= k < front.len() implies first(
            one[i],
            one[#[trigger] front[k]],
        ) == first(other[i], other[front[k]]) by {
            assert(front[k] == order[k]);
        }
        lemma_placed_same(one, other, front, i, first);
    }
}

/// The creation order depends on how the creation positions compare.
proof fn lemma_created_same(one: Seq<RecordView>, other: Seq<RecordView>, n: nat)
    requires
        n <= one.len(),
        n <= other.len(),
        forall|a: int, b: int|
            0 <= a < n && 0 <= b < n ==> created_before(#[trigger] one[a], #[trigger] one[b])
                == created_before(other[a], other[b]),
    ensures
        first_created(one, n) == first_created(other, n),
    decreases n,
{
    if n > 0 {
        lemma_created_same(one, other, (n - 1) as nat);
        lemma_first_created(one, (n - 1) as nat);
        let before = first_created(one, (n - 1) as nat);
        assert forall|k: int| 0 <= k < before.len() implies created_before(
            one[n - 1],
            one[#[trigger] before[k]],
        ) == created_before(other[n - 1], other[before[k]]) by {
            let (a, b) = (one[n - 1], one[before[k]]);
        }
        lemma_placed_same(
            one,
            other,
            before,
            n - 1,
            |a: RecordView, b: RecordView| created_before(a, b),
        );
    }
}

/// Positions from `from` on, in order.
spec fn run(from: int, n: nat) -> Seq<int> {
    Seq::new(n, |k: int| from + k)
}

/// Cookies that stand behind others, created in order before all of them,
/// come first in creation order.
proof fn lemma_created_first(held: Seq<RecordView>, all: Seq<RecordView>, n: nat, k: nat)
    requires
        k <= n,
        all.len() == held.len() + n,
        forall|i: int, j: int|
            0 <= i < held.len() && 0 <= j < held.len() ==> created_before(
                #[trigger] held[i],
                #[trigger] held[j],
            ) == created_before(all[i], all[j]),
        forall|i: int| 0 <= i < held.len() ==> (#[trigger] all[i]).sequence >= n,
        forall|j: int|
            0 <= j < n ==> (#[trigger] all[held.len() + j]).sequence == j,
    ensures
        first_created(all, held.len() + k) == run(held.len() as int, k) + creation(held),
    decreases k,
{
    let h = held.len() as int;
    if k == 0 {
        lemma_created_same(held, all, held.len());
        assert(run(h, 0) + creation(held) =~= creation(held));
    } else {
        let m = (k - 1) as nat;
        lemma_created_first(held, all, n, m);
        lemma_first_created(held, held.len());
        let order = first_created(all, held.len() + m);
        assert(order == run(h, m) + creation(held));
        let first = |a: RecordView, b: RecordView| created_before(a, b);
        assert(all[h + m].sequence == m);
        assert forall|i: int| m <= i < order.len() implies first(
            all[h + m],
            all[#[trigger] order[i]],
        ) by {
            assert(order[i] == creation(held)[i - m]);
            assert(0 <= creation(held)[i - m] < h);
            assert(all[creation(held)[i - m]].sequence >= n);
        }
        if m > 0 {
            assert(order[m - 1] == h + (m - 1));
            assert(all[h + (m - 1)].sequence == m - 1);
        }
        lemma_placed(all, order, h + m, first, m as int);
        assert(order.insert(m as int, h + m) =~= run(h, k) + creation(held));
        assert(first_created(all, held.len() + k) == placed(all, order, h + m, first));
    }
}

proof fn lemma_exported_both(
    records: Seq<RecordView>,
    first: Seq<int>,
    second: Seq<int>,
    now: SystemTime,
)
    ensures
        exported_at(records, first + second, now) == exported_at(records, first, now)
            + exported_at(records, second, now),
    decreases second.len(),
{
    if second.len() == 0 {
        assert(first + second =~= first);
        assert(exported_at(records, first, now) + exported_at(records, second, now)
            =~= exported_at(records, first, now));
    } else {
        let all = first + second;
        assert(all.drop_last() =~= first + second.drop_last());
        assert(all.last() == second.last());
        lemma_exported_both(records, first, second.drop_last(), now);
        assert(exported_at(records, all, now) =~= exported_at(records, first, now) + exported_at(
            records,
            second,
            now,
        ));
    }
}

/// An export shows neither when cookies were created nor when they were used.
proof fn lemma_exported_same(
    held: Seq<RecordView>,
    all: Seq<RecordView>,
    order: Seq<int>,
    n: u64,
    now: SystemTime,
)
    requires
        forall|k: int| 0 <= k < order.len() ==> 0 <= #[trigger] order[k] < held.len(),
        held.len() <= all.len(),
        forall|i: int| 0 <= i < held.len() ==> #[trigger] all[i] == shifted_record(held[i], n),
    ensures
        exported_at(all, order, now) == exported_at(held, order, now),
    decreases order.len(),
{
    if order.len() > 0 {
        let front = order.drop_last();
        assert forall|k: int| 0 <= k < front.len() implies 0 <= #[trigger] front[k]
            < held.len() by {
            assert(front[k] == order[k]);
        }
        lemma_exported_same(held, all, front, n, now);
        let i = order[order.len() - 1];
        assert(all[i] == shifted_record(held[i], n));
    }
}

proof fn lemma_exported_run(
    records: Seq<RecordView>,
    from: int,
    entries: Seq<EntryView>,
    now: SystemTime,
    n: nat,
)
    requires
        n <= entries.len(),
        forall|k: int|
            0 <= k < entries.len() ==> exported_expiry(
                (#[trigger] records[from + k]).expires,
                now,
            ) is Some && exported_entry(
                records[from + k],
                exported_expiry(records[from + k].expires, now)->0,
            ) == entries[k],
    ensures
        exported_at(records, run(from, n), now) == entries.take(n as int),
    decreases n,
{
    if n > 0 {
        assert(run(from, n).drop_last() =~= run(from, (n - 1) as nat));
        lemma_exported_run(records, from, entries, now, (n - 1) as nat);
        assert(run(from, n).last() == from + (n - 1));
        assert(exported_expiry(records[from + (n - 1)].expires, now) is Some);
        assert(entries.take(n as int) =~= entries.take(n - 1).push(entries[n - 1]));
    } else {
        assert(entries.take(0) =~= Seq::empty());
    }
}

/// Which entries an import adds, in the snapshot's order.
pub open spec fn admitted_at(
    held: Seq<RecordView>,
    entries: Seq<ImportView>,
    limits: CookieLimits,
    now: SystemTime,
) -> Seq<int>
    decreases entries.len(),
{
    if entries.len() == 0 {
        Seq::empty()
    } else {
        let later = entries.skip(1);
        let rest = admitted_at(held, later, limits, now).map_values(|p: int| p + 1);
        if admissible(held, entries[0], later, admitted(held, later, limits, now), limits, now) {
            seq![0int] + rest
        } else {
            rest
        }
    }
}

/// What an import adds is the entries at these places, each once, for which
/// no later entry has the same key.
proof fn lemma_admitted_at(
    held: Seq<RecordView>,
    entries: Seq<ImportView>,
    limits: CookieLimits,
    now: SystemTime,
)
    ensures
        ({
            let at = admitted_at(held, entries, limits, now);
            let added = admitted(held, entries, limits, now);
            &&& at.len() == added.len()
            &&& forall|k: int|
                0 <= k < at.len() ==> 0 <= #[trigger] at[k] < entries.len() && added[k].found
                    == entries[at[k]].found && imported_expiry(entries[at[k]].expires_at, now)
                    == Some(added[k].expires)
            &&& forall|k: int, j: int|
                0 <= k < at.len() && at[k] < j < entries.len() ==> (
                #[trigger] entries[j]).found.key != entries[#[trigger] at[k]].found.key
            &&& forall|k: int, j: int|
                0 <= k < j < at.len() ==> #[trigger] at[k] < #[trigger] at[j]
        }),
    decreases entries.len(),
{
    if entries.len() > 0 {
        let later = entries.skip(1);
        lemma_admitted_at(held, later, limits, now);
        let before = admitted_at(held, later, limits, now);
        let rest = before.map_values(|p: int| p + 1);
        let added = admitted(held, later, limits, now);
        let at = admitted_at(held, entries, limits, now);
        let all = admitted(held, entries, limits, now);
        let taken = admissible(held, entries[0], later, added, limits, now);
        let shift = if taken {
            1int
        } else {
            0
        };
        assert forall|k: int| 0 <= k < rest.len() implies #[trigger] rest[k] == before[k] + 1 by {}
        assert forall|k: int| shift <= k < at.len() implies #[trigger] at[k] == before[k - shift]
            + 1 && all[k] == added[k - shift] by {
            assert(at[k] == rest[k - shift]);
        }
        assert forall|j: int| 0 <= j < later.len() implies #[trigger] later[j] == entries[j + 1] by {}
        assert forall|k: int| 0 <= k < at.len() implies 0 <= #[trigger] at[k] < entries.len()
            && all[k].found == entries[at[k]].found && imported_expiry(
            entries[at[k]].expires_at,
            now,
        ) == Some(all[k].expires) by {
            if k >= shift {
                assert(0 <= before[k - shift] < later.len());
                assert(later[before[k - shift]] == entries[at[k]]);
            }
        }
        assert forall|k: int, j: int| 0 <= k < at.len() && at[k] < j < entries.len() implies (
        #[trigger] entries[j]).found.key != entries[#[trigger] at[k]].found.key by {
            if k >= shift {
                assert(0 <= before[k - shift] < later.len());
                assert(later[before[k - shift]] == entries[at[k]]);
                assert(later[j - 1] == entries[j]);
            } else {
                assert(later[j - 1] == entries[j]);
            }
        }
        assert forall|k: int, j: int| 0 <= k < j < at.len() implies #[trigger] at[k]
            < #[trigger] at[j] by {
            if k >= shift {
                assert(before[k - shift] < before[j - shift]);
            } else {
                assert(0 <= before[j - shift] < later.len());
            }
        }
    }
}

/// What the cookie of an entry is found by.
pub open spec fn entry_key(entry: EntryView) -> CookieKeyView {
    CookieKeyView {
        domain: entry.domain,
        path: entry.path,
        name: entry.name,
        host_only: entry.host_only,
        partitioned: entry.partition_key is Some,
    }
}

/// Whether an entry is another one but for an expiry that is rounded down to
/// a second or earlier.
pub open spec fn imported_as(shown: EntryView, entry: EntryView) -> bool {
    &&& shown == (EntryView { expires_at: shown.expires_at, ..entry })
    &&& match (shown.expires_at, entry.expires_at) {
        (Some(kept), Some(at)) => kept.nanos <= at.floored().nanos,
        (None, None) => true,
        _ => false,
    }
}

proof fn lemma_shown(entry: EntryView, limits: CookieLimits, now: SystemTime, position: u64)
    requires
        checked(entry, limits) is Ok,
        imported_expiry(entry.expires_at, now) is Some,
    ensures
        ({
            let found = checked(entry, limits)->Ok_0;
            let expires = imported_expiry(entry.expires_at, now)->0;
            let record = record_of(found, expires, position, position);
            &&& record.key == entry_key(entry)
            &&& !expired(record, now)
            &&& exported_expiry(expires, now) is Some
            &&& imported_as(exported_entry(record, exported_expiry(expires, now)->0), entry)
        }),
{
    let found = checked(entry, limits)->Ok_0;
    reveal_strlit("http");
    reveal_strlit("https");
    assert("http"@.len() != "https"@.len());
    assert(found.source_scheme == entry.source_scheme);
    assert(MAX_EXPIRY_NANOS as int % (NANOS_PER_SEC as int) == 0);
}

proof fn lemma_exported_keys(records: Seq<RecordView>, order: Seq<int>, now: SystemTime)
    requires
        forall|k: int| 0 <= k < order.len() ==> 0 <= #[trigger] order[k] < records.len(),
        forall|i: int|
            0 <= i < records.len() ==> (#[trigger] records[i]).key.partitioned
                == records[i].partition_site is Some,
    ensures
        forall|j: int|
            0 <= j < exported_at(records, order, now).len() ==> exists|i: int|
                0 <= i < records.len() && (#[trigger] records[i]).key == entry_key(
                    #[trigger] exported_at(records, order, now)[j],
                ),
    decreases order.len(),
{
    if order.len() > 0 {
        let front = order.drop_last();
        assert forall|k: int| 0 <= k < front.len() implies 0 <= #[trigger] front[k]
            < records.len() by {
            assert(front[k] == order[k]);
        }
        lemma_exported_keys(records, front, now);
        let before = exported_at(records, front, now);
        let all = exported_at(records, order, now);
        let last = order[order.len() - 1];
        assert forall|j: int| 0 <= j < all.len() implies exists|i: int|
            0 <= i < records.len() && (#[trigger] records[i]).key == entry_key(
                #[trigger] all[j],
            ) by {
            if j < before.len() {
                assert(all[j] == before[j]);
            } else {
                assert(records[last].key == entry_key(all[j]));
            }
        }
    }
}

/// Whether the cookie at `i` is what an import made of an entry.
spec fn made_of(
    records: Seq<RecordView>,
    i: int,
    position: int,
    entry: EntryView,
    now: SystemTime,
) -> bool {
    &&& records[i].sequence == position
    &&& records[i].key == entry_key(entry)
    &&& !expired(records[i], now)
    &&& exported_expiry(records[i].expires, now) is Some
    &&& imported_as(
        exported_entry(records[i], exported_expiry(records[i].expires, now)->0),
        entry,
    )
}

/// What an import adds stands behind the held cookies.
proof fn lemma_added_behind(
    jar: JarView,
    entries: Seq<EntryView>,
    limits: CookieLimits,
    now: SystemTime,
)
    requires
        all_accepted(entries, limits),
    ensures
        ({
            let held = jar.purged(now).records;
            let all = jar.imported(entries, limits, now).records;
            let at = admitted_at(held, imports(entries, limits), limits, now);
            &&& all.len() == held.len() + at.len()
            &&& at.len() <= entries.len()
            &&& at.len() <= limits.max_cookies
            &&& forall|k: int|
                0 <= k < at.len() ==> 0 <= #[trigger] at[k] < entries.len() && made_of(
                    all,
                    held.len() + k,
                    k,
                    entries[at[k]],
                    now,
                )
            &&& forall|i: int|
                0 <= i < held.len() ==> #[trigger] all[i] == shifted_record(
                    held[i],
                    at.len() as u64,
                )
        }),
{
    let held = jar.purged(now).records;
    let list = imports(entries, limits);
    let at = admitted_at(held, list, limits, now);
    let added = admitted(held, list, limits, now);
    lemma_admitted(held, list, limits, now);
    lemma_admitted_at(held, list, limits, now);
    lemma_imported(jar, entries, limits, now);
    let all = jar.imported(entries, limits, now).records;
    assert forall|k: int| 0 <= k < at.len() implies 0 <= #[trigger] at[k] < entries.len()
        && made_of(all, held.len() + k, k, entries[at[k]], now) by {
        let entry = entries[at[k]];
        assert(checked(entry, limits) is Ok);
        assert(list[at[k]].found == checked(entry, limits)->Ok_0);
        assert(all[held.len() + k] == added_records(added)[k]);
        lemma_shown(entry, limits, now, k as u64);
    }
}

/// No entry that an import adds has the key of a later entry or of a held
/// cookie.
proof fn lemma_added_keys(
    held: Seq<RecordView>,
    entries: Seq<EntryView>,
    limits: CookieLimits,
    now: SystemTime,
)
    requires
        all_accepted(entries, limits),
    ensures
        ({
            let at = admitted_at(held, imports(entries, limits), limits, now);
            &&& forall|k: int, j: int|
                0 <= k < j < at.len() ==> #[trigger] at[k] < #[trigger] at[j]
            &&& forall|k: int, j: int|
                0 <= k < at.len() && at[k] < j < entries.len() ==> entry_key(
                    #[trigger] entries[j],
                ) != entry_key(entries[#[trigger] at[k]])
            &&& forall|k: int, i: int|
                0 <= k < at.len() && 0 <= i < held.len() ==> entry_key(
                    entries[#[trigger] at[k]],
                ) != (#[trigger] held[i]).key
        }),
{
    let list = imports(entries, limits);
    let at = admitted_at(held, list, limits, now);
    let added = admitted(held, list, limits, now);
    lemma_admitted(held, list, limits, now);
    lemma_admitted_at(held, list, limits, now);
    assert forall|j: int| 0 <= j < entries.len() implies list[j].found.key == entry_key(
        #[trigger] entries[j],
    ) by {
        assert(checked(entries[j], limits) is Ok);
        assert(list[j].found == checked(entries[j], limits)->Ok_0);
    }
    assert forall|k: int, j: int| 0 <= k < at.len() && at[k] < j < entries.len() implies entry_key(
        #[trigger] entries[j],
    ) != entry_key(entries[#[trigger] at[k]]) by {
        assert(list[j].found.key != list[at[k]].found.key);
    }
    assert forall|k: int, i: int| 0 <= k < at.len() && 0 <= i < held.len() implies entry_key(
        entries[#[trigger] at[k]],
    ) != (#[trigger] held[i]).key by {
        assert(added[k].found.key != held[i].key);
        assert(list[at[k]].found.key == entry_key(entries[at[k]]));
    }
}

/// An export shows cookies that stand behind others and were created before
/// them first.
proof fn lemma_listed_first(
    held: Seq<RecordView>,
    all: Seq<RecordView>,
    shown: Seq<EntryView>,
    now: SystemTime,
)
    requires
        all.len() == held.len() + shown.len(),
        shown.len() <= u64::MAX,
        forall|i: int|
            0 <= i < held.len() ==> #[trigger] all[i] == shifted_record(
                held[i],
                shown.len() as u64,
            ) && held[i].sequence + shown.len() <= u64::MAX,
        forall|k: int|
            0 <= k < shown.len() ==> (#[trigger] all[held.len() + k]).sequence == k
                && exported_expiry(all[held.len() + k].expires, now) is Some && exported_entry(
                all[held.len() + k],
                exported_expiry(all[held.len() + k].expires, now)->0,
            ) == shown[k],
    ensures
        exported_at(all, creation(all), now) == shown + exported_at(held, creation(held), now),
{
    let (h, n) = (held.len() as int, shown.len());
    assert forall|i: int, j: int| 0 <= i < h && 0 <= j < h implies created_before(
        #[trigger] held[i],
        #[trigger] held[j],
    ) == created_before(all[i], all[j]) by {
        assert(all[i] == shifted_record(held[i], n as u64));
        assert(all[j] == shifted_record(held[j], n as u64));
    }
    lemma_created_first(held, all, n, n);
    lemma_first_created(held, held.len());
    lemma_exported_run(all, h, shown, now, n);
    lemma_exported_same(held, all, creation(held), n as u64, now);
    lemma_exported_both(all, run(h, n), creation(held), now);
    assert(shown.take(n as int) =~= shown);
}

proof fn lemma_import_listed(
    jar: CookieJar,
    entries: Seq<EntryView>,
    now: SystemTime,
)
    requires
        jar.wf(),
        all_accepted(entries, jar.limits),
        forall|i: int|
            0 <= i < jar@.records.len() ==> (#[trigger] jar@.records[i]).sequence + entries.len()
                <= u64::MAX,
    ensures
        ({
            let before = jar@.exported(now);
            let after = jar@.imported(entries, jar.limits, now);
            let shown = after.exported(now);
            let at = admitted_at(
                jar@.purged(now).records,
                imports(entries, jar.limits),
                jar.limits,
                now,
            );
            &&& within(after.records, jar.limits)
            &&& shown.len() == at.len() + before.len()
            &&& shown.skip(at.len() as int) == before
            &&& forall|k: int, j: int|
                0 <= k < j < at.len() ==> #[trigger] at[k] < #[trigger] at[j]
            &&& forall|k: int|
                0 <= k < at.len() ==> 0 <= #[trigger] at[k] < entries.len() && imported_as(
                    shown[k],
                    entries[at[k]],
                )
            &&& forall|k: int, j: int|
                0 <= k < at.len() && at[k] < j < entries.len() ==> entry_key(
                    #[trigger] entries[j],
                ) != entry_key(entries[#[trigger] at[k]])
            &&& forall|k: int, j: int|
                0 <= k < at.len() && 0 <= j < before.len() ==> entry_key(
                    entries[#[trigger] at[k]],
                ) != entry_key(#[trigger] before[j])
        }),
{
    let limits = jar.limits;
    jar.state.lemma_wf();
    importing_keeps_within_the_limits(jar@, entries, limits, now);
    lemma_live(jar@.records, now);
    let held = jar@.purged(now).records;
    let at = admitted_at(held, imports(entries, limits), limits, now);
    lemma_added_behind(jar@, entries, limits, now);
    lemma_added_keys(held, entries, limits, now);
    let after = jar@.imported(entries, limits, now);
    let all = after.records;
    let h = held.len() as int;
    assert forall|i: int| 0 <= i < h implies #[trigger] all[i] == shifted_record(
        held[i],
        at.len() as u64,
    ) && held[i].sequence + at.len() <= u64::MAX && held[i].key.partitioned
        == held[i].partition_site is Some && !expired(held[i], now) by {
        assert(jar@.records.contains(held[i]));
        let p = choose|p: int| 0 <= p < jar@.records.len() && jar@.records[p] == held[i];
        assert(jar@.records[p].sequence + entries.len() <= u64::MAX);
    }
    assert forall|i: int| 0 <= i < all.len() implies !expired(#[trigger] all[i], now) by {
        if i >= h {
            assert(0 <= at[i - h] < entries.len());
            assert(made_of(all, h + (i - h), i - h, entries[at[i - h]], now));
        }
    }
    lemma_all_live(all, now);
    let shown = Seq::new(
        at.len(),
        |k: int| exported_entry(all[h + k], exported_expiry(all[h + k].expires, now)->0),
    );
    assert forall|k: int| 0 <= k < shown.len() implies (#[trigger] all[held.len() + k]).sequence
        == k && exported_expiry(all[held.len() + k].expires, now) is Some && exported_entry(
        all[held.len() + k],
        exported_expiry(all[held.len() + k].expires, now)->0,
    ) == shown[k] by {
        assert(0 <= at[k] < entries.len());
        assert(made_of(all, h + k, k, entries[at[k]], now));
    }
    lemma_listed_first(held, all, shown, now);
    let before = jar@.exported(now);
    assert(after.exported(now) == shown + before);
    assert((shown + before).skip(at.len() as int) =~= before);
    assert forall|k: int| 0 <= k < at.len() implies 0 <= #[trigger] at[k] < entries.len()
        && imported_as((shown + before)[k], entries[at[k]]) by {
        assert(made_of(all, h + k, k, entries[at[k]], now));
    }
    assert forall|i: int| 0 <= i < held.len() implies (#[trigger] held[i]).key.partitioned
        == held[i].partition_site is Some by {
        assert(all[i] == shifted_record(held[i], at.len() as u64));
    }
    lemma_first_created(held, held.len());
    lemma_exported_keys(held, creation(held), now);
    assert forall|k: int, j: int| 0 <= k < at.len() && 0 <= j < before.len() implies entry_key(
        entries[#[trigger] at[k]],
    ) != entry_key(#[trigger] before[j]) by {
        let i = choose|i: int|
            0 <= i < held.len() && (#[trigger] held[i]).key == entry_key(before[j]);
        assert(entry_key(entries[at[k]]) != held[i].key);
    }
}

/// Whether no cookie of a jar, and no entry that could be imported, expires
/// between two times.
pub open spec fn steady(
    records: Seq<RecordView>,
    entries: Seq<EntryView>,
    now: SystemTime,
    later: SystemTime,
) -> bool {
    &&& forall|i: int|
        0 <= i < records.len() ==> expired(#[trigger] records[i], now) == expired(
            records[i],
            later,
        ) && exported_expiry(records[i].expires, now) == exported_expiry(records[i].expires, later)
    &&& forall|k: int|
        0 <= k < entries.len() ==> imported_expiry((#[trigger] entries[k]).expires_at, now)
            == imported_expiry(entries[k].expires_at, later)
}

proof fn lemma_live_same(records: Seq<RecordView>, now: SystemTime, later: SystemTime)
    requires
        forall|i: int|
            0 <= i < records.len() ==> expired(#[trigger] records[i], now) == expired(
                records[i],
                later,
            ),
    ensures
        live(records, now) == live(records, later),
    decreases records.len(),
{
    if records.len() > 0 {
        let front = records.drop_last();
        assert forall|i: int| 0 <= i < front.len() implies expired(#[trigger] front[i], now)
            == expired(front[i], later) by {
            assert(front[i] == records[i]);
        }
        lemma_live_same(front, now, later);
        assert(expired(records[records.len() - 1], now) == expired(
            records[records.len() - 1],
            later,
        ));
    }
}

proof fn lemma_exported_then(
    records: Seq<RecordView>,
    order: Seq<int>,
    now: SystemTime,
    later: SystemTime,
)
    requires
        forall|k: int| 0 <= k < order.len() ==> 0 <= #[trigger] order[k] < records.len(),
        forall|i: int|
            0 <= i < records.len() ==> exported_expiry((#[trigger] records[i]).expires, now)
                == exported_expiry(records[i].expires, later),
    ensures
        exported_at(records, order, now) == exported_at(records, order, later),
    decreases order.len(),
{
    if order.len() > 0 {
        let front = order.drop_last();
        assert forall|k: int| 0 <= k < front.len() implies 0 <= #[trigger] front[k]
            < records.len() by {
            assert(front[k] == order[k]);
        }
        lemma_exported_then(records, front, now, later);
        let last = order[order.len() - 1];
        assert(exported_expiry(records[last].expires, now) == exported_expiry(
            records[last].expires,
            later,
        ));
    }
}

proof fn lemma_admitted_then(
    held: Seq<RecordView>,
    entries: Seq<ImportView>,
    limits: CookieLimits,
    now: SystemTime,
    later: SystemTime,
)
    requires
        forall|i: int|
            0 <= i < held.len() ==> expired(#[trigger] held[i], now) == expired(held[i], later),
        forall|k: int|
            0 <= k < entries.len() ==> imported_expiry((#[trigger] entries[k]).expires_at, now)
                == imported_expiry(entries[k].expires_at, later),
    ensures
        admitted(held, entries, limits, now) == admitted(held, entries, limits, later),
        admitted_at(held, entries, limits, now) == admitted_at(held, entries, limits, later),
    decreases entries.len(),
{
    if entries.len() > 0 {
        let rest = entries.skip(1);
        assert forall|k: int| 0 <= k < rest.len() implies imported_expiry(
            (#[trigger] rest[k]).expires_at,
            now,
        ) == imported_expiry(rest[k].expires_at, later) by {
            assert(rest[k] == entries[k + 1]);
        }
        lemma_admitted_then(held, rest, limits, now, later);
        let key = entries[0].found.key;
        assert(hides_secure(held, key, now) == hides_secure(held, key, later)) by {
            if hides_secure(held, key, now) {
                let i = choose|i: int|
                    0 <= i < held.len() && !(#[trigger] held[i]).key.partitioned && !expired(
                        held[i],
                        now,
                    ) && overlays(key, held[i].key, held[i].secure);
                assert(!expired(held[i], later));
            }
            if hides_secure(held, key, later) {
                let i = choose|i: int|
                    0 <= i < held.len() && !(#[trigger] held[i]).key.partitioned && !expired(
                        held[i],
                        later,
                    ) && overlays(key, held[i].key, held[i].secure);
                assert(!expired(held[i], now));
            }
        }
        assert(imported_expiry(entries[0].expires_at, now) == imported_expiry(
            entries[0].expires_at,
            later,
        ));
    }
}

/// While nothing expires, neither an export nor an import depends on the
/// time.
proof fn lemma_steady(
    jar: JarView,
    entries: Seq<EntryView>,
    limits: CookieLimits,
    now: SystemTime,
    later: SystemTime,
)
    requires
        steady(jar.records, entries, now, later),
    ensures
        jar.purged(now) == jar.purged(later),
        jar.exported(now) == jar.exported(later),
        jar.imported(entries, limits, now) == jar.imported(entries, limits, later),
        admitted_at(jar.purged(now).records, imports(entries, limits), limits, now) == admitted_at(
            jar.purged(later).records,
            imports(entries, limits),
            limits,
            later,
        ),
{
    lemma_live_same(jar.records, now, later);
    lemma_live(jar.records, now);
    let held = jar.purged(now).records;
    assert forall|i: int| 0 <= i < held.len() implies exported_expiry(
        (#[trigger] held[i]).expires,
        now,
    ) == exported_expiry(held[i].expires, later) && expired(held[i], now) == expired(
        held[i],
        later,
    ) by {
        assert(jar.records.contains(held[i]));
        let p = choose|p: int| 0 <= p < jar.records.len() && jar.records[p] == held[i];
        assert(expired(jar.records[p], now) == expired(jar.records[p], later));
    }
    lemma_first_created(held, held.len());
    lemma_exported_then(held, creation(held), now, later);
    let list = imports(entries, limits);
    assert forall|k: int| 0 <= k < list.len() implies imported_expiry(
        (#[trigger] list[k]).expires_at,
        now,
    ) == imported_expiry(list[k].expires_at, later) by {
        assert(list[k].expires_at == entries[k].expires_at);
    }
    lemma_admitted_then(held, list, limits, now, later);
}

/// After an import a jar lists first what was added, in the snapshot's order,
/// then exactly what it listed before. No added cookie has the key of one
/// that was listed before or of a later entry, each is its entry but for an
/// expiry that is rounded down to a second or earlier, and the limits are
/// kept. Nothing expires meanwhile, and the creation positions must not run
/// out.
pub proof fn an_import_is_listed_before_the_held_cookies(
    jar: CookieJar,
    entries: Seq<EntryView>,
    now: SystemTime,
    meanwhile: SystemTime,
    later: SystemTime,
)
    requires
        jar.wf(),
        all_accepted(entries, jar.limits),
        forall|i: int|
            0 <= i < jar@.records.len() ==> (#[trigger] jar@.records[i]).sequence + entries.len()
                <= u64::MAX,
        steady(jar@.records, entries, now, later),
        steady(jar@.records, entries, meanwhile, later),
    ensures
        ({
            let before = jar@.exported(now);
            let after = jar@.imported(entries, jar.limits, meanwhile);
            let shown = after.exported(later);
            let at = admitted_at(
                jar@.purged(meanwhile).records,
                imports(entries, jar.limits),
                jar.limits,
                meanwhile,
            );
            &&& within(after.records, jar.limits)
            &&& shown.len() == at.len() + before.len()
            &&& shown.skip(at.len() as int) == before
            &&& forall|k: int, j: int|
                0 <= k < j < at.len() ==> #[trigger] at[k] < #[trigger] at[j]
            &&& forall|k: int|
                0 <= k < at.len() ==> 0 <= #[trigger] at[k] < entries.len() && imported_as(
                    shown[k],
                    entries[at[k]],
                )
            &&& forall|k: int, j: int|
                0 <= k < at.len() && at[k] < j < entries.len() ==> entry_key(
                    #[trigger] entries[j],
                ) != entry_key(entries[#[trigger] at[k]])
            &&& forall|k: int, j: int|
                0 <= k < at.len() && 0 <= j < before.len() ==> entry_key(
                    entries[#[trigger] at[k]],
                ) != entry_key(#[trigger] before[j])
        }),
{
    lemma_steady(jar@, entries, jar.limits, now, later);
    lemma_steady(jar@, entries, jar.limits, meanwhile, later);
    lemma_import_listed(jar, entries, later);
}

} // verus!
