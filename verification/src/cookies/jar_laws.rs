//! What a cookie jar does with the fields it is given and the requests it
//! serves.

use vstd::prelude::*;
use crate::cookies::laws::{
    an_expired_cookie_deletes, cookies_are_sent_once_and_in_order, lemma_collected_from,
    lemma_count_bound, lemma_evicted, lemma_live,
};
use crate::cookies::model::{
    collected, count, domain_excess, evicted, expired, held_at, live,
    record_of, sending, sent, total_excess, JarView, RecordView,
};
use crate::cookies::outside::raw_cookie;
use crate::cookies::rules::{candidate, expiry, quota_domain, CandidateView, CookieKeyView};
use crate::cookies::types::{same_site_named, CookieLimits};
use crate::endpoint::HeaderView;
use crate::host::UrlView;
use crate::text::visible;
use crate::time::SystemTime;

verus! {

/// Whether a jar holds a cookie.
pub open spec fn holds(jar: JarView, key: CookieKeyView) -> bool {
    exists|i: int| 0 <= i < jar.records.len() && (#[trigger] jar.records[i]).key == key
}

proof fn lemma_not_held(records: Seq<RecordView>, key: CookieKeyView)
    requires
        held_at(records, key) is None,
    ensures
        forall|i: int| 0 <= i < records.len() ==> (#[trigger] records[i]).key != key,
{
}

/// A field with an `Expires` that is not in the future, and no `Max-Age`,
/// deletes: once it was accepted, the jar holds no cookie under its key. So
/// does one with a `Max-Age` of zero.
pub proof fn a_field_that_has_expired_deletes(
    jar: JarView,
    field: Seq<char>,
    url: UrlView,
    limits: CookieLimits,
    now: SystemTime,
)
    requires
        jar.wf(),
        jar.field_refusal(field, url, limits, now) is None,
        raw_cookie(field) matches Some(raw) && (raw.max_age is None && (raw.expires matches Some(at)
            && at <= now.nanos) || raw.max_age == Some(0i64) && now.nanos >= 0),
    ensures
        candidate(field, url, limits) matches Ok(found) && !holds(
            jar.with_field(field, url, limits, now),
            found.key,
        ),
{
    let found = candidate(field, url, limits)->Ok_0;
    an_expired_cookie_deletes(jar, found, url, limits, now);
    lemma_not_held(jar.with_field(field, url, limits, now).records, found.key);
}

/// Whether a record is what a field says, set at `now`.
pub open spec fn as_set(record: RecordView, found: CandidateView, now: SystemTime) -> bool {
    &&& record.value == found.raw.value
    &&& record.secure == found.raw.secure
    &&& record.http_only == found.raw.http_only
    &&& record.same_site == same_site_named(found.raw.same_site)
    &&& record.partition_site == found.partition_site
    &&& record.source_scheme == found.source_scheme
    &&& match (found.raw.max_age, found.raw.expires) {
        (Some(seconds), _) => seconds != 0 ==> record.expires == Some(
            if now.nanos + seconds * 1_000_000_000 <= 253_402_300_799_000_000_000 {
                now.nanos + seconds * 1_000_000_000
            } else {
                253_402_300_799_000_000_000
            },
        ),
        (None, Some(at)) => record.expires == Some(at as int),
        (None, None) => record.expires is None,
    }
}

/// A field that has not expired is stored as it says: whatever the jar then
/// holds under its key has the field's value and attributes, and expires
/// after its `Max-Age` or else exactly at its `Expires`.
pub proof fn a_field_is_stored_as_it_says(
    jar: JarView,
    field: Seq<char>,
    url: UrlView,
    limits: CookieLimits,
    now: SystemTime,
    i: int,
)
    requires
        jar.wf(),
        jar.field_refusal(field, url, limits, now) is None,
        0 <= i < jar.with_field(field, url, limits, now).records.len(),
        candidate(field, url, limits) matches Ok(found) && jar.with_field(
            field,
            url,
            limits,
            now,
        ).records[i].key == found.key,
    ensures
        candidate(field, url, limits) matches Ok(found) && as_set(
            jar.with_field(field, url, limits, now).records[i],
            found,
            now,
        ),
{
    let found = candidate(field, url, limits)->Ok_0;
    let left = jar.with_field(field, url, limits, now);
    let expires = expiry(found.raw, now);
    if expires matches Some(at) && at <= now.nanos {
        an_expired_cookie_deletes(jar, found, url, limits, now);
        lemma_not_held(left.records, found.key);
    } else {
        let clean = jar.purged(now);
        lemma_live(jar.records, now);
        let stored = clean.kept(found, expires);
        lemma_collected_from(stored.records, quota_domain(found.key.domain), limits);
        let record = left.records[i];
        assert(stored.records.contains(record));
        let j = choose|j: int| 0 <= j < stored.records.len() && stored.records[j] == record;
        match held_at(clean.records, found.key) {
            Some(p) => {
                if j != p {
                    if j < p {
                        assert(clean.records[j].key != clean.records[p].key);
                    } else {
                        assert(clean.records[p].key != clean.records[j].key);
                    }
                }
            },
            None => {
                lemma_not_held(clean.records, found.key);
                if j < clean.records.len() {
                    assert(clean.records[j].key != found.key);
                }
            },
        }
        assert(record == record_of(found, expires, record.sequence, record.last_access));
    }
}

/// Whether a number of cookies is what a limit leaves of more: all of them up
/// to the limit, and above it the limit less one part in `parts`.
pub open spec fn left_under(before: nat, limit: usize, parts: int, left: nat) -> bool {
    &&& before <= limit ==> left == before
    &&& before > limit ==> left == limit - limit as int / parts
}

/// Storing past the limit of a domain leaves five sixths of it, and past the
/// limit of the jar ten elevenths of that; below a limit nothing leaves.
pub proof fn limits_leave_five_sixths_and_ten_elevenths(
    records: Seq<RecordView>,
    domain: Seq<char>,
    limits: CookieLimits,
)
    ensures
        ({
            let left = collected(records, domain, limits);
            let held = count(records, Some(domain));
            let first = records.len() - held + (if held <= limits.max_cookies_per_domain {
                held as int
            } else {
                limits.max_cookies_per_domain - limits.max_cookies_per_domain as int / 6
            });
            &&& left_under(first as nat, limits.max_cookies, 11, left.len())
            &&& first <= limits.max_cookies ==> left_under(
                held,
                limits.max_cookies_per_domain,
                6,
                count(left, Some(domain)),
            )
            &&& held <= limits.max_cookies_per_domain && records.len() <= limits.max_cookies
                ==> left == records
        }),
{
    let scope = Some(domain);
    lemma_count_bound(records, scope);
    let n = domain_excess(count(records, scope), limits.max_cookies_per_domain);
    lemma_evicted(records, scope, n);
    let first = evicted(records, scope, n);
    lemma_count_bound(first, None);
    let m = total_excess(first.len(), limits.max_cookies);
    lemma_evicted(first, None, m);
}

/// A request marks the cookies that it sends as used, and changes nothing
/// else of any cookie.
pub proof fn sending_marks_cookies_as_used(
    jar: JarView,
    url: UrlView,
    now: SystemTime,
    i: int,
)
    requires
        0 <= i < jar.purged(now).records.len(),
    ensures
        jar.sent_to(url, now).records.len() == jar.purged(now).records.len(),
        ({
            let before = jar.purged(now).records[i];
            let after = jar.sent_to(url, now).records[i];
            &&& after == (RecordView { last_access: after.last_access, ..before })
            &&& !sent(before, url) ==> after == before
            &&& sent(before, url) ==> after.last_access >= jar.next_access
        }),
        jar.sent_to(url, now).next_sequence == jar.next_sequence,
{
    let clean = jar.purged(now);
    cookies_are_sent_once_and_in_order(clean.records, url);
    let order = sending(clean.records, url);
    assert forall|k: int| 0 <= k < order.len() implies 0 <= #[trigger] order[k]
        < clean.records.len() by {
        assert(order.contains(order[k]));
    }
    lemma_used(clean, order, i);
    if sent(clean.records[i], url) {
        assert(order.contains(i));
    } else {
        assert(!order.contains(i));
    }
}

proof fn lemma_used(jar: JarView, order: Seq<int>, i: int)
    requires
        0 <= i < jar.records.len(),
        forall|k: int| 0 <= k < order.len() ==> 0 <= #[trigger] order[k] < jar.records.len(),
    ensures
        jar.used(order).records.len() == jar.records.len(),
        jar.used(order).records[i] == (RecordView {
            last_access: jar.used(order).records[i].last_access,
            ..jar.records[i]
        }),
        !order.contains(i) ==> jar.used(order).records[i] == jar.records[i],
        order.contains(i) ==> jar.used(order).records[i].last_access >= jar.next_access,
        jar.used(order).next_access >= jar.next_access,
        jar.used(order).next_sequence == jar.next_sequence,
    decreases order.len(),
{
    if order.len() > 0 {
        let front = order.drop_last();
        assert forall|k: int| 0 <= k < front.len() implies 0 <= #[trigger] front[k]
            < jar.records.len() by {
            assert(front[k] == order[k]);
        }
        lemma_used(jar, front, i);
        assert(0 <= order[order.len() - 1] < jar.records.len());
        if order.contains(i) && order.last() != i {
            let k = choose|k: int| 0 <= k < order.len() && order[k] == i;
            assert(front[k] == i);
        }
        if !order.contains(i) {
            assert(order[order.len() - 1] != i);
            assert(!front.contains(i)) by {
                if front.contains(i) {
                    let k = choose|k: int| 0 <= k < front.len() && front[k] == i;
                    assert(order[k] == i);
                }
            }
        }
    }
}

/// A jar that is looked at holds exactly the cookies whose time has not come:
/// one expires at its time, not after it, and one without a time never.
pub proof fn cookies_expire_at_their_time(jar: JarView, now: SystemTime, record: RecordView)
    ensures
        jar.purged(now).records.contains(record) == (jar.records.contains(record) && !(
        record.expires matches Some(at) && at <= now.nanos)),
        jar.purged(now).next_sequence == jar.next_sequence,
        jar.purged(now).next_access == jar.next_access,
{
    lemma_live(jar.records, now);
    let left = live(jar.records, now);
    if left.contains(record) {
        let i = choose|i: int| 0 <= i < left.len() && left[i] == record;
        assert(jar.records.contains(left[i]) && !expired(left[i], now));
    }
    if jar.records.contains(record) && !expired(record, now) {
        let i = choose|i: int| 0 <= i < jar.records.len() && jar.records[i] == record;
        assert(left.contains(jar.records[i]));
    }
}

/// A request without a cookie to send has no `Cookie` field, and one that has
/// some has the field.
pub proof fn a_request_has_a_field_exactly_for_its_cookies(jar: JarView, url: UrlView)
    ensures
        jar.field_value(url) is Some == (exists|i: int|
            0 <= i < jar.records.len() && sent(#[trigger] jar.records[i], url)),
{
    cookies_are_sent_once_and_in_order(jar.records, url);
    let order = sending(jar.records, url);
    if order.len() > 0 {
        assert(order.contains(order[0]));
        assert(sent(jar.records[order[0]], url));
    }
    if exists|i: int| 0 <= i < jar.records.len() && sent(#[trigger] jar.records[i], url) {
        let i = choose|i: int| 0 <= i < jar.records.len() && sent(#[trigger] jar.records[i], url);
        assert(order.contains(i));
    }
}

/// The fields of a response are applied in order, those that are named
/// `set-cookie` and are text; the others are passed over.
pub proof fn response_fields_are_applied_in_order(
    jar: JarView,
    headers: Seq<HeaderView>,
    header: HeaderView,
    url: UrlView,
    limits: CookieLimits,
    now: SystemTime,
)
    ensures
        ({
            let before = jar.with_headers(headers, url, limits, now);
            let after = jar.with_headers(headers.push(header), url, limits, now);
            match visible(header.value) {
                Some(field) => if header.name == "set-cookie"@ {
                    after == before.with_field(field, url, limits, now)
                } else {
                    after == before
                },
                None => after == before,
            }
        }),
        jar.with_headers(Seq::empty(), url, limits, now) == jar,
{
    assert(headers.push(header).drop_last() =~= headers);
}

/// A new cookie is created after every other and used last; a replaced one
/// keeps its creation and is used last. The counters move on with them.
pub proof fn creation_and_use_are_counted(
    jar: JarView,
    found: CandidateView,
    expires: Option<int>,
    i: int,
)
    requires
        jar.wf(),
        jar.next_sequence < u64::MAX,
        jar.next_access < u64::MAX,
        0 <= i < jar.kept(found, expires).records.len(),
    ensures
        ({
            let stored = jar.kept(found, expires);
            let record = stored.records[i];
            &&& stored.next_access == jar.next_access + 1
            &&& holds(jar, found.key) ==> stored.next_sequence == jar.next_sequence
                && stored.records.len() == jar.records.len()
            &&& !holds(jar, found.key) ==> stored.next_sequence == jar.next_sequence + 1
                && stored.records.len() == jar.records.len() + 1
            &&& record.key == found.key ==> record.last_access == jar.next_access
                && record.quota_domain == quota_domain(found.key.domain)
            &&& record.key == found.key && !holds(jar, found.key) ==> record.sequence
                == jar.next_sequence
            &&& record.key != found.key ==> i < jar.records.len() && record == jar.records[i]
        }),
{
    let stored = jar.kept(found, expires);
    match held_at(jar.records, found.key) {
        Some(p) => {
            assert(holds(jar, found.key));
            if i != p {
                if i < p {
                    assert(jar.records[i].key != jar.records[p].key);
                } else {
                    assert(jar.records[p].key != jar.records[i].key);
                }
            }
        },
        None => {
            lemma_not_held(jar.records, found.key);
            assert(!holds(jar, found.key));
            if i < jar.records.len() {
                assert(jar.records[i].key != found.key);
            }
        },
    }
}

/// A field that is refused for itself changes nothing.
pub proof fn a_refused_field_changes_nothing(
    jar: JarView,
    field: Seq<char>,
    url: UrlView,
    limits: CookieLimits,
    now: SystemTime,
)
    ensures
        candidate(field, url, limits) matches Err(error) ==> jar.with_field(field, url, limits, now)
            == jar && jar.field_refusal(field, url, limits, now) == Some(error),
        jar.field_refusal(field, url, limits, now) is Some ==> jar.with_field(
            field,
            url,
            limits,
            now,
        ) == jar || jar.with_field(field, url, limits, now) == jar.purged(now),
{
}

/// A jar that is given no bounds holds fields of up to 4 KiB, 180 cookies of
/// one registrable domain and 3300 in all.
pub proof fn a_jar_has_these_bounds_unless_told_otherwise()
    ensures
        CookieLimits::standard().max_cookie_bytes == 4 * 1024,
        CookieLimits::standard().max_cookies_per_domain == 180,
        CookieLimits::standard().max_cookies == 3300,
        CookieLimits::standard().wf(),
{
}

} // verus!
