//! What cookie snapshots say and what an import takes of them.

use vstd::prelude::*;
use crate::cookies::laws::{an_export_is_in_creation_order, lemma_live};
use crate::cookies::model::{
    count, created_before, creation, expired, first_created, held_at, hides_secure, placed, JarView,
    RecordView,
};
use crate::cookies::outside::whole_public_suffix;
use crate::cookies::rules::{candidate, is_ip_address, quota_domain};
use crate::cookies::snapshot::{
    admissible, admitted, checked, exported_at, exported_entry, exported_expiry, field_text,
    first_rejected, imported_expiry, imports, source, source_text, AddedView,
    CookieSnapshotErrorKind, EntryView, ImportView,
};
use crate::cookies::types::{
    same_site_named, CookieErrorKind, CookieErrorView, CookieLimits, CookieSameSite, CookieSourceScheme,
};
use crate::host::url_parts;
use crate::time::SystemTime;

verus! {

/// Whether an entry shows a cookie: its name, value, place, attributes,
/// partition and source.
pub open spec fn shows(entry: EntryView, record: RecordView) -> bool {
    &&& entry.name == record.key.name
    &&& entry.value == record.value
    &&& entry.domain == record.key.domain
    &&& entry.path == record.key.path
    &&& entry.host_only == record.key.host_only
    &&& entry.secure == record.secure
    &&& entry.http_only == record.http_only
    &&& entry.same_site == record.same_site
    &&& entry.partition_key == record.partition_site
    &&& entry.source_scheme == record.source_scheme
    &&& match (entry.expires_at, record.expires) {
        (None, None) => true,
        (Some(shown), Some(at)) => shown.nanos <= at < shown.nanos + 1_000_000_000
            && shown.nanos as int % 1_000_000_000 == 0,
        _ => false,
    }
}

/// Whether a whole second after `now` is left of a cookie.
pub open spec fn lasts(record: RecordView, now: SystemTime) -> bool {
    record.expires matches Some(at) ==> at >= 0 && at - at % 1_000_000_000 > now.nanos
}

/// Whether every expiry is a time that the clock can show.
pub open spec fn in_range(records: Seq<RecordView>) -> bool {
    forall|i: int|
        0 <= i < records.len() ==> ((#[trigger] records[i]).expires matches Some(at)
            ==> -0x8000_0000_0000_0000_0000_0000_0000_0000 <= at
            <= 0x7fff_ffff_ffff_ffff_ffff_ffff_ffff_ffff)
}

proof fn lemma_shown_entry(record: RecordView, now: SystemTime)
    requires
        record.expires matches Some(at) ==> -0x8000_0000_0000_0000_0000_0000_0000_0000 <= at
            <= 0x7fff_ffff_ffff_ffff_ffff_ffff_ffff_ffff,
    ensures
        exported_expiry(record.expires, now) is Some == lasts(record, now),
        exported_expiry(record.expires, now) matches Some(expires_at) ==> shows(
            exported_entry(record, expires_at),
            record,
        ),
{
}

proof fn lemma_exported_from(
    records: Seq<RecordView>,
    order: Seq<int>,
    now: SystemTime,
)
    requires
        forall|k: int| 0 <= k < order.len() ==> 0 <= #[trigger] order[k] < records.len(),
        in_range(records),
    ensures
        forall|m: int|
            0 <= m < exported_at(records, order, now).len() ==> exists|k: int|
                0 <= k < order.len() && shows(
                    #[trigger] exported_at(records, order, now)[m],
                    records[#[trigger] order[k]],
                ) && lasts(records[order[k]], now),
        forall|k: int|
            0 <= k < order.len() && lasts(records[#[trigger] order[k]], now) ==> exists|m: int|
                0 <= m < exported_at(records, order, now).len() && shows(
                    #[trigger] exported_at(records, order, now)[m],
                    records[order[k]],
                ),
    decreases order.len(),
{
    if order.len() > 0 {
        let front = order.drop_last();
        assert forall|k: int| 0 <= k < front.len() implies 0 <= #[trigger] front[k]
            < records.len() by {
            assert(front[k] == order[k]);
        }
        lemma_exported_from(records, front, now);
        let before = exported_at(records, front, now);
        let all = exported_at(records, order, now);
        let last = order[order.len() - 1];
        lemma_shown_entry(records[last], now);
        assert forall|m: int| 0 <= m < all.len() implies exists|k: int|
            0 <= k < order.len() && shows(#[trigger] all[m], records[#[trigger] order[k]]) && lasts(
                records[order[k]],
                now,
            ) by {
            if m < before.len() {
                assert(all[m] == before[m]);
                let k = choose|k: int|
                    0 <= k < front.len() && shows(before[m], records[#[trigger] front[k]]) && lasts(
                        records[front[k]],
                        now,
                    );
                assert(front[k] == order[k]);
            } else {
                assert(shows(all[m], records[order[order.len() - 1]]));
            }
        }
        assert forall|k: int|
            0 <= k < order.len() && lasts(records[#[trigger] order[k]], now) implies exists|m: int|
            0 <= m < all.len() && shows(#[trigger] all[m], records[order[k]]) by {
            if k < front.len() {
                assert(front[k] == order[k]);
                let m = choose|m: int|
                    0 <= m < before.len() && shows(#[trigger] before[m], records[front[k]]);
                assert(all[m] == before[m]);
            } else {
                assert(shows(all[before.len() as int], records[last]));
            }
        }
    }
}

proof fn lemma_placed_contains(
    records: Seq<RecordView>,
    order: Seq<int>,
    i: int,
    first: spec_fn(RecordView, RecordView) -> bool,
    j: int,
)
    requires
        j == i || order.contains(j),
    ensures
        placed(records, order, i, first).contains(j),
    decreases order.len(),
{
    let all = placed(records, order, i, first);
    if order.len() > 0 && first(records[i], records[order.last()]) {
        let front = order.drop_last();
        let before = placed(records, front, i, first);
        if j != i && order.last() == j {
            assert(all[before.len() as int] == j);
        } else {
            if j != i {
                let k = choose|k: int| 0 <= k < order.len() && order[k] == j;
                assert(front[k] == j);
            }
            lemma_placed_contains(records, front, i, first, j);
            let k = choose|k: int| 0 <= k < before.len() && before[k] == j;
            assert(all[k] == j);
        }
    } else if j == i {
        assert(all[order.len() as int] == j);
    } else {
        let k = choose|k: int| 0 <= k < order.len() && order[k] == j;
        assert(all[k] == j);
    }
}

proof fn lemma_created_contains(records: Seq<RecordView>, n: nat, j: int)
    requires
        0 <= j < n <= records.len(),
    ensures
        first_created(records, n).contains(j),
    decreases n,
{
    let before = first_created(records, (n - 1) as nat);
    if j < n - 1 {
        lemma_created_contains(records, (n - 1) as nat, j);
    }
    lemma_placed_contains(
        records,
        before,
        n - 1,
        |a: RecordView, b: RecordView| created_before(a, b),
        j,
    );
}

proof fn lemma_lasting(record: RecordView, now: SystemTime)
    requires
        lasts(record, now),
    ensures
        !expired(record, now),
{
}

proof fn lemma_exported(jar: JarView, now: SystemTime)
    requires
        jar.wf(),
        in_range(jar.records),
    ensures
        in_range(jar.purged(now).records),
        forall|k: int|
            0 <= k < creation(jar.purged(now).records).len() ==> 0 <= #[trigger] creation(
                jar.purged(now).records,
            )[k] < jar.purged(now).records.len(),
{
    let clean = jar.purged(now).records;
    lemma_live(jar.records, now);
    an_export_is_in_creation_order(clean);
    assert forall|i: int| 0 <= i < clean.len() implies ((#[trigger] clean[i]).expires matches Some(
        at,
    ) ==> -0x8000_0000_0000_0000_0000_0000_0000_0000 <= at
        <= 0x7fff_ffff_ffff_ffff_ffff_ffff_ffff_ffff) by {
        assert(jar.records.contains(clean[i]));
    }
}

/// An export shows every cookie of which a whole second is left, as it is,
/// with its expiry rounded down to a second.
pub proof fn an_export_shows_every_lasting_cookie(
    jar: JarView,
    now: SystemTime,
    record: RecordView,
)
    requires
        jar.wf(),
        in_range(jar.records),
        jar.records.contains(record),
        lasts(record, now),
    ensures
        exists|k: int|
            0 <= k < jar.exported(now).len() && shows(#[trigger] jar.exported(now)[k], record),
{
    let clean = jar.purged(now).records;
    let order = creation(clean);
    lemma_live(jar.records, now);
    lemma_exported(jar, now);
    lemma_exported_from(clean, order, now);
    let i = choose|i: int| 0 <= i < jar.records.len() && jar.records[i] == record;
    lemma_lasting(record, now);
    assert(clean.contains(jar.records[i]));
    let j = choose|j: int| 0 <= j < clean.len() && clean[j] == record;
    lemma_created_contains(clean, clean.len(), j);
    let k = choose|k: int| 0 <= k < order.len() && order[k] == j;
    assert(lasts(clean[order[k]], now));
    let m = choose|m: int|
        0 <= m < exported_at(clean, order, now).len() && shows(
            #[trigger] exported_at(clean, order, now)[m],
            clean[order[k]],
        );
    assert(shows(jar.exported(now)[m], record));
}

/// An export shows nothing but cookies that the jar holds and of which a
/// whole second is left.
pub proof fn an_export_shows_nothing_else(jar: JarView, now: SystemTime, m: int)
    requires
        jar.wf(),
        in_range(jar.records),
        0 <= m < jar.exported(now).len(),
    ensures
        exists|i: int|
            0 <= i < jar.records.len() && shows(
                jar.exported(now)[m],
                #[trigger] jar.records[i],
            ) && lasts(jar.records[i], now),
{
    let clean = jar.purged(now).records;
    let order = creation(clean);
    lemma_live(jar.records, now);
    lemma_exported(jar, now);
    lemma_exported_from(clean, order, now);
    let entry = exported_at(clean, order, now)[m];
    let k = choose|k: int|
        0 <= k < order.len() && shows(entry, clean[#[trigger] order[k]]) && lasts(
            clean[order[k]],
            now,
        );
    assert(jar.records.contains(clean[order[k]]));
    let i = choose|i: int| 0 <= i < jar.records.len() && jar.records[i] == clean[order[k]];
    assert(shows(jar.exported(now)[m], jar.records[i]));
}

/// An entry is accepted only for the cookie that it describes, part by part,
/// as its own host would set it; a domain cookie of a public suffix, a
/// partition that is not the entry's, and a part that storage would change
/// are each refused for that.
pub proof fn an_entry_is_accepted_as_it_is(entry: EntryView, limits: CookieLimits)
    ensures
        match checked(entry, limits) {
            Ok(found) => {
                &&& found.key.name == entry.name
                &&& found.raw.value == entry.value
                &&& found.key.domain == entry.domain
                &&& found.key.path == entry.path
                &&& found.key.host_only == entry.host_only
                &&& found.raw.secure == entry.secure
                &&& found.raw.http_only == entry.http_only
                &&& same_site_named(found.raw.same_site) == entry.same_site
                &&& found.partition_site == entry.partition_key
                &&& found.key.partitioned == entry.partition_key is Some
                &&& found.source_scheme == entry.source_scheme
                &&& entry.host_only || is_ip_address(entry.domain) || !whole_public_suffix(
                    entry.domain,
                )
                &&& url_parts(source_text(entry)) matches Some(url) && url.host_text == Some(
                    entry.domain,
                ) && candidate(field_text(entry), url, limits) == Ok::<_, CookieErrorView>(found)
            },
            Err(kind) => match source(entry) {
                None => kind == CookieSnapshotErrorKind::InvalidCookie,
                Some(url) => if !entry.host_only && !is_ip_address(entry.domain)
                    && whole_public_suffix(entry.domain) {
                    kind == CookieSnapshotErrorKind::PublicSuffix
                } else {
                    match candidate(field_text(entry), url, limits) {
                        Ok(found) => if found.partition_site != entry.partition_key {
                            kind == CookieSnapshotErrorKind::InvalidPartitionKey
                        } else {
                            kind == CookieSnapshotErrorKind::InvalidCookie
                        },
                        Err(error) => match error.kind {
                            CookieErrorKind::CookieTooLarge => kind
                                == CookieSnapshotErrorKind::CookieTooLarge,
                            CookieErrorKind::InvalidPrefix => kind
                                == CookieSnapshotErrorKind::InvalidPrefix,
                            CookieErrorKind::UnsupportedPolicy => kind
                                == CookieSnapshotErrorKind::UnsupportedPolicy,
                            CookieErrorKind::PublicSuffix => kind
                                == CookieSnapshotErrorKind::PublicSuffix,
                            CookieErrorKind::InvalidSetCookie => kind
                                == CookieSnapshotErrorKind::InvalidCookie,
                            _ => true,
                        },
                    }
                },
            },
        },
{
    reveal_strlit("http");
    reveal_strlit("https");
    assert("http"@.len() == 4 && "https"@.len() == 5);
}

/// The field that stands for an entry: its name and value, its path, its
/// domain unless it is for one host alone, and each attribute that it has, in
/// this order. Its source is the root of its host under its scheme.
pub proof fn an_entry_is_written_as_a_field(entry: EntryView)
    ensures
        entry.host_only && !entry.secure && !entry.http_only && entry.same_site is None
            && entry.partition_key is None ==> field_text(entry) == entry.name + seq!['=']
            + entry.value + "; Path="@ + entry.path,
        !entry.host_only && !entry.secure && !entry.http_only && entry.same_site is None
            && entry.partition_key is None ==> field_text(entry) == field_text(
            EntryView { host_only: true, ..entry },
        ) + "; Domain="@ + entry.domain,
        entry.secure && !entry.http_only && entry.same_site is None && entry.partition_key is None
            ==> field_text(entry) == field_text(EntryView { secure: false, ..entry })
            + "; Secure"@,
        entry.http_only && entry.same_site is None && entry.partition_key is None ==> field_text(
            entry,
        ) == field_text(EntryView { http_only: false, ..entry }) + "; HttpOnly"@,
        entry.same_site is Some && entry.partition_key is None ==> field_text(entry) == field_text(
            EntryView { same_site: None, ..entry },
        ) + "; SameSite="@ + entry.same_site->0.text(),
        entry.partition_key is Some ==> field_text(entry) == field_text(
            EntryView { partition_key: None, ..entry },
        ) + "; Partitioned"@,
        CookieSameSite::Strict.text() == "Strict"@ && CookieSameSite::Lax.text() == "Lax"@
            && CookieSameSite::Unrestricted.text() == "None"@,
        entry.source_scheme == CookieSourceScheme::Https ==> source_text(entry) == "https://"@
            + entry.domain + seq!['/'],
        entry.source_scheme == CookieSourceScheme::Http ==> source_text(entry) == "http://"@
            + entry.domain + seq!['/'],
{
    reveal_strlit("=");
    reveal_strlit("/");
    reveal_strlit("http");
    reveal_strlit("https");
    reveal_strlit("://");
    reveal_strlit("http://");
    reveal_strlit("https://");
    assert("="@ =~= seq!['=']);
    assert("/"@ =~= seq!['/']);
    assert("http"@ + "://"@ =~= "http://"@);
    assert("https"@ + "://"@ =~= "https://"@);
    let plain = entry.name + seq!['='] + entry.value + "; Path="@ + entry.path;
    if entry.host_only && !entry.secure && !entry.http_only && entry.same_site is None
        && entry.partition_key is None {
        assert(field_text(entry) =~= plain);
    }
    if !entry.host_only && !entry.secure && !entry.http_only && entry.same_site is None
        && entry.partition_key is None {
        assert(field_text(entry) =~= field_text(EntryView { host_only: true, ..entry })
            + "; Domain="@ + entry.domain);
    }
    if entry.secure && !entry.http_only && entry.same_site is None && entry.partition_key is None {
        assert(field_text(entry) =~= field_text(EntryView { secure: false, ..entry })
            + "; Secure"@);
    }
    if entry.http_only && entry.same_site is None && entry.partition_key is None {
        assert(field_text(entry) =~= field_text(EntryView { http_only: false, ..entry })
            + "; HttpOnly"@);
    }
    if entry.same_site is Some && entry.partition_key is None {
        assert(field_text(entry) =~= field_text(EntryView { same_site: None, ..entry })
            + "; SameSite="@ + entry.same_site->0.text());
    }
    if entry.partition_key is Some {
        assert(field_text(entry) =~= field_text(EntryView { partition_key: None, ..entry })
            + "; Partitioned"@);
    }
}

/// An imported cookie keeps the expiry of its entry down to a second, at most
/// the end of 9999; one of which nothing is left is not imported, and one
/// without an expiry lasts.
pub proof fn an_imported_expiry_is_rounded_down(expires_at: Option<SystemTime>, now: SystemTime)
    ensures
        match (expires_at, imported_expiry(expires_at, now)) {
            (None, imported) => imported == Some(None::<int>),
            (Some(at), Some(imported)) => imported matches Some(kept) && {
                &&& now.nanos < kept <= at.nanos
                &&& kept <= 253_402_300_799_000_000_000
                &&& kept == 253_402_300_799_000_000_000 || at.nanos - 1_000_000_000 < kept && kept
                    % 1_000_000_000 == 0
            },
            (Some(at), None) => at.nanos < 0 || at.nanos - at.nanos as int % 1_000_000_000
                <= now.nanos || 253_402_300_799_000_000_000 <= now.nanos,
        },
{
}

/// An entry alone is added to a jar exactly when it has not expired, the jar
/// does not hold its cookie, it would not hide a held `Secure` cookie from an
/// untrusted origin, and neither the jar nor its domain is full.
pub proof fn an_entry_is_added_unless_something_held_wins(
    held: Seq<RecordView>,
    entry: EntryView,
    limits: CookieLimits,
    now: SystemTime,
)
    requires
        checked(entry, limits) is Ok,
    ensures
        ({
            let found = checked(entry, limits)->Ok_0;
            let added = admitted(held, imports(seq![entry], limits), limits, now);
            let wanted = {
                &&& imported_expiry(entry.expires_at, now) is Some
                &&& forall|i: int| 0 <= i < held.len() ==> (#[trigger] held[i]).key != found.key
                &&& found.trusted || !hides_secure(held, found.key, now)
                &&& held.len() < limits.max_cookies
                &&& count(held, Some(quota_domain(found.key.domain)))
                    < limits.max_cookies_per_domain
            };
            &&& wanted ==> added == seq![
                AddedView { found, expires: imported_expiry(entry.expires_at, now)->0 },
            ]
            &&& !wanted ==> added.len() == 0
        }),
{
    let list = imports(seq![entry], limits);
    let found = checked(entry, limits)->Ok_0;
    assert(list.len() == 1);
    assert(list[0] == (ImportView { found, expires_at: entry.expires_at }));
    let later = list.skip(1);
    assert(later =~= Seq::empty());
    let none = admitted(held, later, limits, now);
    assert(none =~= Seq::empty());
    if admissible(held, list[0], later, none, limits, now) {
        assert(admitted(held, list, limits, now) =~= seq![
            AddedView { found, expires: imported_expiry(entry.expires_at, now)->0 },
        ]);
    }
    if held_at(held, found.key) is None {
        assert forall|i: int| 0 <= i < held.len() implies (#[trigger] held[i]).key != found.key by {}
    }
}

/// Of several entries, later ones go first: an entry is added beside what the
/// later ones added, and not where a later one has its key.
pub proof fn later_entries_go_first(
    held: Seq<RecordView>,
    first: ImportView,
    later: Seq<ImportView>,
    limits: CookieLimits,
    now: SystemTime,
)
    ensures
        ({
            let rest = admitted(held, later, limits, now);
            let all = admitted(held, seq![first] + later, limits, now);
            &&& all == rest || all == seq![
                AddedView {
                    found: first.found,
                    expires: imported_expiry(first.expires_at, now)->0,
                },
            ] + rest
            &&& (exists|j: int|
                0 <= j < later.len() && (#[trigger] later[j]).found.key == first.found.key)
                ==> all == rest
            &&& all != rest ==> held.len() + rest.len() < limits.max_cookies && (
            first.found.trusted || !hides_secure(held, first.found.key, now))
        }),
{
    let list = seq![first] + later;
    assert(list.skip(1) =~= later);
    assert(list[0] == first);
}

/// An import is refused for its first entry that is refused, and says which.
pub proof fn the_first_refused_entry_is_named(entries: Seq<EntryView>, limits: CookieLimits, i: int)
    ensures
        first_rejected(entries, limits, i) == (0 <= i < entries.len() && checked(
            entries[i],
            limits,
        ) is Err && forall|j: int| 0 <= j < i ==> checked(#[trigger] entries[j], limits) is Ok),
{
}

} // verus!
