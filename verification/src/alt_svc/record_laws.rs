//! What HTTPS records say and how long it holds.

use vstd::prelude::*;
use crate::alt_svc::https_records::{
    advertised, applies, first_for_tcp, kept, lists, lowest_ttl, serves_tcp, supports_one_of,
    ttl_seconds, Discovery, DiscoveryView, HttpsAnswer, HttpsLookup, HttpsRecord, LookupState,
    ServiceRecord, TargetName,
};
use crate::alt_svc::rdata::{
    be16, decodes_to, dotted, key_list, label_text, params_of, protocol_list, read_name,
    read_params, with_param, ParamsView,
};
use crate::endpoint::OriginView;
use crate::lru::{lemma_position, lookup};
use crate::text_laws::{lower_case_ignores_ascii_case_alone, same_letters};
use crate::time::Instant;

verus! {

/// Whether a service record is for a request to this host and port: it needs
/// no key but the known ones, from `alpn` to `ipv6hint`, it is at the
/// origin's own name and port, and it has a protocol.
pub open spec fn is_for(
    service: ServiceRecord,
    owner: Seq<char>,
    host: Seq<char>,
    port: u16,
) -> bool {
    &&& forall|i: int|
        0 <= i < service.mandatory@.len() ==> 1 <= #[trigger] service.mandatory@[i] <= 6
    &&& match service.target {
        TargetName::Owner => true,
        TargetName::Name(name) => same_letters(name@, host) || same_letters(name@, owner),
    }
    &&& service.port is None || service.port == Some(port)
    &&& service.alpn@.len() > 0 || !service.no_default_alpn
}

proof fn lemma_applies(service: ServiceRecord, owner: Seq<char>, host: Seq<char>, port: u16)
    ensures
        applies(service, owner, host, port) == is_for(service, owner, host, port),
{
    match service.target {
        TargetName::Owner => {},
        TargetName::Name(name) => {
            lower_case_ignores_ascii_case_alone(name@, host);
            lower_case_ignores_ascii_case_alone(name@, owner);
        },
    }
    if applies(service, owner, host, port) {
        assert forall|i: int| 0 <= i < service.mandatory@.len() implies 1
            <= #[trigger] service.mandatory@[i] <= 6 by {
            assert(crate::alt_svc::https_records::supported_key(service.mandatory@[i]));
        }
    }
    if is_for(service, owner, host, port) {
        assert forall|i: int| 0 <= i < service.mandatory@.len() implies
            crate::alt_svc::https_records::supported_key(#[trigger] service.mandatory@[i]) by {
            assert(1 <= service.mandatory@[i] <= 6);
        }
    }
}

/// Whether an answer is a service record for a host and port.
pub open spec fn answer_for(answer: HttpsAnswer, host: Seq<char>, port: u16) -> bool {
    answer.record matches HttpsRecord::Service(service) && is_for(
        service,
        answer.owner@,
        host,
        port,
    )
}

proof fn lemma_kept(answer: HttpsAnswer, host: Seq<char>, port: u16)
    ensures
        kept(answer, host, port) == answer_for(answer, host, port),
{
    match answer.record {
        HttpsRecord::Alias(_) => {},
        HttpsRecord::Service(service) => {
            lemma_applies(service, answer.owner@, host, port);
        },
    }
}

/// Records let a request use HTTP/3 exactly when none of them is an alias,
/// one for its host and port lists `h3`, and not all of those for its host
/// and port go without the default protocol.
pub proof fn records_advertise_http3(answers: Seq<HttpsAnswer>, host: Seq<char>, port: u16)
    ensures
        advertised(answers, host, port) == {
            &&& forall|i: int|
                0 <= i < answers.len() ==> !((#[trigger] answers[i]).record is Alias)
            &&& exists|i: int|
                0 <= i < answers.len() && answer_for(#[trigger] answers[i], host, port) && lists(
                    answers[i].record->Service_0.alpn@,
                    seq![0x68u8, 0x33u8],
                )
            &&& exists|i: int|
                0 <= i < answers.len() && answer_for(#[trigger] answers[i], host, port)
                    && !answers[i].record->Service_0.no_default_alpn
        },
{
    assert forall|i: int| 0 <= i < answers.len() implies kept(#[trigger] answers[i], host, port)
        == answer_for(answers[i], host, port) by {
        lemma_kept(answers[i], host, port);
    }
    if advertised(answers, host, port) {
        let i = choose|i: int|
            0 <= i < answers.len() && crate::alt_svc::https_records::keeps_h3(
                #[trigger] answers[i],
                host,
                port,
            );
        assert(answer_for(answers[i], host, port));
        let j = choose|j: int|
            0 <= j < answers.len() && crate::alt_svc::https_records::keeps_default(
                #[trigger] answers[j],
                host,
                port,
            );
        assert(answer_for(answers[j], host, port));
    }
    if exists|i: int|
        0 <= i < answers.len() && answer_for(#[trigger] answers[i], host, port) && lists(
            answers[i].record->Service_0.alpn@,
            seq![0x68u8, 0x33u8],
        ) {
        let i = choose|i: int|
            0 <= i < answers.len() && answer_for(#[trigger] answers[i], host, port) && lists(
                answers[i].record->Service_0.alpn@,
                seq![0x68u8, 0x33u8],
            );
        assert(crate::alt_svc::https_records::keeps_h3(answers[i], host, port));
    }
    if exists|i: int|
        0 <= i < answers.len() && answer_for(#[trigger] answers[i], host, port)
            && !answers[i].record->Service_0.no_default_alpn {
        let i = choose|i: int|
            0 <= i < answers.len() && answer_for(#[trigger] answers[i], host, port)
                && !answers[i].record->Service_0.no_default_alpn;
        assert(crate::alt_svc::https_records::keeps_default(answers[i], host, port));
    }
}

/// The record that a TCP connection uses is for its host and port, supports
/// a protocol that it offers, with HTTP/1.1 unless the record goes without
/// it, and has the lowest priority number of those, the first at a tie.
pub proof fn a_connection_uses_the_record_with_the_lowest_number(
    answers: Seq<HttpsAnswer>,
    host: Seq<char>,
    port: u16,
    offered: Seq<Vec<u8>>,
    i: int,
    j: int,
)
    requires
        first_for_tcp(answers, host, port, offered, i),
    ensures
        0 <= i < answers.len(),
        answer_for(answers[i], host, port),
        ({
            let service = answers[i].record->Service_0;
            exists|k: int|
                0 <= k < offered.len() && (lists(service.alpn@, (#[trigger] offered[k])@) || (
                !service.no_default_alpn && offered[k]@ == seq![
                    0x68u8,
                    0x74u8,
                    0x74u8,
                    0x70u8,
                    0x2fu8,
                    0x31u8,
                    0x2eu8,
                    0x31u8,
                ]))
        }),
        0 <= j < answers.len() && serves_tcp(answers[j], host, port, offered) ==> answers[i].record
            ->Service_0.priority <= answers[j].record->Service_0.priority && (answers[i].record
            ->Service_0.priority == answers[j].record->Service_0.priority ==> i <= j),
{
    lemma_kept(answers[i], host, port);
    let service = answers[i].record->Service_0;
    assert(supports_one_of(service, offered));
    let k = choose|k: int|
        0 <= k < offered.len() && (lists(service.alpn@, (#[trigger] offered[k])@) || (
        !service.no_default_alpn && offered[k]@ == crate::alt_svc::https_records::http1_alpn()));
    assert(lists(service.alpn@, offered[k]@) || !service.no_default_alpn);
}

/// Answers hold for the shortest of their times, a day at most; an empty
/// answer for the time of its zone, a day at most, or for a minute without
/// one.
pub proof fn answers_hold_for_their_shortest_time(found: HttpsLookup, i: int)
    ensures
        ttl_seconds(found) <= 86_400,
        0 <= i < found.answers@.len() ==> ttl_seconds(found) <= found.answers@[i].ttl,
        found.answers@.len() > 0 ==> ttl_seconds(found) == 86_400 || exists|k: int|
            0 <= k < found.answers@.len() && ttl_seconds(found) == (#[trigger] found.answers@[k]).ttl,
        found.answers@.len() == 0 ==> match found.negative_ttl {
            Some(seconds) => ttl_seconds(found) == (if seconds <= 86_400 {
                seconds
            } else {
                86_400
            }),
            None => ttl_seconds(found) == 60,
        },
{
    if found.answers@.len() > 0 {
        lemma_lowest(found.answers@, i);
    }
}

proof fn lemma_lowest(answers: Seq<HttpsAnswer>, i: int)
    requires
        answers.len() > 0,
    ensures
        0 <= i < answers.len() ==> lowest_ttl(answers) <= answers[i].ttl,
        exists|k: int| 0 <= k < answers.len() && lowest_ttl(answers) == (#[trigger] answers[k]).ttl,
    decreases answers.len(),
{
    if answers.len() <= 1 {
        assert(lowest_ttl(answers) == answers[0].ttl);
    } else {
        let front = answers.drop_last();
        lemma_lowest(front, i);
        if 0 <= i < front.len() {
            assert(front[i] == answers[i]);
        }
        let k = choose|k: int| 0 <= k < front.len() && lowest_ttl(front) == (#[trigger] front[k]).ttl;
        assert(front[k] == answers[k]);
        assert(answers.last() == answers[answers.len() - 1]);
    }
}

/// A request learns what a fresh result says; it shares a lookup that is in
/// flight and starts one where there is neither.
pub proof fn a_request_starts_a_lookup_only_when_needed(
    cache: DiscoveryView,
    origin: OriginView,
    now: Instant,
)
    ensures
        match (lookup(cache.entries, origin), cache.discovered(origin, now)) {
            (Some(LookupState::Pending { lookup }), found) => found == (Discovery::Pending {
                lookup,
                start: false,
            }),
            (Some(LookupState::Ready { advertises_h3, expires_at }), found) => if expires_at.nanos
                > now.nanos {
                found == (if advertises_h3 {
                    Discovery::Advertised
                } else {
                    Discovery::NotAdvertised
                })
            } else {
                found == (Discovery::Pending { lookup: cache.next_lookup, start: true })
            },
            (None, found) => found == (Discovery::Pending {
                lookup: cache.next_lookup,
                start: true,
            }),
        },
{
}

/// A result whose lookup is no longer the one in flight for its origin is
/// dropped, and a lookup gets a number of its own.
pub proof fn a_stale_result_is_dropped(
    cache: DiscoveryView,
    origin: OriginView,
    number: u64,
    advertises_h3: bool,
    ttl: crate::time::Duration,
    now: Instant,
)
    requires
        lookup(cache.entries, origin) != Some(LookupState::Pending { lookup: number }),
    ensures
        cache.completed(origin, number, advertises_h3, ttl, now) == cache,
        cache.discovered(origin, now) matches Discovery::Pending { start: true, .. }
            && cache.next_lookup < u64::MAX ==> cache.after_discover(origin, now).next_lookup
            == cache.next_lookup + 1,
{
    lemma_position(cache.entries, origin);
}

/// A 16-bit number on the wire has its high byte first.
pub proof fn numbers_are_big_endian(high: u8, low: u8, rest: Seq<u8>)
    ensures
        be16(seq![high, low] + rest, 0) == high * 256 + low,
{
}

/// A label on the wire: its length and its bytes.
pub open spec fn wire_label(label: Seq<u8>) -> Seq<u8> {
    seq![label.len() as u8] + label
}

/// A name is read label by label up to the empty one, with dots between
/// them; no label is longer than 63 bytes.
pub proof fn names_are_read_label_by_label(
    label: Seq<u8>,
    rest: Seq<u8>,
    name: Seq<char>,
    long: u8,
)
    requires
        0 < label.len() <= 63,
        long > 63,
    ensures
        read_name(seq![0u8] + rest, name) == Some((name, rest)),
        read_name(wire_label(label) + rest, name) == read_name(
            rest,
            if name.len() == 0 {
                label_text(label)
            } else {
                name + seq!['.'] + label_text(label)
            },
        ),
        label_text(label).len() == label.len(),
        forall|i: int|
            0 <= i < label.len() ==> (#[trigger] label_text(label)[i]) as u32 == label[i] as u32,
        read_name(seq![long] + rest, name) is None,
        read_name(Seq::empty(), name) is None,
{
    assert((seq![0u8] + rest).skip(1) =~= rest);
    let all = wire_label(label) + rest;
    let n = label.len() as int;
    assert(all[0] == label.len() as u8);
    assert(all.skip(1 + n) =~= rest);
    assert(all.subrange(1, 1 + n) =~= label);
    assert(dotted(name) + label_text(label) =~= (if name.len() == 0 {
        label_text(label)
    } else {
        name + seq!['.'] + label_text(label)
    }));
    assert((seq![long] + rest)[0] == long);
}

/// A parameter on the wire: its key, its length and its value.
pub open spec fn wire_param(key: u16, value: Seq<u8>) -> Seq<u8> {
    seq![
        (key as int / 256) as u8,
        (key as int % 256) as u8,
        (value.len() as int / 256) as u8,
        (value.len() as int % 256) as u8,
    ] + value
}

/// Parameters are read one after another, in ascending order of their keys;
/// an unordered or repeated key spoils the record.
pub proof fn parameters_are_read_in_ascending_order(
    key: u16,
    value: Seq<u8>,
    rest: Seq<u8>,
    last: int,
    params: ParamsView,
)
    requires
        value.len() <= 65535,
    ensures
        key > last ==> read_params(wire_param(key, value) + rest, last, params) == (match with_param(
            params,
            key,
            value,
        ) {
            Some(next) => read_params(rest, key as int, next),
            None => None,
        }),
        key <= last ==> read_params(wire_param(key, value) + rest, last, params) is None,
        read_params(Seq::empty(), last, params) == Some(params),
{
    let all = wire_param(key, value) + rest;
    let n = value.len() as int;
    assert(all[0] == (key as int / 256) as u8 && all[1] == (key as int % 256) as u8);
    assert(all[2] == (n / 256) as u8 && all[3] == (n % 256) as u8);
    assert(be16(all, 0) == key);
    assert(be16(all, 2) == n);
    assert(all.subrange(4, 4 + n) =~= value);
    assert(all.skip(4 + n) =~= rest);
}

/// What each parameter says: key 0 the mandatory keys, key 1 the protocols,
/// key 2 that there are no default ones, key 3 the port, key 5 the encrypted
/// hello. Others say nothing, and none changes what another says.
pub proof fn each_parameter_has_its_key(params: ParamsView, key: u16, value: Seq<u8>, port: u16)
    ensures
        with_param(
            params,
            3,
            seq![(port as int / 256) as u8, (port as int % 256) as u8],
        ) == Some(ParamsView { port: Some(port), ..params }),
        value.len() != 2 ==> with_param(params, 3, value) is None,
        with_param(params, 5, value) == Some(ParamsView { ech: Some(value), ..params }),
        with_param(params, 2, Seq::empty()) == Some(
            ParamsView { no_default_alpn: true, ..params },
        ),
        value.len() > 0 ==> with_param(params, 2, value) is None,
        key == 4 || key > 5 ==> with_param(params, key, value) == Some(params),
        with_param(params, 1, value) matches Some(next) ==> next == (ParamsView {
            alpn: next.alpn,
            ..params
        }) && protocol_list(value, Seq::empty()) == Some(next.alpn) && next.alpn.len() > 0,
        with_param(params, 0, value) matches Some(next) ==> next == (ParamsView {
            mandatory: key_list(value),
            ..params
        }) && value.len() > 0 && value.len() % 2 == 0,
{
    let bytes = seq![(port as int / 256) as u8, (port as int % 256) as u8];
    assert(be16(bytes, 0) == port);
}

/// Protocols are listed each with its length before it, mandatory keys as
/// 16-bit numbers; no protocol is empty.
pub proof fn lists_are_read_item_by_item(
    id: Seq<u8>,
    rest: Seq<u8>,
    list: Seq<Seq<u8>>,
    key: u16,
)
    requires
        0 < id.len() <= 255,
    ensures
        protocol_list(seq![id.len() as u8] + id + rest, list) == protocol_list(rest, list.push(id)),
        protocol_list(Seq::empty(), list) == Some(list),
        protocol_list(seq![0u8] + rest, list) is None,
        key_list(seq![(key as int / 256) as u8, (key as int % 256) as u8] + rest) == seq![key]
            + key_list(rest),
{
    let all = seq![id.len() as u8] + id + rest;
    let n = id.len() as int;
    assert(all[0] == id.len() as u8);
    assert(all.skip(1 + n) =~= rest);
    assert(all.subrange(1, 1 + n) =~= id);
    assert((seq![0u8] + rest)[0] == 0);
    let keys = seq![(key as int / 256) as u8, (key as int % 256) as u8] + rest;
    assert(keys[0] == (key as int / 256) as u8 && keys[1] == (key as int % 256) as u8);
    assert(be16(keys, 0) == key);
    assert(keys.skip(2) =~= rest);
}

/// Record data is a priority, a name and parameters; zero makes an alias,
/// and the root name stands for the record's owner.
pub proof fn record_data_is_read_in_order(data: Seq<u8>, record: HttpsRecord)
    requires
        decodes_to(data, record),
    ensures
        data.len() >= 2,
        record is Alias == (data[0] == 0 && data[1] == 0),
        record matches HttpsRecord::Service(service) ==> service.priority == data[0] * 256
            + data[1],
        read_name(data.skip(2), Seq::empty()) matches Some((name, rest)) && match record {
            HttpsRecord::Alias(TargetName::Owner) => name.len() == 0,
            HttpsRecord::Alias(TargetName::Name(target)) => name.len() > 0 && target@ == name,
            HttpsRecord::Service(service) => {
                &&& match service.target {
                    TargetName::Owner => name.len() == 0,
                    TargetName::Name(target) => name.len() > 0 && target@ == name,
                }
                &&& read_params(
                    rest,
                    -1,
                    ParamsView {
                        mandatory: Seq::empty(),
                        alpn: Seq::empty(),
                        no_default_alpn: false,
                        port: None,
                        ech: None,
                    },
                ) == Some(params_of(service))
            },
        },
{
}

} // verus!
