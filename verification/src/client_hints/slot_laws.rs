//! Which hints a response asks for, and where a request carries them.

use vstd::prelude::*;
use vstd::utf8::{decode_utf8, valid_utf8};
use crate::client_hints::fields::{
    asks, combined, has_field, lemma_requested, requested, retries, structured_list, token_list,
    tokens_in, MemberView,
};
use crate::client_hints::slots::{
    automatic, enabled, first_enabled, first_named, hint_names, is_hint, misplaced, named,
    others, own_field, parted, prepared, single_names, slot_fields, slot_names, slot_place,
    spliced, with_name,
};
use crate::client_hints::types::{ClientHintDelivery, HintView, SlotView, TemplateView};
use crate::endpoint::HeaderView;
use crate::text::{blank, lowercase};
use crate::text_laws::{lower_case_ignores_ascii_case_alone, same_letters};

verus! {

/// A request carries a hint of its own accord when the profile sends it by
/// default, when the origin asked for it or when the connection did.
pub proof fn hints_are_sent_by_default_or_on_request(
    hints: Seq<HintView>,
    asked: Seq<usize>,
    connection: Seq<usize>,
    i: usize,
)
    ensures
        enabled(hints, None, None, i as int) == (hints[i as int].delivery
            == ClientHintDelivery::Default),
        enabled(hints, Some(asked), None, i as int) == (hints[i as int].delivery
            == ClientHintDelivery::Default || asked.contains(i)),
        enabled(hints, None, Some(connection), i as int) == (hints[i as int].delivery
            == ClientHintDelivery::Default || connection.contains(i)),
        enabled(hints, Some(asked), Some(connection), i as int) == (hints[i as int].delivery
            == ClientHintDelivery::Default || asked.contains(i) || connection.contains(i)),
{
}

/// Whether no field has a name.
pub open spec fn unnamed(headers: Seq<HeaderView>, name: Seq<char>) -> bool {
    forall|i: int| 0 <= i < headers.len() ==> (#[trigger] headers[i]).name != name
}

/// The fields of a name are joined in order, with a comma and a space between
/// two; other fields are passed over.
pub proof fn repeated_fields_are_joined(
    headers: Seq<HeaderView>,
    field: HeaderView,
    name: Seq<char>,
)
    ensures
        combined(Seq::empty(), name) is None,
        field.name != name ==> combined(headers.push(field), name) == combined(headers, name),
        field.name == name ==> combined(headers.push(field), name) == (match combined(
            headers,
            name,
        ) {
            None => Some(field.value),
            Some(before) => Some(before + seq![0x2cu8, 0x20u8] + field.value),
        }),
{
    assert(headers.push(field).drop_last() =~= headers);
}

proof fn lemma_one_field(
    before: Seq<HeaderView>,
    field: HeaderView,
    behind: Seq<HeaderView>,
    name: Seq<char>,
)
    requires
        unnamed(before, name),
        unnamed(behind, name),
    ensures
        field.name == name ==> combined(before + seq![field] + behind, name) == Some(field.value),
        field.name != name ==> combined(before + seq![field] + behind, name) is None,
    decreases before.len() + behind.len(),
{
    let all = before + seq![field] + behind;
    if behind.len() > 0 {
        let front = behind.drop_last();
        assert forall|i: int| 0 <= i < front.len() implies (#[trigger] front[i]).name != name by {
            assert(front[i] == behind[i]);
        }
        lemma_one_field(before, field, front, name);
        assert(all.drop_last() =~= before + seq![field] + front);
        assert(behind[behind.len() - 1].name != name);
    } else {
        assert(all.drop_last() =~= before);
        lemma_no_field(before, name);
    }
}

proof fn lemma_no_field(headers: Seq<HeaderView>, name: Seq<char>)
    requires
        unnamed(headers, name),
    ensures
        combined(headers, name) is None,
    decreases headers.len(),
{
    if headers.len() > 0 {
        let front = headers.drop_last();
        assert forall|i: int| 0 <= i < front.len() implies (#[trigger] front[i]).name != name by {
            assert(front[i] == headers[i]);
        }
        lemma_no_field(front, name);
        assert(headers[headers.len() - 1].name != name);
    }
}

/// A response asks for hints with its `accept-ch` field: for those of the
/// profile that are sent on request and that it names. Without the field, or
/// with one that is no list of tokens, it says nothing; hints are critical
/// when its `critical-ch` field names them too.
pub proof fn a_response_asks_for_the_hints_it_names(
    hints: Seq<HintView>,
    before: Seq<HeaderView>,
    field: HeaderView,
    behind: Seq<HeaderView>,
    i: int,
)
    requires
        hints.len() <= usize::MAX,
        unnamed(before, "accept-ch"@) && unnamed(behind, "accept-ch"@),
        unnamed(before, "critical-ch"@) && unnamed(behind, "critical-ch"@),
    ensures
        ({
            let response = before + seq![field] + behind;
            &&& field.name == "accept-ch"@ ==> match (tokens_in(field.value), asks(hints, response)) {
                (Some(tokens), Some((asked, critical))) => {
                    &&& critical.len() == 0
                    &&& 0 <= i < hints.len() ==> asked.contains(i as usize) == (hints[i].delivery
                        == ClientHintDelivery::AcceptCh && tokens.contains(hints[i].name))
                },
                (None, None) => true,
                _ => false,
            }
            &&& field.name != "accept-ch"@ ==> asks(hints, response) is None
        }),
{
    let response = before + seq![field] + behind;
    reveal_strlit("accept-ch");
    reveal_strlit("critical-ch");
    assert("accept-ch"@.len() == 9 && "critical-ch"@.len() == 11);
    lemma_one_field(before, field, behind, "accept-ch"@);
    if field.name == "accept-ch"@ {
        lemma_one_field(before, field, behind, "critical-ch"@);
        if tokens_in(field.value) is Some {
            let tokens = tokens_in(field.value)->0;
            lemma_requested(hints, tokens);
            let asked = requested(hints, tokens);
            if 0 <= i < hints.len() && asked.contains(i as usize) {
                let k = choose|k: int| 0 <= k < asked.len() && asked[k] == i as usize;
                assert(asked[k] < hints.len());
            }
        }
    }
}

/// A request is sent again exactly when it lacks a hint that was asked for
/// and called critical.
pub proof fn a_missing_critical_hint_is_sent_again(
    hints: Seq<HintView>,
    asked: Seq<usize>,
    critical: Seq<Seq<char>>,
    sent: Seq<HeaderView>,
)
    ensures
        retries(hints, asked, critical, sent) == (exists|k: int|
            0 <= k < asked.len() && critical.contains(hints[(#[trigger] asked[k]) as int].name)
                && forall|j: int|
                0 <= j < sent.len() ==> !same_letters(
                    (#[trigger] sent[j]).name,
                    hints[asked[k] as int].name,
                )),
{
    assert forall|k: int| 0 <= k < asked.len() implies has_field(
        sent,
        hints[(#[trigger] asked[k]) as int].name,
    ) == !(forall|j: int|
        0 <= j < sent.len() ==> !same_letters(
            (#[trigger] sent[j]).name,
            hints[asked[k] as int].name,
        )) by {
        let name = hints[asked[k] as int].name;
        assert forall|j: int| 0 <= j < sent.len() implies (lowercase((#[trigger] sent[j]).name)
            == lowercase(name)) == same_letters(sent[j].name, name) by {
            lower_case_ignores_ascii_case_alone(sent[j].name, name);
        }
    }
    if retries(hints, asked, critical, sent) {
        let k = choose|k: int|
            0 <= k < asked.len() && critical.contains(hints[(#[trigger] asked[k]) as int].name)
                && !has_field(sent, hints[asked[k] as int].name);
        assert(!has_field(sent, hints[asked[k] as int].name));
    }
}

/// A list of tokens is read in order and in lower case; nothing but white
/// space is the empty list, and anything but tokens is no list of them.
pub proof fn token_lists_are_lists_of_tokens(text: Seq<char>, i: int)
    ensures
        blank(text) ==> token_list(text) == Some(Seq::<Seq<char>>::empty()),
        !blank(text) ==> match (structured_list(text), token_list(text)) {
            (Some(members), Some(tokens)) => {
                &&& tokens.len() == members.len()
                &&& 0 <= i < members.len() ==> (members[i] matches MemberView::Token(token)
                    && same_letters(token, tokens[i]) && lowercase(tokens[i]) == tokens[i])
            },
            (Some(members), None) => exists|k: int|
                0 <= k < members.len() && !(#[trigger] members[k] is Token),
            (None, Some(_)) => false,
            (None, None) => true,
        },
{
    if !blank(text) && structured_list(text) is Some && 0 <= i < structured_list(text)->0.len() {
        let members = structured_list(text)->0;
        if members[i] is Token {
            let token = members[i]->0;
            lower_case_ignores_ascii_case_alone(token, token);
            assert(lowercase(lowercase(token)) =~= lowercase(token));
        }
    }
}

/// Bytes that are no text are no list of tokens.
pub proof fn only_text_lists_tokens(bytes: Seq<u8>)
    ensures
        !valid_utf8(bytes) ==> tokens_in(bytes) is None,
        valid_utf8(bytes) ==> tokens_in(bytes) == token_list(decode_utf8(bytes)),
{
}

/// Without a template the hints stand in front, in the profile's order, and
/// the caller's fields follow as they are.
pub proof fn without_a_template_hints_come_first(
    hints: Seq<HintView>,
    asked: Option<Seq<usize>>,
    connection: Option<Seq<usize>>,
    caller: Seq<HeaderView>,
    n: nat,
)
    requires
        n < hints.len(),
    ensures
        ({
            let all = prepared(hints, asked, connection, caller, None);
            let front = automatic(hints, asked, connection, caller, hints.len());
            all == front + caller
        }),
        automatic(hints, asked, connection, caller, 0).len() == 0,
        ({
            let before = automatic(hints, asked, connection, caller, n);
            let after = automatic(hints, asked, connection, caller, n + 1);
            let supplied = exists|k: int|
                0 <= k < caller.len() && lowercase((#[trigger] caller[k]).name) == hints[n as int].name;
            &&& enabled(hints, asked, connection, n as int) && !supplied ==> after == before.push(
                HeaderView { name: hints[n as int].name, value: hints[n as int].value },
            )
            &&& !enabled(hints, asked, connection, n as int) || supplied ==> after == before
        }),
{
}

/// Whether a field has a name in any case.
pub open spec fn is_named(field: HeaderView, name: Seq<char>) -> bool {
    same_letters(field.name, name)
}

/// A slot goes in front of the first field with the first name that follows
/// it and occurs, and behind the others where none does.
pub proof fn a_slot_goes_in_front_of_what_follows_it(
    fields: Seq<HeaderView>,
    name: Seq<char>,
    rest: Seq<Seq<char>>,
    i: int,
)
    ensures
        slot_place(fields, Seq::empty()) == fields.len(),
        0 <= i < fields.len() && is_named(fields[i], name) && (forall|j: int|
            0 <= j < i ==> !is_named(#[trigger] fields[j], name)) ==> slot_place(
            fields,
            seq![name] + rest,
        ) == i,
        (forall|j: int| 0 <= j < fields.len() ==> !is_named(#[trigger] fields[j], name))
            ==> slot_place(fields, seq![name] + rest) == slot_place(fields, rest),
{
    assert forall|j: int| 0 <= j < fields.len() implies is_named(#[trigger] fields[j], name) == (
    lowercase(fields[j].name) == lowercase(name)) by {
        lower_case_ignores_ascii_case_alone(fields[j].name, name);
    }
    let all = seq![name] + rest;
    assert(all[0] == name);
    assert(all.skip(1) =~= rest);
    if 0 <= i < fields.len() && is_named(fields[i], name) && (forall|j: int|
        0 <= j < i ==> !is_named(#[trigger] fields[j], name)) {
        assert(first_named(fields, name, i)) by {
            assert forall|j: int| 0 <= j < i implies lowercase((#[trigger] fields[j]).name)
                != lowercase(name) by {
                assert(!is_named(fields[j], name));
            }
        }
        assert forall|k: int| first_named(fields, name, k) implies k == i by {
            if k < i {
                assert(!is_named(fields[k], name));
            } else if i < k {
                assert(lowercase(fields[i].name) != lowercase(name));
            }
        }
    }
    if forall|j: int| 0 <= j < fields.len() ==> !is_named(#[trigger] fields[j], name) {
        assert forall|k: int| !first_named(fields, name, k) by {
            if first_named(fields, name, k) {
                assert(!is_named(fields[k], name));
            }
        }
    }
}

/// What a slot takes stands together at its place, with the other fields in
/// order around it.
pub proof fn a_slot_stands_together(fields: Seq<HeaderView>, place: int, group: Seq<HeaderView>)
    requires
        0 <= place <= fields.len(),
    ensures
        spliced(fields, place, group).subrange(0, place) == fields.subrange(0, place),
        spliced(fields, place, group).subrange(place, place + group.len()) == group,
        spliced(fields, place, group).subrange(
            place + group.len(),
            (fields.len() + group.len()) as int,
        ) == fields.subrange(place, fields.len() as int),
        spliced(fields, place, group).len() == fields.len() + group.len(),
{
    let all = spliced(fields, place, group);
    assert(all.subrange(0, place) =~= fields.subrange(0, place));
    assert(all.subrange(place, place + group.len()) =~= group);
    assert(all.subrange(place + group.len(), all.len() as int) =~= fields.subrange(
        place,
        fields.len() as int,
    ));
}

proof fn lemma_with_name(fields: Seq<HeaderView>, name: Seq<char>, same: bool, k: int)
    ensures
        0 <= k < with_name(fields, name, same).len() ==> fields.contains(
            with_name(fields, name, same)[k],
        ) && is_named(with_name(fields, name, same)[k], name) == same,
    decreases fields.len(),
{
    if fields.len() > 0 {
        let front = fields.drop_last();
        let before = with_name(front, name, same);
        let all = with_name(fields, name, same);
        lemma_with_name(front, name, same, k);
        lower_case_ignores_ascii_case_alone(fields.last().name, name);
        if 0 <= k < all.len() {
            if k < before.len() {
                assert(all[k] == before[k]);
                let m = choose|m: int| 0 <= m < front.len() && front[m] == before[k];
                assert(fields[m] == all[k]);
            } else {
                assert(all[k] == fields[fields.len() - 1]);
            }
        }
    }
}

/// A slot for one hint takes the caller's fields of that name, and the
/// profile's hint where the caller has none and the hint is enabled. A slot
/// takes its names in order.
pub proof fn a_slot_takes_the_caller_s_fields_first(
    hints: Seq<HintView>,
    asked: Option<Seq<usize>>,
    connection: Option<Seq<usize>>,
    supplied: Seq<HeaderView>,
    names: Seq<Seq<char>>,
    name: Seq<char>,
    i: int,
    k: int,
)
    ensures
        slot_fields(hints, asked, connection, supplied, Seq::empty()) == (
            Seq::<HeaderView>::empty(),
            supplied,
        ),
        ({
            let (before, rest) = slot_fields(hints, asked, connection, supplied, names);
            let (group, left) = slot_fields(hints, asked, connection, supplied, names.push(name));
            let found = with_name(rest, name, true);
            &&& left == with_name(rest, name, false)
            &&& found.len() > 0 ==> group == before + found
            &&& found.len() == 0 ==> group == before + own_field(hints, asked, connection, name)
            &&& 0 <= k < found.len() ==> is_named(found[k], name)
        }),
        0 <= i < hints.len() && hints[i].name == name && enabled(hints, asked, connection, i) && (
        forall|j: int|
            0 <= j < i ==> !((#[trigger] hints[j]).name == name && enabled(
                hints,
                asked,
                connection,
                j,
            ))) ==> own_field(hints, asked, connection, name) == seq![
            HeaderView { name: hints[i].name, value: hints[i].value },
        ],
        (forall|j: int|
            0 <= j < hints.len() ==> !((#[trigger] hints[j]).name == name && enabled(
                hints,
                asked,
                connection,
                j,
            ))) ==> own_field(hints, asked, connection, name).len() == 0,
{
    assert(names.push(name).drop_last() =~= names);
    let (before, rest) = slot_fields(hints, asked, connection, supplied, names);
    lemma_with_name(rest, name, true, k);
    if 0 <= i < hints.len() && hints[i].name == name && enabled(hints, asked, connection, i) && (
    forall|j: int|
        0 <= j < i ==> !((#[trigger] hints[j]).name == name && enabled(
            hints,
            asked,
            connection,
            j,
        ))) {
        assert(first_enabled(hints, asked, connection, name, i));
        assert forall|m: int| first_enabled(hints, asked, connection, name, m) implies m == i by {
            if m < i {
                assert(hints[m].name == name);
            } else if i < m {
                assert(hints[i].name == name);
            }
        }
    }
    if forall|j: int|
        0 <= j < hints.len() ==> !((#[trigger] hints[j]).name == name && enabled(
            hints,
            asked,
            connection,
            j,
        )) {
        assert forall|m: int| !first_enabled(hints, asked, connection, name, m) by {
            if first_enabled(hints, asked, connection, name, m) {
                assert(hints[m].name == name);
            }
        }
    }
}

/// The slot for the rest takes the hints that have no slot of their own, in
/// the profile's order.
pub proof fn the_common_slot_takes_the_rest_in_order(
    hints: Seq<HintView>,
    hint: HintView,
    single: Seq<Seq<char>>,
    slot: SlotView,
)
    ensures
        others(Seq::empty(), single).len() == 0,
        others(hints.push(hint), single) == (if single.contains(hint.name) {
            others(hints, single)
        } else {
            others(hints, single).push(hint.name)
        }),
        slot.hint matches Some(name) ==> slot_names(hints, single, slot) == seq![name],
        slot.hint is None ==> slot_names(hints, single, slot) == others(hints, single),
{
    assert(hints.push(hint).drop_last() =~= hints);
}

/// The names of the slots for one hint each, in order.
pub proof fn slots_name_their_hints(slots: Seq<SlotView>, slot: SlotView)
    ensures
        single_names(Seq::empty()).len() == 0,
        slot.hint matches Some(name) ==> single_names(slots.push(slot)) == single_names(slots).push(
            name,
        ),
        slot.hint is None ==> single_names(slots.push(slot)) == single_names(slots),
{
    assert(slots.push(slot).drop_last() =~= slots);
}

/// A caller's field goes into the slots exactly when its name, in any case,
/// is that of a hint or of a slot; the others stay in order.
pub proof fn caller_hints_go_into_slots(
    hints: Seq<HintView>,
    single: Seq<Seq<char>>,
    caller: Seq<HeaderView>,
    field: HeaderView,
)
    ensures
        ({
            let hint = (exists|i: int|
                0 <= i < single.len() && same_letters(#[trigger] single[i], field.name)) || (exists|
                i: int,
            |
                0 <= i < hints.len() && same_letters((#[trigger] hints[i]).name, field.name));
            &&& parted(hints, single, caller.push(field), true) == (if hint {
                parted(hints, single, caller, true).push(field)
            } else {
                parted(hints, single, caller, true)
            })
            &&& parted(hints, single, caller.push(field), false) == (if hint {
                parted(hints, single, caller, false)
            } else {
                parted(hints, single, caller, false).push(field)
            })
        }),
{
    assert(caller.push(field).drop_last() =~= caller);
    assert forall|i: int| 0 <= i < single.len() implies (lowercase(#[trigger] single[i])
        == lowercase(field.name)) == same_letters(single[i], field.name) by {
        lower_case_ignores_ascii_case_alone(single[i], field.name);
    }
    let names = hint_names(hints);
    assert forall|i: int| 0 <= i < hints.len() implies (lowercase(names[i]) == lowercase(
        field.name,
    )) == same_letters((#[trigger] hints[i]).name, field.name) by {
        lower_case_ignores_ascii_case_alone(hints[i].name, field.name);
    }
    let hint = (exists|i: int|
        0 <= i < single.len() && same_letters(#[trigger] single[i], field.name)) || (exists|i: int|
        0 <= i < hints.len() && same_letters((#[trigger] hints[i]).name, field.name));
    assert(is_hint(hints, single, field.name) == hint) by {
        if named(names, field.name) {
            let i = choose|i: int|
                0 <= i < names.len() && lowercase(#[trigger] names[i]) == lowercase(field.name);
            assert(same_letters(hints[i].name, field.name));
        }
        if exists|i: int|
            0 <= i < hints.len() && same_letters((#[trigger] hints[i]).name, field.name) {
            let i = choose|i: int|
                0 <= i < hints.len() && same_letters((#[trigger] hints[i]).name, field.name);
            assert(lowercase(names[i]) == lowercase(field.name));
        }
    }
}

/// A request with a hint that servers have to ask for needs a template that
/// shows where such hints go, if it has a template; without one it goes out.
pub proof fn a_requested_hint_needs_its_place(
    hints: Seq<HintView>,
    asked: Option<Seq<usize>>,
    connection: Option<Seq<usize>>,
    caller: Seq<HeaderView>,
    template: TemplateView,
    i: int,
)
    requires
        0 <= i < hints.len(),
        hints[i].delivery == ClientHintDelivery::AcceptCh,
    ensures
        !misplaced(hints, asked, connection, caller, None),
        template.requested_client_hint_placement && template.slots.len() > 0 ==> !misplaced(
            hints,
            asked,
            connection,
            caller,
            Some(template),
        ),
        !(template.requested_client_hint_placement && template.slots.len() > 0) && (enabled(
            hints,
            asked,
            connection,
            i,
        ) || has_field(caller, hints[i].name)) ==> misplaced(
            hints,
            asked,
            connection,
            caller,
            Some(template),
        ),
{
    assert(hints[i].delivery == ClientHintDelivery::AcceptCh);
}

} // verus!
