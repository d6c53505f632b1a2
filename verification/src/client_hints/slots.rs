//! Where a request carries its hints.

use vstd::prelude::*;
use crate::client_hints::fields::{contains_field, has_field, lists, same_name};
use crate::client_hints::types::{
    texts, ClientHintDelivery, ClientHintSettings, ClientHintSlot, HintTemplate, HintView, SlotView,
    TemplateView,
};
use crate::endpoint::{headers_view, HeaderView, RequestHeader};
use crate::text::{lowercase, to_lowercase};

verus! {

/// What an optional list of positions holds.
pub open spec fn indices_view(indices: Option<Vec<usize>>) -> Option<Seq<usize>> {
    match indices {
        Some(indices) => Some(indices@),
        None => None,
    }
}

/// Whether an optional list holds a position.
pub open spec fn among(indices: Option<Seq<usize>>, i: int) -> bool {
    indices matches Some(indices) && indices.contains(i as usize)
}

/// Whether a request carries a hint of its own accord: by default, or because
/// the origin or the connection asked for it.
pub open spec fn enabled(
    hints: Seq<HintView>,
    asked: Option<Seq<usize>>,
    connection: Option<Seq<usize>>,
    i: int,
) -> bool {
    hints[i].delivery == ClientHintDelivery::Default || among(asked, i) || among(connection, i)
}

#[verifier::loop_isolation(false)]
fn holds(indices: &Option<Vec<usize>>, i: usize) -> (r: bool)
    ensures
        r == among(indices_view(*indices), i as int),
{
    match indices {
        Some(indices) => {
            let mut k: usize = 0;
            while k < indices.len()
                invariant
                    k <= indices@.len(),
                    forall|j: int| 0 <= j < k ==> #[trigger] indices@[j] != i,
                decreases indices@.len() - k,
            {
                if indices[k] == i {
                    return true;
                }
                k += 1;
            }
            false
        },
        None => false,
    }
}

fn is_enabled(
    settings: &ClientHintSettings,
    asked: &Option<Vec<usize>>,
    connection: &Option<Vec<usize>>,
    i: usize,
) -> (r: bool)
    requires
        i < settings@.len(),
    ensures
        r == enabled(settings@, indices_view(*asked), indices_view(*connection), i as int),
{
    settings.hints[i].delivery == ClientHintDelivery::Default || holds(asked, i) || holds(
        connection,
        i,
    )
}

/// A hint as a field.
pub open spec fn hint_field(hint: HintView) -> HeaderView {
    HeaderView { name: hint.name, value: hint.value }
}

/// Whether a caller supplies a field with this name, in any ASCII case.
pub open spec fn supplies(caller: Seq<HeaderView>, name: Seq<char>) -> bool {
    exists|i: int| 0 <= i < caller.len() && lowercase((#[trigger] caller[i]).name) == name
}

/// The first `n` hints that a request carries in front of the caller's
/// fields: those that are enabled and that the caller does not supply.
pub open spec fn automatic(
    hints: Seq<HintView>,
    asked: Option<Seq<usize>>,
    connection: Option<Seq<usize>>,
    caller: Seq<HeaderView>,
    n: nat,
) -> Seq<HeaderView>
    decreases n,
{
    if n == 0 {
        Seq::empty()
    } else {
        let before = automatic(hints, asked, connection, caller, (n - 1) as nat);
        if enabled(hints, asked, connection, n - 1) && !supplies(caller, hints[n - 1].name) {
            before.push(hint_field(hints[n - 1]))
        } else {
            before
        }
    }
}

fn is_supplied(caller: &Vec<RequestHeader>, name: &String) -> (r: bool)
    ensures
        r == supplies(headers_view(caller@), name@),
{
    let ghost all = headers_view(caller@);
    let mut i: usize = 0;
    while i < caller.len()
        invariant
            i <= caller@.len(),
            all == headers_view(caller@),
            forall|j: int| 0 <= j < i ==> lowercase((#[trigger] all[j]).name) != name@,
        decreases caller@.len() - i,
    {
        assert(all[i as int] == caller@[i as int]@);
        if to_lowercase(caller[i].name.as_str()) == *name {
            return true;
        }
        i += 1;
    }
    false
}

/// Appends fields to a list.
fn append_headers(list: &mut Vec<RequestHeader>, more: Vec<RequestHeader>)
    ensures
        headers_view(final(list)@) == headers_view(old(list)@) + headers_view(more@),
{
    let ghost all = headers_view(more@);
    let ghost before = headers_view(list@);
    let mut i: usize = 0;
    assert(before + all.take(0) =~= before);
    while i < more.len()
        invariant
            i <= more@.len(),
            all == headers_view(more@),
            headers_view(list@) == before + all.take(i as int),
        decreases more@.len() - i,
    {
        let ghost so_far = list@;
        list.push(more[i].clone());
        assert(headers_view(list@) =~= headers_view(so_far).push(all[i as int]));
        assert(before + all.take(i + 1) =~= (before + all.take(i as int)).push(all[i as int]));
        i += 1;
    }
    assert(all.take(i as int) =~= all);
}

fn prepare_in_front(
    settings: &ClientHintSettings,
    asked: &Option<Vec<usize>>,
    connection: &Option<Vec<usize>>,
    caller: Vec<RequestHeader>,
) -> (r: Vec<RequestHeader>)
    ensures
        headers_view(r@) == automatic(
            settings@,
            indices_view(*asked),
            indices_view(*connection),
            headers_view(caller@),
            settings@.len(),
        ) + headers_view(caller@),
{
    let mut prepared: Vec<RequestHeader> = Vec::new();
    let mut i: usize = 0;
    assert(headers_view(prepared@) =~= Seq::empty());
    while i < settings.hints.len()
        invariant
            i <= settings@.len(),
            headers_view(prepared@) == automatic(
                settings@,
                indices_view(*asked),
                indices_view(*connection),
                headers_view(caller@),
                i as nat,
            ),
        decreases settings@.len() - i,
    {
        let hint = &settings.hints[i];
        assert(settings@[i as int] == hint@);
        if is_enabled(settings, asked, connection, i) && !is_supplied(&caller, &hint.name) {
            let ghost before = prepared@;
            prepared.push(RequestHeader::new(hint.name.as_str(), hint.value.as_slice()));
            assert(headers_view(prepared@) =~= headers_view(before).push(hint_field(hint@)));
        }
        i += 1;
    }
    append_headers(&mut prepared, caller);
    prepared
}

/// The names of the slots for one hint.
pub open spec fn single_names(slots: Seq<SlotView>) -> Seq<Seq<char>>
    decreases slots.len(),
{
    if slots.len() == 0 {
        Seq::empty()
    } else {
        match slots.last().hint {
            Some(name) => single_names(slots.drop_last()).push(name),
            None => single_names(slots.drop_last()),
        }
    }
}

/// Whether a name is one of some names, in any ASCII case.
pub open spec fn named(names: Seq<Seq<char>>, name: Seq<char>) -> bool {
    exists|i: int| 0 <= i < names.len() && lowercase(#[trigger] names[i]) == lowercase(name)
}

/// The names of the first `n` hints.
pub open spec fn hint_names(hints: Seq<HintView>) -> Seq<Seq<char>> {
    hints.map_values(|hint: HintView| hint.name)
}

/// Whether a field goes into a slot.
pub open spec fn is_hint(hints: Seq<HintView>, single: Seq<Seq<char>>, name: Seq<char>) -> bool {
    named(single, name) || named(hint_names(hints), name)
}

/// The fields that go into slots, or the others.
pub open spec fn parted(
    hints: Seq<HintView>,
    single: Seq<Seq<char>>,
    caller: Seq<HeaderView>,
    into_slots: bool,
) -> Seq<HeaderView>
    decreases caller.len(),
{
    if caller.len() == 0 {
        Seq::empty()
    } else {
        let before = parted(hints, single, caller.drop_last(), into_slots);
        if is_hint(hints, single, caller.last().name) == into_slots {
            before.push(caller.last())
        } else {
            before
        }
    }
}

/// The fields with a name in any ASCII case, or the others.
pub open spec fn with_name(fields: Seq<HeaderView>, name: Seq<char>, same: bool) -> Seq<HeaderView>
    decreases fields.len(),
{
    if fields.len() == 0 {
        Seq::empty()
    } else {
        let before = with_name(fields.drop_last(), name, same);
        if (lowercase(fields.last().name) == lowercase(name)) == same {
            before.push(fields.last())
        } else {
            before
        }
    }
}

/// The names of the hints without a slot of their own.
pub open spec fn others(hints: Seq<HintView>, single: Seq<Seq<char>>) -> Seq<Seq<char>>
    decreases hints.len(),
{
    if hints.len() == 0 {
        Seq::empty()
    } else {
        let before = others(hints.drop_last(), single);
        if single.contains(hints.last().name) {
            before
        } else {
            before.push(hints.last().name)
        }
    }
}

/// The names of the hints that go into a slot.
pub open spec fn slot_names(
    hints: Seq<HintView>,
    single: Seq<Seq<char>>,
    slot: SlotView,
) -> Seq<Seq<char>> {
    match slot.hint {
        Some(name) => seq![name],
        None => others(hints, single),
    }
}

/// Whether the hint at `i` is the first enabled one with a name.
pub open spec fn first_enabled(
    hints: Seq<HintView>,
    asked: Option<Seq<usize>>,
    connection: Option<Seq<usize>>,
    name: Seq<char>,
    i: int,
) -> bool {
    &&& 0 <= i < hints.len()
    &&& hints[i].name == name
    &&& enabled(hints, asked, connection, i)
    &&& forall|j: int|
        0 <= j < i ==> !((#[trigger] hints[j]).name == name && enabled(hints, asked, connection, j))
}

/// The field of the first enabled hint with a name.
pub open spec fn own_field(
    hints: Seq<HintView>,
    asked: Option<Seq<usize>>,
    connection: Option<Seq<usize>>,
    name: Seq<char>,
) -> Seq<HeaderView> {
    if exists|i: int| first_enabled(hints, asked, connection, name, i) {
        seq![
            hint_field(
                hints[choose|i: int| first_enabled(hints, asked, connection, name, i)],
            ),
        ]
    } else {
        Seq::empty()
    }
}

/// The fields of a slot, and the supplied fields that are left: the caller's
/// fields for each name keep their values, and others come from the profile.
pub open spec fn slot_fields(
    hints: Seq<HintView>,
    asked: Option<Seq<usize>>,
    connection: Option<Seq<usize>>,
    supplied: Seq<HeaderView>,
    names: Seq<Seq<char>>,
) -> (Seq<HeaderView>, Seq<HeaderView>)
    decreases names.len(),
{
    if names.len() == 0 {
        (Seq::empty(), supplied)
    } else {
        let (group, left) = slot_fields(hints, asked, connection, supplied, names.drop_last());
        let name = names.last();
        let found = with_name(left, name, true);
        if found.len() == 0 {
            (group + own_field(hints, asked, connection, name), with_name(left, name, false))
        } else {
            (group + found, with_name(left, name, false))
        }
    }
}

/// Whether the field at `i` is the first with a name, in any ASCII case.
pub open spec fn first_named(fields: Seq<HeaderView>, name: Seq<char>, i: int) -> bool {
    &&& 0 <= i < fields.len()
    &&& lowercase(fields[i].name) == lowercase(name)
    &&& forall|j: int| 0 <= j < i ==> lowercase((#[trigger] fields[j]).name) != lowercase(name)
}

/// Where a slot goes in a list: in front of the first field that follows it.
pub open spec fn slot_place(fields: Seq<HeaderView>, followed_by: Seq<Seq<char>>) -> int
    decreases followed_by.len(),
{
    if followed_by.len() == 0 {
        fields.len() as int
    } else if exists|i: int| first_named(fields, followed_by[0], i) {
        choose|i: int| first_named(fields, followed_by[0], i)
    } else {
        slot_place(fields, followed_by.skip(1))
    }
}

/// A list with others put in at a place.
pub open spec fn spliced(
    fields: Seq<HeaderView>,
    place: int,
    group: Seq<HeaderView>,
) -> Seq<HeaderView> {
    fields.take(place) + group + fields.skip(place)
}

/// A list of fields, and the supplied ones that are left, once the first
/// slots were filled.
pub open spec fn filled(
    hints: Seq<HintView>,
    asked: Option<Seq<usize>>,
    connection: Option<Seq<usize>>,
    single: Seq<Seq<char>>,
    fields: Seq<HeaderView>,
    supplied: Seq<HeaderView>,
    slots: Seq<SlotView>,
) -> (Seq<HeaderView>, Seq<HeaderView>)
    decreases slots.len(),
{
    if slots.len() == 0 {
        (fields, supplied)
    } else {
        let (before, left) = filled(
            hints,
            asked,
            connection,
            single,
            fields,
            supplied,
            slots.drop_last(),
        );
        let slot = slots.last();
        let (group, rest) = slot_fields(
            hints,
            asked,
            connection,
            left,
            slot_names(hints, single, slot),
        );
        (spliced(before, slot_place(before, slot.followed_by), group), rest)
    }
}

/// The fields of a request whose template has slots for hints.
pub open spec fn in_slots(
    hints: Seq<HintView>,
    asked: Option<Seq<usize>>,
    connection: Option<Seq<usize>>,
    slots: Seq<SlotView>,
    caller: Seq<HeaderView>,
) -> Seq<HeaderView> {
    let single = single_names(slots);
    let (fields, left) = filled(
        hints,
        asked,
        connection,
        single,
        parted(hints, single, caller, false),
        parted(hints, single, caller, true),
        slots,
    );
    fields + left
}

/// The fields of a request: in the slots of its template, or in front of the
/// caller's.
pub open spec fn prepared(
    hints: Seq<HintView>,
    asked: Option<Seq<usize>>,
    connection: Option<Seq<usize>>,
    caller: Seq<HeaderView>,
    template: Option<TemplateView>,
) -> Seq<HeaderView> {
    match template {
        Some(template) => if template.slots.len() > 0 {
            in_slots(hints, asked, connection, template.slots, caller)
        } else {
            automatic(hints, asked, connection, caller, hints.len()) + caller
        },
        None => automatic(hints, asked, connection, caller, hints.len()) + caller,
    }
}

/// Whether a request carries a hint that servers have to ask for.
pub open spec fn carries_requested(
    hints: Seq<HintView>,
    asked: Option<Seq<usize>>,
    connection: Option<Seq<usize>>,
    caller: Seq<HeaderView>,
) -> bool {
    exists|i: int|
        0 <= i < hints.len() && (#[trigger] hints[i]).delivery == ClientHintDelivery::AcceptCh && (
        enabled(hints, asked, connection, i) || has_field(caller, hints[i].name))
}

/// Whether a template shows no place for the requested hints of a request.
pub open spec fn misplaced(
    hints: Seq<HintView>,
    asked: Option<Seq<usize>>,
    connection: Option<Seq<usize>>,
    caller: Seq<HeaderView>,
    template: Option<TemplateView>,
) -> bool {
    template matches Some(template) && !(template.requested_client_hint_placement
        && template.slots.len() > 0) && carries_requested(hints, asked, connection, caller)
}

fn push_copy(list: &mut Vec<RequestHeader>, header: &RequestHeader)
    ensures
        headers_view(final(list)@) == headers_view(old(list)@).push(header@),
{
    let ghost before = list@;
    list.push(header.clone());
    assert(headers_view(list@) =~= headers_view(before).push(header@));
}

fn collect_single(slots: &Vec<ClientHintSlot>) -> (r: Vec<String>)
    ensures
        texts(r@) == single_names(slots@.map_values(|slot: ClientHintSlot| slot@)),
{
    let ghost all = slots@.map_values(|slot: ClientHintSlot| slot@);
    let mut names: Vec<String> = Vec::new();
    let mut i: usize = 0;
    assert(all.take(0) =~= Seq::empty());
    assert(texts(names@) =~= Seq::empty());
    while i < slots.len()
        invariant
            i <= slots@.len(),
            all == slots@.map_values(|slot: ClientHintSlot| slot@),
            texts(names@) == single_names(all.take(i as int)),
        decreases slots@.len() - i,
    {
        assert(all.take(i + 1).drop_last() =~= all.take(i as int));
        assert(all.take(i + 1).last() == slots@[i as int]@);
        match &slots[i].hint {
            Some(name) => {
                let ghost before = names@;
                names.push(name.clone());
                assert(texts(names@) =~= texts(before).push(name@));
            },
            None => {},
        }
        i += 1;
    }
    assert(all.take(i as int) =~= all);
    names
}

fn collect_hint_names(settings: &ClientHintSettings) -> (r: Vec<String>)
    ensures
        texts(r@) == hint_names(settings@),
{
    let mut names: Vec<String> = Vec::new();
    let mut i: usize = 0;
    while i < settings.hints.len()
        invariant
            i <= settings@.len(),
            names@.len() == i,
            forall|j: int| 0 <= j < i ==> (#[trigger] names@[j])@ == settings@[j].name,
        decreases settings@.len() - i,
    {
        names.push(settings.hints[i].name.clone());
        i += 1;
    }
    assert(texts(names@) =~= hint_names(settings@));
    names
}

fn is_named(names: &Vec<String>, name: &str) -> (r: bool)
    ensures
        r == named(texts(names@), name@),
{
    let mut i: usize = 0;
    while i < names.len()
        invariant
            i <= names@.len(),
            forall|j: int| 0 <= j < i ==> lowercase(#[trigger] texts(names@)[j]) != lowercase(name@),
        decreases names@.len() - i,
    {
        assert(texts(names@)[i as int] == names@[i as int]@);
        if same_name(names[i].as_str(), name) {
            return true;
        }
        i += 1;
    }
    false
}

fn part(
    single: &Vec<String>,
    all_names: &Vec<String>,
    caller: &Vec<RequestHeader>,
    Ghost(hints): Ghost<Seq<HintView>>,
) -> (r: (Vec<RequestHeader>, Vec<RequestHeader>))
    requires
        texts(all_names@) == hint_names(hints),
    ensures
        headers_view(r.0@) == parted(hints, texts(single@), headers_view(caller@), true),
        headers_view(r.1@) == parted(hints, texts(single@), headers_view(caller@), false),
{
    let ghost all = headers_view(caller@);
    let mut supplied: Vec<RequestHeader> = Vec::new();
    let mut fields: Vec<RequestHeader> = Vec::new();
    let mut i: usize = 0;
    assert(all.take(0) =~= Seq::empty());
    assert(headers_view(supplied@) =~= Seq::empty());
    assert(headers_view(fields@) =~= Seq::empty());
    while i < caller.len()
        invariant
            i <= caller@.len(),
            all == headers_view(caller@),
            texts(all_names@) == hint_names(hints),
            headers_view(supplied@) == parted(hints, texts(single@), all.take(i as int), true),
            headers_view(fields@) == parted(hints, texts(single@), all.take(i as int), false),
        decreases caller@.len() - i,
    {
        assert(all.take(i + 1).drop_last() =~= all.take(i as int));
        assert(all.take(i + 1).last() == caller@[i as int]@);
        let name = caller[i].name.as_str();
        if is_named(single, name) || is_named(all_names, name) {
            push_copy(&mut supplied, &caller[i]);
        } else {
            push_copy(&mut fields, &caller[i]);
        }
        i += 1;
    }
    assert(all.take(i as int) =~= all);
    (supplied, fields)
}

fn split_name(fields: &Vec<RequestHeader>, name: &str) -> (r: (
    Vec<RequestHeader>,
    Vec<RequestHeader>,
))
    ensures
        headers_view(r.0@) == with_name(headers_view(fields@), name@, true),
        headers_view(r.1@) == with_name(headers_view(fields@), name@, false),
{
    let ghost all = headers_view(fields@);
    let mut found: Vec<RequestHeader> = Vec::new();
    let mut left: Vec<RequestHeader> = Vec::new();
    let mut i: usize = 0;
    assert(all.take(0) =~= Seq::empty());
    assert(headers_view(found@) =~= Seq::empty());
    assert(headers_view(left@) =~= Seq::empty());
    while i < fields.len()
        invariant
            i <= fields@.len(),
            all == headers_view(fields@),
            headers_view(found@) == with_name(all.take(i as int), name@, true),
            headers_view(left@) == with_name(all.take(i as int), name@, false),
        decreases fields@.len() - i,
    {
        assert(all.take(i + 1).drop_last() =~= all.take(i as int));
        assert(all.take(i + 1).last() == fields@[i as int]@);
        if same_name(fields[i].name.as_str(), name) {
            push_copy(&mut found, &fields[i]);
        } else {
            push_copy(&mut left, &fields[i]);
        }
        i += 1;
    }
    assert(all.take(i as int) =~= all);
    (found, left)
}

fn collect_others(settings: &ClientHintSettings, single: &Vec<String>) -> (r: Vec<String>)
    ensures
        texts(r@) == others(settings@, texts(single@)),
{
    let ghost hints = settings@;
    let mut names: Vec<String> = Vec::new();
    let mut i: usize = 0;
    assert(hints.take(0) =~= Seq::empty());
    assert(texts(names@) =~= Seq::empty());
    while i < settings.hints.len()
        invariant
            i <= hints.len(),
            hints == settings@,
            texts(names@) == others(hints.take(i as int), texts(single@)),
        decreases hints.len() - i,
    {
        assert(hints.take(i + 1).drop_last() =~= hints.take(i as int));
        assert(hints.take(i + 1).last() == settings.hints@[i as int]@);
        if !lists(single, &settings.hints[i].name) {
            let ghost before = names@;
            names.push(settings.hints[i].name.clone());
            assert(texts(names@) =~= texts(before).push(hints[i as int].name));
        }
        i += 1;
    }
    assert(hints.take(i as int) =~= hints);
    names
}

fn push_own(
    group: &mut Vec<RequestHeader>,
    settings: &ClientHintSettings,
    asked: &Option<Vec<usize>>,
    connection: &Option<Vec<usize>>,
    name: &String,
)
    ensures
        headers_view(final(group)@) == headers_view(old(group)@) + own_field(
            settings@,
            indices_view(*asked),
            indices_view(*connection),
            name@,
        ),
{
    let ghost hints = settings@;
    let ghost (a, c) = (indices_view(*asked), indices_view(*connection));
    let mut i: usize = 0;
    while i < settings.hints.len()
        invariant
            i <= hints.len(),
            hints == settings@,
            (a, c) == (indices_view(*asked), indices_view(*connection)),
            *group == *old(group),
            forall|j: int|
                0 <= j < i ==> !((#[trigger] hints[j]).name == name@ && enabled(hints, a, c, j)),
        decreases hints.len() - i,
    {
        let hint = &settings.hints[i];
        assert(hints[i as int] == hint@);
        if hint.name == *name && is_enabled(settings, asked, connection, i) {
            let ghost before = group@;
            proof {
                assert(first_enabled(hints, a, c, name@, i as int));
                let k = choose|k: int| first_enabled(hints, a, c, name@, k);
                if k < i {
                    assert(!(hints[k].name == name@ && enabled(hints, a, c, k)));
                } else if i < k {
                    assert(!(hints[i as int].name == name@ && enabled(hints, a, c, i as int)));
                }
            }
            group.push(RequestHeader::new(hint.name.as_str(), hint.value.as_slice()));
            assert(headers_view(group@) =~= headers_view(before) + seq![hint_field(hint@)]);
            return;
        }
        i += 1;
    }
    assert forall|k: int| !first_enabled(hints, a, c, name@, k) by {
        if first_enabled(hints, a, c, name@, k) {
            assert(!(hints[k].name == name@ && enabled(hints, a, c, k)));
        }
    }
    assert(headers_view(group@) =~= headers_view(group@) + Seq::empty());
}

fn slot_group(
    settings: &ClientHintSettings,
    asked: &Option<Vec<usize>>,
    connection: &Option<Vec<usize>>,
    supplied: Vec<RequestHeader>,
    names: &Vec<String>,
) -> (r: (Vec<RequestHeader>, Vec<RequestHeader>))
    ensures
        (headers_view(r.0@), headers_view(r.1@)) == slot_fields(
            settings@,
            indices_view(*asked),
            indices_view(*connection),
            headers_view(supplied@),
            texts(names@),
        ),
{
    let ghost all = texts(names@);
    let ghost given = headers_view(supplied@);
    let mut left = supplied;
    let mut group: Vec<RequestHeader> = Vec::new();
    let mut i: usize = 0;
    assert(all.take(0) =~= Seq::empty());
    assert(headers_view(group@) =~= Seq::empty());
    while i < names.len()
        invariant
            i <= names@.len(),
            all == texts(names@),
            (headers_view(group@), headers_view(left@)) == slot_fields(
                settings@,
                indices_view(*asked),
                indices_view(*connection),
                given,
                all.take(i as int),
            ),
        decreases names@.len() - i,
    {
        assert(all.take(i + 1).drop_last() =~= all.take(i as int));
        assert(all.take(i + 1).last() == names@[i as int]@);
        let (found, rest) = split_name(&left, names[i].as_str());
        if found.len() == 0 {
            assert(headers_view(found@).len() == 0);
            push_own(&mut group, settings, asked, connection, &names[i]);
        } else {
            assert(headers_view(found@).len() > 0);
            append_headers(&mut group, found);
        }
        left = rest;
        i += 1;
    }
    assert(all.take(i as int) =~= all);
    (group, left)
}

fn find_named(fields: &Vec<RequestHeader>, name: &str) -> (r: Option<usize>)
    ensures
        match r {
            Some(i) => first_named(headers_view(fields@), name@, i as int),
            None => forall|i: int| !first_named(headers_view(fields@), name@, i),
        },
{
    let ghost all = headers_view(fields@);
    let mut i: usize = 0;
    while i < fields.len()
        invariant
            i <= fields@.len(),
            all == headers_view(fields@),
            forall|j: int| 0 <= j < i ==> lowercase((#[trigger] all[j]).name) != lowercase(name@),
        decreases fields@.len() - i,
    {
        assert(all[i as int] == fields@[i as int]@);
        if same_name(fields[i].name.as_str(), name) {
            return Some(i);
        }
        i += 1;
    }
    None
}

proof fn lemma_first_named(fields: Seq<HeaderView>, name: Seq<char>, i: int, j: int)
    requires
        first_named(fields, name, i),
        first_named(fields, name, j),
    ensures
        i == j,
{
    if i < j {
        assert(lowercase(fields[i].name) != lowercase(name));
    } else if j < i {
        assert(lowercase(fields[j].name) != lowercase(name));
    }
}

fn find_place(fields: &Vec<RequestHeader>, followed_by: &Vec<String>) -> (r: usize)
    ensures
        r == slot_place(headers_view(fields@), texts(followed_by@)),
        r <= fields@.len(),
{
    let ghost all = texts(followed_by@);
    let ghost list = headers_view(fields@);
    let mut i: usize = 0;
    assert(all.skip(0) =~= all);
    while i < followed_by.len()
        invariant
            i <= followed_by@.len(),
            all == texts(followed_by@),
            list == headers_view(fields@),
            slot_place(list, all) == slot_place(list, all.skip(i as int)),
        decreases followed_by@.len() - i,
    {
        assert(all.skip(i as int)[0] == followed_by@[i as int]@);
        assert(all.skip(i as int).skip(1) =~= all.skip(i + 1));
        match find_named(fields, followed_by[i].as_str()) {
            Some(place) => {
                proof {
                    let name = followed_by@[i as int]@;
                    let k = choose|k: int| first_named(list, name, k);
                    lemma_first_named(list, name, place as int, k);
                }
                return place;
            },
            None => {},
        }
        i += 1;
    }
    fields.len()
}

fn splice(fields: Vec<RequestHeader>, place: usize, group: Vec<RequestHeader>) -> (r: Vec<
    RequestHeader,
>)
    requires
        place <= fields@.len(),
    ensures
        headers_view(r@) == spliced(headers_view(fields@), place as int, headers_view(group@)),
{
    let ghost all = headers_view(fields@);
    let mut out: Vec<RequestHeader> = Vec::new();
    let mut i: usize = 0;
    assert(headers_view(out@) =~= all.take(0));
    while i < place
        invariant
            i <= place <= fields@.len(),
            all == headers_view(fields@),
            headers_view(out@) == all.take(i as int),
        decreases place - i,
    {
        push_copy(&mut out, &fields[i]);
        assert(all.take(i + 1) =~= all.take(i as int).push(all[i as int]));
        i += 1;
    }
    append_headers(&mut out, group);
    let ghost head = headers_view(out@);
    assert(head + all.skip(place as int).take(0) =~= head);
    while i < fields.len()
        invariant
            place <= i <= fields@.len(),
            all == headers_view(fields@),
            headers_view(out@) == head + all.skip(place as int).take(i - place),
        decreases fields@.len() - i,
    {
        push_copy(&mut out, &fields[i]);
        assert(head + all.skip(place as int).take(i + 1 - place) =~= (head + all.skip(
            place as int,
        ).take(i - place)).push(all[i as int]));
        i += 1;
    }
    assert(all.skip(place as int).take(i - place) =~= all.skip(place as int));
    out
}

/// Rebuilds each client-hint slot of an expanded template field list.
///
/// Caller fields for a slot's hints keep their values; other enabled hints
/// get the profile value. Each slot's fields are inserted before the first
/// present field that follows the slot in the template.
pub fn place_in_slots(
    settings: &ClientHintSettings,
    asked: &Option<Vec<usize>>,
    connection: &Option<Vec<usize>>,
    slots: &Vec<ClientHintSlot>,
    caller: Vec<RequestHeader>,
) -> (r: Vec<RequestHeader>)
    ensures
        headers_view(r@) == in_slots(
            settings@,
            indices_view(*asked),
            indices_view(*connection),
            slots@.map_values(|slot: ClientHintSlot| slot@),
            headers_view(caller@),
        ),
{
    let ghost all = slots@.map_values(|slot: ClientHintSlot| slot@);
    let single = collect_single(slots);
    let all_names = collect_hint_names(settings);
    let (supplied, rest) = part(&single, &all_names, &caller, Ghost(settings@));
    let ghost given = headers_view(supplied@);
    let ghost start = headers_view(rest@);
    let mut left = supplied;
    let mut fields = rest;
    let mut i: usize = 0;
    assert(all.take(0) =~= Seq::empty());
    while i < slots.len()
        invariant
            i <= slots@.len(),
            all == slots@.map_values(|slot: ClientHintSlot| slot@),
            (headers_view(fields@), headers_view(left@)) == filled(
                settings@,
                indices_view(*asked),
                indices_view(*connection),
                texts(single@),
                start,
                given,
                all.take(i as int),
            ),
        decreases slots@.len() - i,
    {
        assert(all.take(i + 1).drop_last() =~= all.take(i as int));
        assert(all.take(i + 1).last() == slots@[i as int]@);
        let names: Vec<String> = match &slots[i].hint {
            Some(name) => {
                let mut names: Vec<String> = Vec::new();
                names.push(name.clone());
                assert(texts(names@) =~= seq![name@]);
                names
            },
            None => collect_others(settings, &single),
        };
        let (group, rest) = slot_group(settings, asked, connection, left, &names);
        left = rest;
        let place: usize = find_place(&fields, &slots[i].followed_by);
        fields = splice(fields, place, group);
        i += 1;
    }
    assert(all.take(i as int) =~= all);
    append_headers(&mut fields, left);
    fields
}

/// What an optional template holds.
pub open spec fn template_view(template: Option<&HintTemplate>) -> Option<TemplateView> {
    match template {
        Some(template) => Some(template@),
        None => None,
    }
}

/// Puts a request's hints in the slots of its template, or in front of the
/// caller's fields.
pub fn prepare_fields(
    settings: &ClientHintSettings,
    asked: &Option<Vec<usize>>,
    connection: &Option<Vec<usize>>,
    caller: Vec<RequestHeader>,
    template: Option<&HintTemplate>,
) -> (r: Vec<RequestHeader>)
    ensures
        headers_view(r@) == prepared(
            settings@,
            indices_view(*asked),
            indices_view(*connection),
            headers_view(caller@),
            template_view(template),
        ),
{
    match template {
        Some(template) => if template.slots.len() > 0 {
            return place_in_slots(settings, asked, connection, &template.slots, caller);
        },
        None => {},
    }
    prepare_in_front(settings, asked, connection, caller)
}

pub(crate) fn is_carrying_requested(
    settings: &ClientHintSettings,
    asked: &Option<Vec<usize>>,
    connection: &Option<Vec<usize>>,
    caller: &Vec<RequestHeader>,
) -> (r: bool)
    ensures
        r == carries_requested(
            settings@,
            indices_view(*asked),
            indices_view(*connection),
            headers_view(caller@),
        ),
{
    let ghost (a, c) = (indices_view(*asked), indices_view(*connection));
    let mut i: usize = 0;
    while i < settings.hints.len()
        invariant
            i <= settings@.len(),
            (a, c) == (indices_view(*asked), indices_view(*connection)),
            forall|j: int|
                0 <= j < i ==> !((#[trigger] settings@[j]).delivery == ClientHintDelivery::AcceptCh
                    && (enabled(settings@, a, c, j) || has_field(
                    headers_view(caller@),
                    settings@[j].name,
                ))),
        decreases settings@.len() - i,
    {
        let hint = &settings.hints[i];
        assert(settings@[i as int] == hint@);
        if hint.delivery == ClientHintDelivery::AcceptCh && (is_enabled(
            settings,
            asked,
            connection,
            i,
        ) || contains_field(caller, hint.name.as_str())) {
            return true;
        }
        i += 1;
    }
    false
}

} // verus!
