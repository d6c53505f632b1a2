//! What holds of client hints across calls.

use vstd::prelude::*;
use crate::client_hints::context::{connection_hints, ClientHintContext};
use crate::client_hints::fields::{asks, has_field, lemma_requested, requested, retries};
use crate::client_hints::slots::{
    automatic, enabled, filled, first_enabled, hint_field, is_hint, misplaced, own_field, parted,
    prepared, single_names, slot_fields, slot_names, slot_place, spliced, supplies, template_view,
    with_name,
};
use crate::client_hints::store::{asked_for, Asked};
use crate::client_hints::types::{HintView, SlotView, TemplateView};
use crate::endpoint::{origin_of, HeaderView, OriginView};
use crate::lru::{
    lemma_position, lemma_position_none, lemma_pushed, lemma_skip_first, lemma_stored, lemma_touched,
    lemma_without, lookup, stored, touched, unique_keys, with_room, without,
};
use crate::text::lowercase;

verus! {

/// Preparing a request changes what no origin asked for.
pub proof fn preparing_keeps_what_origins_asked_for(
    entries: Asked,
    origin: OriginView,
    other: OriginView,
)
    requires
        unique_keys(entries),
    ensures
        lookup(touched(entries, origin), other) == lookup(entries, other),
{
    lemma_touched(entries, origin);
}

/// What an origin asks for in a list of tokens is what is remembered of it.
pub proof fn learned_hints_are_remembered(
    entries: Asked,
    origin: OriginView,
    asked: Seq<usize>,
    capacity: nat,
)
    requires
        unique_keys(entries),
        entries.len() <= capacity,
        capacity > 0,
        asked.len() > 0,
    ensures
        lookup(asked_for(entries, origin, asked, capacity), origin) == Some(asked),
{
    lemma_stored(entries, origin, asked, capacity);
}

proof fn lemma_automatic(
    hints: Seq<HintView>,
    asked: Option<Seq<usize>>,
    connection: Option<Seq<usize>>,
    caller: Seq<HeaderView>,
    n: nat,
    i: int,
)
    requires
        0 <= i < n <= hints.len(),
        enabled(hints, asked, connection, i),
        !supplies(caller, hints[i].name),
    ensures
        automatic(hints, asked, connection, caller, n).contains(hint_field(hints[i])),
    decreases n,
{
    let all = automatic(hints, asked, connection, caller, n);
    let before = automatic(hints, asked, connection, caller, (n - 1) as nat);
    if i < n - 1 {
        lemma_automatic(hints, asked, connection, caller, (n - 1) as nat, i);
        let k = choose|k: int| 0 <= k < before.len() && before[k] == hint_field(hints[i]);
        assert(all[k] == hint_field(hints[i]));
    } else {
        assert(all[before.len() as int] == hint_field(hints[i]));
    }
}

/// A request without a template carries every hint that is enabled: the
/// caller's field where there is one, else the profile's.
pub proof fn enabled_hints_are_carried(
    hints: Seq<HintView>,
    asked: Option<Seq<usize>>,
    connection: Option<Seq<usize>>,
    caller: Seq<HeaderView>,
    i: int,
)
    requires
        0 <= i < hints.len(),
        enabled(hints, asked, connection, i),
        lowercase(hints[i].name) == hints[i].name,
    ensures
        has_field(prepared(hints, asked, connection, caller, None), hints[i].name),
        !supplies(caller, hints[i].name) ==> prepared(
            hints,
            asked,
            connection,
            caller,
            None,
        ).contains(hint_field(hints[i])),
{
    let front = automatic(hints, asked, connection, caller, hints.len());
    let all = prepared(hints, asked, connection, caller, None);
    if supplies(caller, hints[i].name) {
        let k = choose|k: int|
            0 <= k < caller.len() && lowercase((#[trigger] caller[k]).name) == hints[i].name;
        assert(all[front.len() + k] == caller[k]);
    } else {
        lemma_automatic(hints, asked, connection, caller, hints.len(), i);
        let k = choose|k: int| 0 <= k < front.len() && front[k] == hint_field(hints[i]);
        assert(all[k] == hint_field(hints[i]));
    }
}

/// A request that carries what the origin asked for is not sent again, however
/// critical the origin calls its hints.
pub proof fn a_retry_is_not_repeated(
    hints: Seq<HintView>,
    tokens: Seq<Seq<char>>,
    critical: Seq<Seq<char>>,
    connection: Option<Seq<usize>>,
    caller: Seq<HeaderView>,
)
    requires
        hints.len() <= usize::MAX,
        forall|i: int| 0 <= i < hints.len() ==> lowercase((#[trigger] hints[i]).name) == hints[i].name,
    ensures
        !retries(
            hints,
            requested(hints, tokens),
            critical,
            prepared(hints, Some(requested(hints, tokens)), connection, caller, None),
        ),
{
    let asked = requested(hints, tokens);
    lemma_requested(hints, tokens);
    assert forall|k: int| 0 <= k < asked.len() implies has_field(
        prepared(hints, Some(asked), connection, caller, None),
        hints[(#[trigger] asked[k]) as int].name,
    ) by {
        let i = asked[k] as int;
        assert(asked.contains(asked[k]));
        assert(lowercase(hints[i].name) == hints[i].name);
        enabled_hints_are_carried(hints, Some(asked), connection, caller, i);
    }
}

proof fn lemma_parted(
    hints: Seq<HintView>,
    single: Seq<Seq<char>>,
    caller: Seq<HeaderView>,
    i: int,
)
    requires
        0 <= i < caller.len(),
    ensures
        parted(hints, single, caller, is_hint(hints, single, caller[i].name)).contains(caller[i]),
    decreases caller.len(),
{
    let into = is_hint(hints, single, caller[i].name);
    let front = caller.drop_last();
    let before = parted(hints, single, front, into);
    let all = parted(hints, single, caller, into);
    if i < front.len() {
        lemma_parted(hints, single, front, i);
        let k = choose|k: int| 0 <= k < before.len() && before[k] == caller[i];
        assert(all[k] == caller[i]);
    } else {
        assert(all[before.len() as int] == caller[i]);
    }
}

proof fn lemma_with_name(fields: Seq<HeaderView>, name: Seq<char>, i: int)
    requires
        0 <= i < fields.len(),
    ensures
        with_name(fields, name, lowercase(fields[i].name) == lowercase(name)).contains(fields[i]),
    decreases fields.len(),
{
    let same = lowercase(fields[i].name) == lowercase(name);
    let front = fields.drop_last();
    let before = with_name(front, name, same);
    let all = with_name(fields, name, same);
    if i < front.len() {
        lemma_with_name(front, name, i);
        let k = choose|k: int| 0 <= k < before.len() && before[k] == fields[i];
        assert(all[k] == fields[i]);
    } else {
        assert(all[before.len() as int] == fields[i]);
    }
}

proof fn lemma_slot_keeps(
    hints: Seq<HintView>,
    asked: Option<Seq<usize>>,
    connection: Option<Seq<usize>>,
    supplied: Seq<HeaderView>,
    names: Seq<Seq<char>>,
    field: HeaderView,
)
    requires
        supplied.contains(field),
    ensures
        ({
            let (group, left) = slot_fields(hints, asked, connection, supplied, names);
            group.contains(field) || left.contains(field)
        }),
    decreases names.len(),
{
    if names.len() > 0 {
        lemma_slot_keeps(hints, asked, connection, supplied, names.drop_last(), field);
        let (before, rest) = slot_fields(hints, asked, connection, supplied, names.drop_last());
        let (group, left) = slot_fields(hints, asked, connection, supplied, names);
        let name = names.last();
        if before.contains(field) {
            let k = choose|k: int| 0 <= k < before.len() && before[k] == field;
            assert(group[k] == field);
        } else {
            let k = choose|k: int| 0 <= k < rest.len() && rest[k] == field;
            lemma_with_name(rest, name, k);
            let found = with_name(rest, name, true);
            if lowercase(field.name) == lowercase(name) {
                let m = choose|m: int| 0 <= m < found.len() && found[m] == field;
                assert(group[before.len() + m] == field);
            }
        }
    }
}

proof fn lemma_spliced(
    fields: Seq<HeaderView>,
    place: int,
    group: Seq<HeaderView>,
    field: HeaderView,
)
    requires
        0 <= place <= fields.len(),
        fields.contains(field) || group.contains(field),
    ensures
        spliced(fields, place, group).contains(field),
{
    let all = spliced(fields, place, group);
    if group.contains(field) {
        let k = choose|k: int| 0 <= k < group.len() && group[k] == field;
        assert(all[place + k] == field);
    } else {
        let k = choose|k: int| 0 <= k < fields.len() && fields[k] == field;
        if k < place {
            assert(all[k] == field);
        } else {
            assert(all[group.len() + k] == field);
        }
    }
}

proof fn lemma_slot_place(fields: Seq<HeaderView>, followed_by: Seq<Seq<char>>)
    ensures
        0 <= slot_place(fields, followed_by) <= fields.len(),
    decreases followed_by.len(),
{
    if followed_by.len() > 0 {
        lemma_slot_place(fields, followed_by.skip(1));
    }
}

proof fn lemma_filled_keeps(
    hints: Seq<HintView>,
    asked: Option<Seq<usize>>,
    connection: Option<Seq<usize>>,
    single: Seq<Seq<char>>,
    fields: Seq<HeaderView>,
    supplied: Seq<HeaderView>,
    slots: Seq<SlotView>,
    field: HeaderView,
)
    requires
        fields.contains(field) || supplied.contains(field),
    ensures
        ({
            let (all, left) = filled(hints, asked, connection, single, fields, supplied, slots);
            all.contains(field) || left.contains(field)
        }),
    decreases slots.len(),
{
    if slots.len() > 0 {
        let front = slots.drop_last();
        lemma_filled_keeps(
            hints,
            asked,
            connection,
            single,
            fields,
            supplied,
            front,
            field,
        );
        let (before, left) = filled(hints, asked, connection, single, fields, supplied, front);
        let slot = slots.last();
        let names = slot_names(hints, single, slot);
        let (group, rest) = slot_fields(hints, asked, connection, left, names);
        lemma_slot_place(before, slot.followed_by);
        let place = slot_place(before, slot.followed_by);
        if before.contains(field) {
            lemma_spliced(before, place, group, field);
        } else {
            lemma_slot_keeps(hints, asked, connection, left, names, field);
            if group.contains(field) {
                lemma_spliced(before, place, group, field);
            }
        }
    }
}

/// No field of the caller is lost, with or without a template.
pub proof fn caller_fields_are_kept(
    hints: Seq<HintView>,
    asked: Option<Seq<usize>>,
    connection: Option<Seq<usize>>,
    caller: Seq<HeaderView>,
    template: Option<TemplateView>,
    i: int,
)
    requires
        0 <= i < caller.len(),
    ensures
        prepared(hints, asked, connection, caller, template).contains(caller[i]),
{
    let all = prepared(hints, asked, connection, caller, template);
    let front = automatic(hints, asked, connection, caller, hints.len());
    let slots = match template {
        Some(template) => template.slots,
        None => Seq::empty(),
    };
    if slots.len() > 0 {
        let single = single_names(slots);
        lemma_parted(hints, single, caller, i);
        let supplied = parted(hints, single, caller, true);
        let others = parted(hints, single, caller, false);
        lemma_filled_keeps(
            hints,
            asked,
            connection,
            single,
            others,
            supplied,
            slots,
            caller[i],
        );
        let (fields, left) = filled(hints, asked, connection, single, others, supplied, slots);
        assert(all == fields + left);
        if fields.contains(caller[i]) {
            let k = choose|k: int| 0 <= k < fields.len() && fields[k] == caller[i];
            assert(all[k] == caller[i]);
        } else {
            let k = choose|k: int| 0 <= k < left.len() && left[k] == caller[i];
            assert(all[fields.len() + k] == caller[i]);
        }
    } else {
        assert(all[front.len() + i] == caller[i]);
    }
}

/// Whether a field is the caller's, or that of a hint that is enabled.
pub open spec fn accounted(
    hints: Seq<HintView>,
    asked: Option<Seq<usize>>,
    connection: Option<Seq<usize>>,
    caller: Seq<HeaderView>,
    field: HeaderView,
) -> bool {
    caller.contains(field) || exists|i: int|
        0 <= i < hints.len() && enabled(hints, asked, connection, i) && field == hint_field(
            #[trigger] hints[i],
        )
}

/// Whether every field of a list is accounted for.
spec fn all_accounted(
    hints: Seq<HintView>,
    asked: Option<Seq<usize>>,
    connection: Option<Seq<usize>>,
    caller: Seq<HeaderView>,
    fields: Seq<HeaderView>,
) -> bool {
    forall|k: int|
        0 <= k < fields.len() ==> accounted(hints, asked, connection, caller, #[trigger] fields[k])
}

proof fn lemma_automatic_accounted(
    hints: Seq<HintView>,
    asked: Option<Seq<usize>>,
    connection: Option<Seq<usize>>,
    caller: Seq<HeaderView>,
    n: nat,
)
    requires
        n <= hints.len(),
    ensures
        all_accounted(
            hints,
            asked,
            connection,
            caller,
            automatic(hints, asked, connection, caller, n),
        ),
    decreases n,
{
    if n > 0 {
        lemma_automatic_accounted(hints, asked, connection, caller, (n - 1) as nat);
    }
}

proof fn lemma_parted_within(
    hints: Seq<HintView>,
    single: Seq<Seq<char>>,
    caller: Seq<HeaderView>,
    into: bool,
)
    ensures
        forall|k: int|
            0 <= k < parted(hints, single, caller, into).len() ==> caller.contains(
                #[trigger] parted(hints, single, caller, into)[k],
            ),
    decreases caller.len(),
{
    if caller.len() > 0 {
        let front = caller.drop_last();
        lemma_parted_within(hints, single, front, into);
        let before = parted(hints, single, front, into);
        let all = parted(hints, single, caller, into);
        assert forall|k: int| 0 <= k < all.len() implies caller.contains(#[trigger] all[k]) by {
            if k < before.len() {
                assert(front.contains(before[k]));
                let m = choose|m: int| 0 <= m < front.len() && front[m] == before[k];
                assert(caller[m] == all[k]);
            } else {
                assert(all[k] == caller[caller.len() - 1]);
            }
        }
    }
}

proof fn lemma_with_name_within(fields: Seq<HeaderView>, name: Seq<char>, same: bool)
    ensures
        forall|k: int|
            0 <= k < with_name(fields, name, same).len() ==> fields.contains(
                #[trigger] with_name(fields, name, same)[k],
            ),
    decreases fields.len(),
{
    if fields.len() > 0 {
        let front = fields.drop_last();
        lemma_with_name_within(front, name, same);
        let before = with_name(front, name, same);
        let all = with_name(fields, name, same);
        assert forall|k: int| 0 <= k < all.len() implies fields.contains(#[trigger] all[k]) by {
            if k < before.len() {
                assert(front.contains(before[k]));
                let m = choose|m: int| 0 <= m < front.len() && front[m] == before[k];
                assert(fields[m] == all[k]);
            } else {
                assert(all[k] == fields[fields.len() - 1]);
            }
        }
    }
}

proof fn lemma_slot_accounted(
    hints: Seq<HintView>,
    asked: Option<Seq<usize>>,
    connection: Option<Seq<usize>>,
    caller: Seq<HeaderView>,
    supplied: Seq<HeaderView>,
    names: Seq<Seq<char>>,
)
    requires
        all_accounted(hints, asked, connection, caller, supplied),
    ensures
        all_accounted(
            hints,
            asked,
            connection,
            caller,
            slot_fields(hints, asked, connection, supplied, names).0,
        ),
        all_accounted(
            hints,
            asked,
            connection,
            caller,
            slot_fields(hints, asked, connection, supplied, names).1,
        ),
    decreases names.len(),
{
    if names.len() > 0 {
        lemma_slot_accounted(hints, asked, connection, caller, supplied, names.drop_last());
        let (before, rest) = slot_fields(hints, asked, connection, supplied, names.drop_last());
        let (group, left) = slot_fields(hints, asked, connection, supplied, names);
        let name = names.last();
        let found = with_name(rest, name, true);
        let own = own_field(hints, asked, connection, name);
        lemma_with_name_within(rest, name, true);
        lemma_with_name_within(rest, name, false);
        assert forall|k: int| 0 <= k < group.len() implies accounted(
            hints,
            asked,
            connection,
            caller,
            #[trigger] group[k],
        ) by {
            if k < before.len() {
                assert(group[k] == before[k]);
            } else if found.len() == 0 {
                let i = choose|i: int| first_enabled(hints, asked, connection, name, i);
                assert(group[k] == own[k - before.len()]);
                assert(group[k] == hint_field(hints[i]));
            } else {
                assert(group[k] == found[k - before.len()]);
                assert(rest.contains(group[k]));
            }
        }
        assert forall|k: int| 0 <= k < left.len() implies accounted(
            hints,
            asked,
            connection,
            caller,
            #[trigger] left[k],
        ) by {
            assert(rest.contains(left[k]));
        }
    }
}

proof fn lemma_filled_accounted(
    hints: Seq<HintView>,
    asked: Option<Seq<usize>>,
    connection: Option<Seq<usize>>,
    caller: Seq<HeaderView>,
    single: Seq<Seq<char>>,
    fields: Seq<HeaderView>,
    supplied: Seq<HeaderView>,
    slots: Seq<SlotView>,
)
    requires
        all_accounted(hints, asked, connection, caller, fields),
        all_accounted(hints, asked, connection, caller, supplied),
    ensures
        all_accounted(
            hints,
            asked,
            connection,
            caller,
            filled(hints, asked, connection, single, fields, supplied, slots).0,
        ),
        all_accounted(
            hints,
            asked,
            connection,
            caller,
            filled(hints, asked, connection, single, fields, supplied, slots).1,
        ),
    decreases slots.len(),
{
    if slots.len() > 0 {
        let front = slots.drop_last();
        lemma_filled_accounted(
            hints,
            asked,
            connection,
            caller,
            single,
            fields,
            supplied,
            front,
        );
        let (before, left) = filled(hints, asked, connection, single, fields, supplied, front);
        let slot = slots.last();
        let names = slot_names(hints, single, slot);
        lemma_slot_accounted(hints, asked, connection, caller, left, names);
        let (group, rest) = slot_fields(hints, asked, connection, left, names);
        lemma_slot_place(before, slot.followed_by);
        let place = slot_place(before, slot.followed_by);
        let all = spliced(before, place, group);
        assert forall|k: int| 0 <= k < all.len() implies accounted(
            hints,
            asked,
            connection,
            caller,
            #[trigger] all[k],
        ) by {
            if k < place {
                assert(all[k] == before[k]);
            } else if k < place + group.len() {
                assert(all[k] == group[k - place]);
            } else {
                assert(all[k] == before[k - group.len()]);
            }
        }
    }
}

/// A request carries nothing but the caller's fields and the hints that are
/// enabled, with or without a template.
pub proof fn only_enabled_hints_are_added(
    hints: Seq<HintView>,
    asked: Option<Seq<usize>>,
    connection: Option<Seq<usize>>,
    caller: Seq<HeaderView>,
    template: Option<TemplateView>,
    k: int,
)
    requires
        0 <= k < prepared(hints, asked, connection, caller, template).len(),
    ensures
        accounted(
            hints,
            asked,
            connection,
            caller,
            prepared(hints, asked, connection, caller, template)[k],
        ),
{
    let all = prepared(hints, asked, connection, caller, template);
    let slots = match template {
        Some(template) => template.slots,
        None => Seq::empty(),
    };
    if slots.len() > 0 {
        let single = single_names(slots);
        let supplied = parted(hints, single, caller, true);
        let others = parted(hints, single, caller, false);
        lemma_parted_within(hints, single, caller, true);
        lemma_parted_within(hints, single, caller, false);
        lemma_filled_accounted(
            hints,
            asked,
            connection,
            caller,
            single,
            others,
            supplied,
            slots,
        );
        let (fields, left) = filled(hints, asked, connection, single, others, supplied, slots);
        if k < fields.len() {
            assert(all[k] == fields[k]);
        } else {
            assert(all[k] == left[k - fields.len()]);
        }
    } else {
        let front = automatic(hints, asked, connection, caller, hints.len());
        lemma_automatic_accounted(hints, asked, connection, caller, hints.len());
        if k < front.len() {
            assert(all[k] == front[k]);
        } else {
            assert(all[k] == caller[k - front.len()]);
        }
    }
}

/// What happens to a store between two requests.
pub enum HintUse {
    /// A request to an origin was prepared.
    Prepared(OriginView),
    /// A response came from an origin, with these fields.
    Answered(OriginView, Seq<HeaderView>),
}

impl HintUse {
    /// What the store holds afterwards.
    pub open spec fn after(self, hints: Seq<HintView>, entries: Asked, capacity: nat) -> Asked {
        match self {
            HintUse::Prepared(origin) => touched(entries, origin),
            HintUse::Answered(origin, response) => match asks(hints, response) {
                Some(found) => asked_for(entries, origin, found.0, capacity),
                None => entries,
            },
        }
    }

    /// Whether an origin asks for a hint.
    pub open spec fn is_asking(self, hints: Seq<HintView>, origin: OriginView) -> bool {
        match self {
            HintUse::Prepared(_) => false,
            HintUse::Answered(from, response) => from == origin && match asks(hints, response) {
                Some(found) => found.0.len() > 0,
                None => false,
            },
        }
    }
}

/// What a store holds after some uses.
pub open spec fn after_uses(
    hints: Seq<HintView>,
    entries: Asked,
    uses: Seq<HintUse>,
    capacity: nat,
) -> Asked
    decreases uses.len(),
{
    if uses.len() == 0 {
        entries
    } else {
        uses.last().after(
            hints,
            after_uses(hints, entries, uses.drop_last(), capacity),
            capacity,
        )
    }
}

proof fn lemma_stored_other(
    entries: Asked,
    from: OriginView,
    asked: Seq<usize>,
    capacity: nat,
    origin: OriginView,
)
    requires
        unique_keys(entries),
        entries.len() <= capacity,
        capacity > 0,
        origin != from,
        lookup(entries, origin) is None,
    ensures
        lookup(stored(entries, from, asked, capacity), origin) is None,
{
    lemma_without(entries, from);
    let left = without(entries, from);
    lemma_position(left, origin);
    if left.len() >= capacity {
        lemma_skip_first(left, origin);
        lemma_skip_first(left, from);
    }
    lemma_pushed(with_room(left, capacity), from, asked);
}

proof fn lemma_still_unasked(
    hints: Seq<HintView>,
    entries: Asked,
    uses: Seq<HintUse>,
    capacity: nat,
    origin: OriginView,
)
    requires
        entries.len() == 0,
        capacity > 0,
        forall|k: int| 0 <= k < uses.len() ==> !(#[trigger] uses[k]).is_asking(hints, origin),
    ensures
        unique_keys(after_uses(hints, entries, uses, capacity)),
        after_uses(hints, entries, uses, capacity).len() <= capacity,
        lookup(after_uses(hints, entries, uses, capacity), origin) is None,
    decreases uses.len(),
{
    if uses.len() == 0 {
        lemma_position_none(entries, origin);
    } else {
        let front = uses.drop_last();
        assert forall|k: int| 0 <= k < front.len() implies !(#[trigger] front[k]).is_asking(
            hints,
            origin,
        ) by {
            assert(front[k] == uses[k]);
        }
        lemma_still_unasked(hints, entries, front, capacity, origin);
        let before = after_uses(hints, entries, front, capacity);
        assert(!uses[uses.len() - 1].is_asking(hints, origin));
        match uses.last() {
            HintUse::Prepared(from) => {
                lemma_touched(before, from);
            },
            HintUse::Answered(from, response) => match asks(hints, response) {
                Some(found) => {
                    lemma_without(before, from);
                    lemma_position(before, origin);
                    if found.0.len() > 0 {
                        lemma_stored(before, from, found.0, capacity);
                        lemma_stored_other(before, from, found.0, capacity, origin);
                    }
                },
                None => {},
            },
        }
    }
}

/// Once a client's hints were cleared, a request carries of the profile's
/// hints only those that are sent by default and those that the connection
/// asks for, until a response of its origin asks for a hint again.
pub proof fn cleared_hints_stay_away(
    context: ClientHintContext,
    cleared: Asked,
    uses: Seq<HintUse>,
    capacity: nat,
    caller: Seq<HeaderView>,
    accept_ch: Option<Seq<u8>>,
)
    requires
        cleared.len() == 0,
        capacity > 0,
        forall|k: int|
            0 <= k < uses.len() ==> !(#[trigger] uses[k]).is_asking(
                context.settings@,
                origin_of(context.endpoint),
            ),
    ensures
        context.outcome(
            after_uses(context.settings@, cleared, uses, capacity),
            caller,
            accept_ch,
        ) matches Ok(fields) ==> forall|k: int|
            0 <= k < fields.len() ==> accounted(
                context.settings@,
                None,
                connection_hints(context.settings@, accept_ch),
                caller,
                #[trigger] fields[k],
            ),
{
    let hints = context.settings@;
    let origin = origin_of(context.endpoint);
    let connection = connection_hints(hints, accept_ch);
    let template = template_view(context.template);
    lemma_still_unasked(hints, cleared, uses, capacity, origin);
    let fields = prepared(hints, None, connection, caller, template);
    assert forall|k: int| 0 <= k < fields.len() implies accounted(
        hints,
        None,
        connection,
        caller,
        #[trigger] fields[k],
    ) by {
        only_enabled_hints_are_added(hints, None, connection, caller, template, k);
    }
}

/// A request fails exactly when it carries hints that have to be asked for
/// and its template shows no place for them; otherwise it has its fields
/// with the hints in place.
pub proof fn a_request_fails_only_for_want_of_a_place(
    context: ClientHintContext,
    store: Asked,
    given: Seq<HeaderView>,
    accept_ch: Option<Seq<u8>>,
)
    ensures
        ({
            let outcome = context.outcome(store, given, accept_ch);
            let asked = lookup(store, origin_of(context.endpoint));
            let connection = connection_hints(context.settings@, accept_ch);
            let template = template_view(context.template);
            &&& context.template is None ==> outcome is Ok
            &&& outcome is Err == misplaced(context.settings@, asked, connection, given, template)
            &&& outcome is Err ==> outcome->Err_0.kind is RequestTemplate
            &&& outcome is Ok ==> outcome->Ok_0 == prepared(
                context.settings@,
                asked,
                connection,
                given,
                template,
            )
        }),
{
}

} // verus!
