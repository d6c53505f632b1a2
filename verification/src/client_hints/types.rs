//! The hints of a profile, and where a template has room for them.

use vstd::prelude::*;
use crate::endpoint::copy_bytes;

verus! {

/// When a hint is sent.
#[derive(Clone, Copy, Debug, PartialEq, Eq, Structural)]
pub enum ClientHintDelivery {
    /// With every request.
    Default,
    /// With requests to origins that asked for it.
    AcceptCh,
}

/// A hint that a profile can send.
#[derive(Debug)]
pub struct ClientHint {
    /// The field's name, in lower case.
    pub name: String,
    pub value: Vec<u8>,
    pub delivery: ClientHintDelivery,
}

/// What a [`ClientHint`] holds.
pub struct HintView {
    pub name: Seq<char>,
    pub value: Seq<u8>,
    pub delivery: ClientHintDelivery,
}

impl View for ClientHint {
    type V = HintView;

    open spec fn view(&self) -> HintView {
        HintView { name: self.name@, value: self.value@, delivery: self.delivery }
    }
}

impl ClientHint {
    /// A hint with `name` and `value`.
    pub fn new(name: &str, value: &[u8], delivery: ClientHintDelivery) -> (r: Self)
        ensures
            r@ == (HintView { name: name@, value: value@, delivery }),
    {
        ClientHint { name: name.to_owned(), value: copy_bytes(value), delivery }
    }
}

/// The hints of a profile, in the order in which it sends them.
#[derive(Debug)]
pub struct ClientHintSettings {
    pub hints: Vec<ClientHint>,
}

impl ClientHintSettings {
    /// The hints.
    pub open spec fn view(&self) -> Seq<HintView> {
        self.hints@.map_values(|hint: ClientHint| hint@)
    }

    /// Settings with `hints`.
    pub fn new(hints: Vec<ClientHint>) -> (r: Self)
        ensures
            r.hints == hints,
    {
        ClientHintSettings { hints }
    }
}

/// A place for hints in a request template.
#[derive(Debug)]
pub struct ClientHintSlot {
    /// The only hint that goes here; without one, every hint that has no slot
    /// of its own.
    pub hint: Option<String>,
    /// The names of the fields that follow the slot in the template.
    pub followed_by: Vec<String>,
}

/// What a [`ClientHintSlot`] holds.
pub struct SlotView {
    pub hint: Option<Seq<char>>,
    pub followed_by: Seq<Seq<char>>,
}

/// What a list of texts holds.
pub open spec fn texts(list: Seq<String>) -> Seq<Seq<char>> {
    list.map_values(|text: String| text@)
}

impl View for ClientHintSlot {
    type V = SlotView;

    open spec fn view(&self) -> SlotView {
        SlotView {
            hint: match self.hint {
                Some(name) => Some(name@),
                None => None,
            },
            followed_by: texts(self.followed_by@),
        }
    }
}

/// What a request template says of client hints.
#[derive(Debug)]
pub struct HintTemplate {
    pub slots: Vec<ClientHintSlot>,
    /// Whether the template shows where requested hints go.
    pub requested_client_hint_placement: bool,
}

/// What a [`HintTemplate`] holds.
pub struct TemplateView {
    pub slots: Seq<SlotView>,
    pub requested_client_hint_placement: bool,
}

impl View for HintTemplate {
    type V = TemplateView;

    open spec fn view(&self) -> TemplateView {
        TemplateView {
            slots: self.slots@.map_values(|slot: ClientHintSlot| slot@),
            requested_client_hint_placement: self.requested_client_hint_placement,
        }
    }
}

} // verus!
