//! What response fields and connections ask for.

use vstd::prelude::*;
use vstd::utf8::{decode_utf8, valid_utf8};
use crate::ascii::{COMMA, SPACE};
use crate::client_hints::types::{texts, ClientHintDelivery, ClientHintSettings, HintView};
use crate::endpoint::{copy_bytes, headers_view, HeaderView, RequestHeader};
use crate::text::{blank, is_blank, lowercase, same_text, to_lowercase, utf8_text};

verus! {

/// A member of a structured field list, as far as it matters here.
#[derive(Debug)]
pub enum ListMember {
    Token(String),
    OtherItem,
    InnerList,
}

/// What a [`ListMember`] holds.
pub enum MemberView {
    Token(Seq<char>),
    OtherItem,
    InnerList,
}

impl View for ListMember {
    type V = MemberView;

    open spec fn view(&self) -> MemberView {
        match self {
            ListMember::Token(token) => MemberView::Token(token@),
            ListMember::OtherItem => MemberView::OtherItem,
            ListMember::InnerList => MemberView::InnerList,
        }
    }
}

/// What a list of members holds.
pub open spec fn members_view(members: Option<Vec<ListMember>>) -> Option<Seq<MemberView>> {
    match members {
        Some(members) => Some(members@.map_values(|member: ListMember| member@)),
        None => None,
    }
}

/// What `sfv::Parser` makes of a text as a structured field list.
pub uninterp spec fn structured_list(text: Seq<char>) -> Option<Seq<MemberView>>;

/// Calls `sfv::Parser::new` and `parse` for a list, whose result depends on
/// the text alone, and tells tokens, other items and inner lists apart.
#[verifier::external_body]
fn parse_list(text: &str) -> (r: Option<Vec<ListMember>>)
    ensures
        members_view(r) == structured_list(text@),
{
    let list: sfv::List = sfv::Parser::new(text).parse().ok()?;
    let member = |entry| match entry {
        sfv::ListEntry::Item(item) => match item.bare_item {
            sfv::BareItem::Token(token) => ListMember::Token(token.as_str().to_owned()),
            _ => ListMember::OtherItem,
        },
        sfv::ListEntry::InnerList(_) => ListMember::InnerList,
    };
    Some(list.into_iter().map(member).collect())
}

/// The tokens, in lower case, of a list that holds nothing else.
pub open spec fn all_tokens(members: Seq<MemberView>) -> Option<Seq<Seq<char>>> {
    if forall|i: int| 0 <= i < members.len() ==> #[trigger] members[i] is Token {
        Some(Seq::new(members.len(), |i: int| lowercase(members[i]->0)))
    } else {
        None
    }
}

/// The tokens that a text lists, or nothing when it is no list of tokens.
pub open spec fn token_list(text: Seq<char>) -> Option<Seq<Seq<char>>> {
    if blank(text) {
        Some(Seq::empty())
    } else {
        match structured_list(text) {
            Some(members) => all_tokens(members),
            None => None,
        }
    }
}

/// What an optional list of texts holds.
pub open spec fn tokens_view(tokens: Option<Vec<String>>) -> Option<Seq<Seq<char>>> {
    match tokens {
        Some(tokens) => Some(texts(tokens@)),
        None => None,
    }
}

/// Returns the tokens, in lower case, of a list that holds nothing else.
pub fn token_members(members: &Vec<ListMember>) -> (r: Option<Vec<String>>)
    ensures
        tokens_view(r) == all_tokens(members@.map_values(|member: ListMember| member@)),
{
    let ghost all = members@.map_values(|member: ListMember| member@);
    let mut tokens: Vec<String> = Vec::new();
    let mut i: usize = 0;
    while i < members.len()
        invariant
            i <= members@.len(),
            all == members@.map_values(|member: ListMember| member@),
            tokens@.len() == i,
            forall|j: int| 0 <= j < i ==> #[trigger] all[j] is Token,
            forall|j: int| 0 <= j < i ==> (#[trigger] tokens@[j])@ == lowercase(all[j]->0),
        decreases members@.len() - i,
    {
        assert(all[i as int] == members@[i as int]@);
        match &members[i] {
            ListMember::Token(token) => {
                tokens.push(to_lowercase(token.as_str()));
            },
            _ => {
                assert(!(all[i as int] is Token));
                return None;
            },
        }
        i += 1;
    }
    assert(texts(tokens@) =~= Seq::new(all.len(), |i: int| lowercase(all[i]->0)));
    Some(tokens)
}

/// Returns the tokens that a text lists, in lower case, or `None` when it is
/// no list of tokens.
pub fn parse_token_list(text: &str) -> (r: Option<Vec<String>>)
    ensures
        tokens_view(r) == token_list(text@),
{
    if is_blank(text) {
        let none: Vec<String> = Vec::new();
        assert(texts(none@) =~= Seq::empty());
        return Some(none);
    }
    match parse_list(text) {
        Some(members) => token_members(&members),
        None => None,
    }
}

/// The tokens that bytes list.
pub open spec fn tokens_in(bytes: Seq<u8>) -> Option<Seq<Seq<char>>> {
    if valid_utf8(bytes) {
        token_list(decode_utf8(bytes))
    } else {
        None
    }
}

pub(crate) fn parse_tokens(bytes: &[u8]) -> (r: Option<Vec<String>>)
    ensures
        tokens_view(r) == tokens_in(bytes@),
{
    match utf8_text(bytes) {
        Some(text) => parse_token_list(text.as_str()),
        None => None,
    }
}

/// The values of the fields with a name, put together as one list.
pub open spec fn combined(headers: Seq<HeaderView>, name: Seq<char>) -> Option<Seq<u8>>
    decreases headers.len(),
{
    if headers.len() == 0 {
        None
    } else {
        let before = combined(headers.drop_last(), name);
        let last = headers.last();
        if last.name == name {
            match before {
                Some(bytes) => Some(bytes + seq![COMMA, SPACE] + last.value),
                None => Some(last.value),
            }
        } else {
            before
        }
    }
}

fn extend(bytes: &mut Vec<u8>, more: &Vec<u8>)
    ensures
        final(bytes)@ == old(bytes)@ + more@,
{
    let mut i: usize = 0;
    while i < more.len()
        invariant
            i <= more@.len(),
            bytes@ == old(bytes)@ + more@.take(i as int),
        decreases more@.len() - i,
    {
        bytes.push(more[i]);
        assert(bytes@ =~= old(bytes)@ + more@.take(i + 1));
        i += 1;
    }
    assert(more@.take(i as int) =~= more@);
}

pub(crate) fn combine(headers: &Vec<RequestHeader>, name: &str) -> (r: Option<Vec<u8>>)
    ensures
        (match r {
            Some(bytes) => Some(bytes@),
            None => None,
        }) == combined(headers_view(headers@), name@),
{
    let ghost all = headers_view(headers@);
    let mut found: Option<Vec<u8>> = None;
    let mut i: usize = 0;
    assert(all.take(0) =~= Seq::empty());
    while i < headers.len()
        invariant
            i <= headers@.len(),
            all == headers_view(headers@),
            (match found {
                Some(bytes) => Some(bytes@),
                None => None,
            }) == combined(all.take(i as int), name@),
        decreases headers@.len() - i,
    {
        assert(all.take(i + 1).drop_last() =~= all.take(i as int));
        assert(all.take(i + 1).last() == headers@[i as int]@);
        if same_text(headers[i].name.as_str(), name) {
            found = match found {
                Some(mut bytes) => {
                    let ghost before = bytes@;
                    bytes.push(COMMA);
                    bytes.push(SPACE);
                    assert(bytes@ =~= before + seq![COMMA, SPACE]);
                    extend(&mut bytes, &headers[i].value);
                    Some(bytes)
                },
                None => Some(copy_bytes(headers[i].value.as_slice())),
            };
        }
        i += 1;
    }
    assert(all.take(i as int) =~= all);
    found
}

/// The positions of the hints that some tokens ask for.
pub open spec fn requested(hints: Seq<HintView>, tokens: Seq<Seq<char>>) -> Seq<usize>
    decreases hints.len(),
{
    if hints.len() == 0 {
        Seq::empty()
    } else {
        let before = requested(hints.drop_last(), tokens);
        let last = hints.last();
        if last.delivery == ClientHintDelivery::AcceptCh && tokens.contains(last.name) {
            before.push((hints.len() - 1) as usize)
        } else {
            before
        }
    }
}

pub(crate) fn lists(tokens: &Vec<String>, name: &String) -> (r: bool)
    ensures
        r == texts(tokens@).contains(name@),
{
    let mut i: usize = 0;
    while i < tokens.len()
        invariant
            i <= tokens@.len(),
            forall|j: int| 0 <= j < i ==> #[trigger] texts(tokens@)[j] != name@,
        decreases tokens@.len() - i,
    {
        if tokens[i] == *name {
            assert(texts(tokens@)[i as int] == name@);
            return true;
        }
        i += 1;
    }
    false
}

/// Returns the positions of the hints that some tokens ask for.
pub fn requested_indices(settings: &ClientHintSettings, tokens: &Vec<String>) -> (r: Vec<usize>)
    ensures
        r@ == requested(settings@, texts(tokens@)),
{
    let ghost hints = settings@;
    let mut indices: Vec<usize> = Vec::new();
    let mut i: usize = 0;
    assert(hints.take(0) =~= Seq::empty());
    while i < settings.hints.len()
        invariant
            i <= hints.len(),
            hints == settings@,
            indices@ == requested(hints.take(i as int), texts(tokens@)),
        decreases hints.len() - i,
    {
        assert(hints.take(i + 1).drop_last() =~= hints.take(i as int));
        assert(hints.take(i + 1).last() == settings.hints@[i as int]@);
        if settings.hints[i].delivery == ClientHintDelivery::AcceptCh && lists(
            tokens,
            &settings.hints[i].name,
        ) {
            indices.push(i);
        }
        i += 1;
    }
    assert(hints.take(i as int) =~= hints);
    indices
}

/// Whether a list holds a field with a name, in any ASCII case.
pub open spec fn has_field(headers: Seq<HeaderView>, name: Seq<char>) -> bool {
    exists|i: int|
        0 <= i < headers.len() && lowercase((#[trigger] headers[i]).name) == lowercase(name)
}

pub(crate) fn same_name(a: &str, b: &str) -> (r: bool)
    ensures
        r == (lowercase(a@) == lowercase(b@)),
{
    to_lowercase(a) == to_lowercase(b)
}

pub(crate) fn contains_field(headers: &Vec<RequestHeader>, name: &str) -> (r: bool)
    ensures
        r == has_field(headers_view(headers@), name@),
{
    let ghost all = headers_view(headers@);
    let mut i: usize = 0;
    while i < headers.len()
        invariant
            i <= headers@.len(),
            all == headers_view(headers@),
            forall|j: int| 0 <= j < i ==> lowercase((#[trigger] all[j]).name) != lowercase(name@),
        decreases headers@.len() - i,
    {
        assert(all[i as int] == headers@[i as int]@);
        if same_name(headers[i].name.as_str(), name) {
            return true;
        }
        i += 1;
    }
    false
}

/// Whether a request has to be sent again: the server calls a hint critical
/// that it asked for and did not get.
pub open spec fn retries(
    hints: Seq<HintView>,
    asked: Seq<usize>,
    critical: Seq<Seq<char>>,
    sent: Seq<HeaderView>,
) -> bool {
    exists|k: int|
        0 <= k < asked.len() && critical.contains(hints[(#[trigger] asked[k]) as int].name)
            && !has_field(sent, hints[asked[k] as int].name)
}

/// What the response fields of an origin ask for: the hints, and those that
/// are critical. Nothing where they change nothing.
pub open spec fn asks(hints: Seq<HintView>, response: Seq<HeaderView>) -> Option<
    (Seq<usize>, Seq<Seq<char>>),
> {
    match combined(response, "accept-ch"@) {
        None => None,
        Some(bytes) => match tokens_in(bytes) {
            None => None,
            Some(tokens) => Some(
                (
                    requested(hints, tokens),
                    match combined(response, "critical-ch"@) {
                        None => Seq::empty(),
                        Some(bytes) => match tokens_in(bytes) {
                            None => Seq::empty(),
                            Some(tokens) => tokens,
                        },
                    },
                ),
            ),
        },
    }
}

/// The positions of requested hints are positions of hints, and the tokens
/// name them.
pub proof fn lemma_requested(hints: Seq<HintView>, tokens: Seq<Seq<char>>)
    requires
        hints.len() <= usize::MAX,
    ensures
        forall|k: int|
            0 <= k < requested(hints, tokens).len() ==> (#[trigger] requested(hints, tokens)[k])
                < hints.len() && hints[requested(hints, tokens)[k] as int].delivery
                == ClientHintDelivery::AcceptCh && tokens.contains(
                hints[requested(hints, tokens)[k] as int].name,
            ),
        forall|i: int|
            0 <= i < hints.len() && (#[trigger] hints[i]).delivery == ClientHintDelivery::AcceptCh
                && tokens.contains(hints[i].name) ==> requested(hints, tokens).contains(i as usize),
    decreases hints.len(),
{
    if hints.len() > 0 {
        let front = hints.drop_last();
        lemma_requested(front, tokens);
        let before = requested(front, tokens);
        let all = requested(hints, tokens);
        assert forall|k: int| 0 <= k < all.len() implies (#[trigger] all[k]) < hints.len()
            && hints[all[k] as int].delivery == ClientHintDelivery::AcceptCh && tokens.contains(
            hints[all[k] as int].name,
        ) by {
            if k < before.len() {
                assert(all[k] == before[k]);
                assert(front[before[k] as int] == hints[before[k] as int]);
            }
        }
        assert forall|i: int|
            0 <= i < hints.len() && (#[trigger] hints[i]).delivery == ClientHintDelivery::AcceptCh
                && tokens.contains(hints[i].name) implies all.contains(i as usize) by {
            if i < front.len() {
                assert(front[i] == hints[i]);
                let k = choose|k: int| 0 <= k < before.len() && before[k] == i as usize;
                assert(all[k] == i as usize);
            } else {
                assert(all[before.len() as int] == i as usize);
            }
        }
    }
}

pub(crate) fn misses_critical(
    settings: &ClientHintSettings,
    asked: &Vec<usize>,
    critical: &Vec<String>,
    sent: &Vec<RequestHeader>,
) -> (r: bool)
    requires
        forall|k: int| 0 <= k < asked@.len() ==> #[trigger] asked@[k] < settings@.len(),
    ensures
        r == retries(settings@, asked@, texts(critical@), headers_view(sent@)),
{
    let mut k: usize = 0;
    while k < asked.len()
        invariant
            k <= asked@.len(),
            forall|k: int| 0 <= k < asked@.len() ==> #[trigger] asked@[k] < settings@.len(),
            forall|j: int|
                0 <= j < k ==> !(texts(critical@).contains(
                    settings@[(#[trigger] asked@[j]) as int].name,
                ) && !has_field(headers_view(sent@), settings@[asked@[j] as int].name)),
        decreases asked@.len() - k,
    {
        let hint = &settings.hints[asked[k]];
        assert(settings@[asked@[k as int] as int] == hint@);
        if lists(critical, &hint.name) && !contains_field(sent, hint.name.as_str()) {
            return true;
        }
        k += 1;
    }
    false
}

} // verus!
