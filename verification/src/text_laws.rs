//! What holds of texts and hosts.

use vstd::prelude::*;
use crate::host::{
    bracketed, host_in_uri, ipv4_text, ipv6_text, trustworthy_host, unbracketed, undotted, HostView,
};
use crate::sse::decoder::{all_digits, number};
use crate::text::{
    blank, decimal, digit_char, is_white, lower, lower_byte, lowercase, lowercase_bytes,
    lemma_run_len_bounds, run_len, is_ows, same_ignoring_case, split, text_before, trim_back,
    trim_end, trim_front, trim_start, trimmed, trimmed_text, visible,
};

verus! {

/// Whether two characters are the same but for the case of an ASCII letter.
pub open spec fn same_letter(a: char, b: char) -> bool {
    ||| a == b
    ||| 'A' <= a <= 'Z' && b as u32 == a as u32 + 32
    ||| 'A' <= b <= 'Z' && a as u32 == b as u32 + 32
}

/// Whether two texts are the same but for the case of ASCII letters.
pub open spec fn same_letters(a: Seq<char>, b: Seq<char>) -> bool {
    a.len() == b.len() && forall|i: int|
        0 <= i < a.len() ==> same_letter(#[trigger] a[i], b[i])
}

/// Two characters have one lower case exactly when they are the same but for
/// the case of an ASCII letter.
proof fn lemma_lower(a: char, b: char)
    ensures
        (lower(a) == lower(b)) == same_letter(a, b),
        same_letter(a, lower(a)),
        !('A' <= lower(a) <= 'Z'),
{
}

/// Lower case changes ASCII capitals and nothing else: two texts have one
/// lower case exactly when they are the same but for the case of ASCII
/// letters, and the lower case has no capitals.
pub proof fn lower_case_ignores_ascii_case_alone(a: Seq<char>, b: Seq<char>)
    ensures
        (lowercase(a) == lowercase(b)) == same_letters(a, b),
        same_letters(a, lowercase(a)),
        forall|i: int| 0 <= i < lowercase(a).len() ==> !('A' <= #[trigger] lowercase(a)[i] <= 'Z'),
{
    assert forall|i: int| 0 <= i < a.len() implies same_letter(#[trigger] a[i], lowercase(a)[i])
        && !('A' <= lowercase(a)[i] <= 'Z') by {
        lemma_lower(a[i], a[i]);
    }
    if same_letters(a, b) {
        assert forall|i: int| 0 <= i < a.len() implies #[trigger] lowercase(a)[i] == lowercase(
            b,
        )[i] by {
            assert(same_letter(a[i], b[i]));
            lemma_lower(a[i], b[i]);
        }
        assert(lowercase(a) =~= lowercase(b));
    }
    if lowercase(a) == lowercase(b) {
        assert(a.len() == lowercase(a).len() && b.len() == lowercase(b).len());
        assert forall|i: int| 0 <= i < a.len() implies same_letter(#[trigger] a[i], b[i]) by {
            assert(lowercase(a)[i] == lower(a[i]) && lowercase(b)[i] == lower(b[i]));
            lemma_lower(a[i], b[i]);
        }
    }
}

/// Whether two bytes are the same but for the case of an ASCII letter.
pub open spec fn same_byte(a: u8, b: u8) -> bool {
    ||| a == b
    ||| 0x41 <= a <= 0x5a && b == a + 0x20
    ||| 0x41 <= b <= 0x5a && a == b + 0x20
}

/// Byte strings that are compared without regard to case differ in the case
/// of ASCII letters at most.
pub proof fn bytes_differ_in_ascii_case_at_most(a: Seq<u8>, b: Seq<u8>)
    ensures
        same_ignoring_case(a, b) == (a.len() == b.len() && forall|i: int|
            0 <= i < a.len() ==> same_byte(#[trigger] a[i], b[i])),
{
    let alike = a.len() == b.len() && forall|i: int|
        0 <= i < a.len() ==> same_byte(#[trigger] a[i], b[i]);
    if alike {
        assert forall|i: int| 0 <= i < a.len() implies #[trigger] lowercase_bytes(a)[i]
            == lowercase_bytes(b)[i] by {
            assert(same_byte(a[i], b[i]));
        }
        assert(lowercase_bytes(a) =~= lowercase_bytes(b));
    }
    if same_ignoring_case(a, b) {
        assert(a.len() == lowercase_bytes(a).len() && b.len() == lowercase_bytes(b).len());
        assert forall|i: int| 0 <= i < a.len() implies same_byte(#[trigger] a[i], b[i]) by {
            assert(lowercase_bytes(a)[i] == lower_byte(a[i]));
            assert(lowercase_bytes(b)[i] == lower_byte(b[i]));
        }
    }
}

/// The decimal digits of a number spell that number, without leading zeros.
pub proof fn decimal_digits_spell_their_number(n: nat)
    ensures
        all_digits(decimal(n)),
        number(decimal(n)) == n,
        decimal(n)[0] == '0' ==> n == 0 && decimal(n).len() == 1,
        forall|i: int| 0 <= i < decimal(n).len() ==> '0' <= #[trigger] decimal(n)[i] <= '9',
    decreases n,
{
    if n < 10 {
        let c = digit_char(n);
        assert(decimal(n) == seq![c]);
        assert('0' <= c <= '9');
        assert(decimal(n).drop_last() =~= Seq::empty());
        assert(number(Seq::<char>::empty()) == 0);
        assert(number(decimal(n)) == n);
    } else {
        decimal_digits_spell_their_number(n / 10);
        let c = digit_char(n % 10);
        let front = decimal(n / 10);
        assert(decimal(n) == front.push(c));
        assert('0' <= c <= '9');
        assert(decimal(n).drop_last() =~= front);
        assert forall|i: int| 0 <= i < decimal(n).len() implies '0' <= #[trigger] decimal(n)[i]
            <= '9' by {
            if i < front.len() {
                assert(decimal(n)[i] == front[i]);
            }
        }
        assert(decimal(n)[0] == front[0]);
    }
}

/// A number in decimal digits is read digit by digit: one more digit behind
/// multiplies by ten and adds it.
pub proof fn each_digit_counts_ten_times_the_next(text: Seq<char>, digit: char)
    requires
        '0' <= digit <= '9',
    ensures
        number(text.push(digit)) == number(text) * 10 + (digit as int - 48),
        number(Seq::<char>::empty()) == 0,
        all_digits(text.push(digit)) == (text.len() == 0 || all_digits(text)),
{
    let all = text.push(digit);
    assert(all.drop_last() =~= text);
    if text.len() == 0 || all_digits(text) {
        assert forall|i: int| 0 <= i < all.len() implies '0' <= #[trigger] all[i] <= '9' by {
            if i < text.len() {
                assert(all[i] == text[i]);
            }
        }
    }
    if all_digits(all) && text.len() > 0 {
        assert forall|i: int| 0 <= i < text.len() implies '0' <= #[trigger] text[i] <= '9' by {
            assert(all[i] == text[i]);
        }
    }
}

/// A text is a number exactly when it is not empty and has nothing but the
/// digits from 0 to 9: any other character anywhere spoils it.
pub proof fn a_number_is_made_of_digits(before: Seq<char>, c: char, behind: Seq<char>)
    ensures
        all_digits(before.push(c) + behind) == ((before.len() == 0 || all_digits(before)) && '0'
            <= c <= '9' && (behind.len() == 0 || all_digits(behind))),
        !all_digits(Seq::<char>::empty()),
{
    let all = before.push(c) + behind;
    assert(all[before.len() as int] == c);
    if all_digits(all) {
        assert forall|i: int| 0 <= i < before.len() implies '0' <= #[trigger] before[i] <= '9' by {
            assert(all[i] == before[i]);
        }
        assert forall|i: int| 0 <= i < behind.len() implies '0' <= #[trigger] behind[i] <= '9' by {
            assert(all[before.len() + 1 + i] == behind[i]);
        }
    } else if (before.len() == 0 || all_digits(before)) && '0' <= c <= '9' && (behind.len() == 0
        || all_digits(behind)) {
        assert forall|i: int| 0 <= i < all.len() implies '0' <= #[trigger] all[i] <= '9' by {
            if i < before.len() {
                assert(all[i] == before[i]);
            } else if i > before.len() {
                assert(all[i] == behind[i - before.len() - 1]);
            }
        }
    }
}

/// Parts with a character between them.
pub open spec fn joined(parts: Seq<Seq<char>>, at: char) -> Seq<char>
    decreases parts.len(),
{
    if parts.len() == 0 {
        Seq::empty()
    } else if parts.len() == 1 {
        parts[0]
    } else {
        joined(parts.drop_last(), at).push(at) + parts.last()
    }
}

/// The parts of a text hold no separator and, joined by it, give the text
/// back.
pub proof fn split_parts_join_to_the_text(text: Seq<char>, at: char)
    ensures
        joined(split(text, at), at) == text,
        forall|k: int| 0 <= k < split(text, at).len() ==> !(#[trigger] split(text, at)[k]).contains(at),
        split(text, at).len() > 0,
    decreases text.len(),
{
    let parts = split(text, at);
    if text.len() == 0 {
        assert(joined(parts, at) =~= text);
    } else {
        let front = text.drop_last();
        split_parts_join_to_the_text(front, at);
        let before = split(front, at);
        if text.last() == at {
            assert(parts.drop_last() =~= before);
            assert(joined(parts, at) =~= front.push(at));
            assert(front.push(at) =~= text);
            assert forall|k: int| 0 <= k < parts.len() implies !(#[trigger] parts[k]).contains(
                at,
            ) by {
                if k < before.len() {
                    assert(parts[k] == before[k]);
                }
            }
        } else {
            assert(parts.drop_last() =~= before.drop_last());
            assert(parts.last() == before.last().push(text.last()));
            assert(joined(parts, at) =~= joined(before, at).push(text.last()));
            assert(front.push(text.last()) =~= text);
            assert forall|k: int| 0 <= k < parts.len() implies !(#[trigger] parts[k]).contains(
                at,
            ) by {
                if k < before.len() - 1 {
                    assert(parts[k] == before[k]);
                } else {
                    assert(!before[before.len() - 1].contains(at));
                    assert forall|i: int| 0 <= i < parts[k].len() implies parts[k][i] != at by {
                        if i < before.last().len() {
                            assert(parts[k][i] == before.last()[i]);
                        }
                    }
                }
            }
        }
    }
}

/// The white space that text is trimmed of: in ASCII the space and the
/// characters from the tab to the carriage return, beyond it the separators
/// and spaces of Unicode.
pub proof fn white_space_is_that_of_unicode(c: char)
    ensures
        c as u32 <= 127 ==> is_white(c) == (c == ' ' || 9 <= c as u32 <= 13),
        is_white(c) ==> c as u32 <= 127 || c as u32 == 0x85 || c as u32 == 0xa0 || c as u32 == 0x1680
            || 0x2000 <= c as u32 <= 0x200a || c as u32 == 0x2028 || c as u32 == 0x2029 || c as u32
            == 0x202f || c as u32 == 0x205f || c as u32 == 0x3000,
        c as u32 == 0x85 || c as u32 == 0xa0 || c as u32 == 0x1680 || 0x2000 <= c as u32 <= 0x200a
            || c as u32 == 0x2028 || c as u32 == 0x2029 || c as u32 == 0x202f || c as u32 == 0x205f
            || c as u32 == 0x3000 ==> is_white(c),
{
}

proof fn lemma_trim_front(before: Seq<char>, text: Seq<char>)
    requires
        blank(before),
        text.len() > 0 ==> !is_white(text[0]),
    ensures
        trim_front(before + text) == text,
    decreases before.len(),
{
    let all = before + text;
    if before.len() == 0 {
        assert(all =~= text);
    } else {
        assert(is_white(before[0]));
        assert(all[0] == before[0]);
        assert(all.skip(1) =~= before.skip(1) + text);
        assert forall|i: int| 0 <= i < before.skip(1).len() implies is_white(
            #[trigger] before.skip(1)[i],
        ) by {
            assert(before.skip(1)[i] == before[i + 1]);
        }
        lemma_trim_front(before.skip(1), text);
    }
}

proof fn lemma_trim_back(text: Seq<char>, behind: Seq<char>)
    requires
        blank(behind),
        text.len() > 0 ==> !is_white(text.last()),
    ensures
        trim_back(text + behind) == text,
    decreases behind.len(),
{
    let all = text + behind;
    if behind.len() == 0 {
        assert(all =~= text);
    } else {
        assert(is_white(behind[behind.len() - 1]));
        assert(all.last() == behind.last());
        assert(all.drop_last() =~= text + behind.drop_last());
        assert forall|i: int| 0 <= i < behind.drop_last().len() implies is_white(
            #[trigger] behind.drop_last()[i],
        ) by {
            assert(behind.drop_last()[i] == behind[i]);
        }
        lemma_trim_back(text, behind.drop_last());
    }
}

/// Trimming takes off the white space around a text and nothing else.
pub proof fn trimming_takes_off_surrounding_white_space(
    before: Seq<char>,
    text: Seq<char>,
    behind: Seq<char>,
)
    requires
        blank(before),
        blank(behind),
        text.len() > 0 ==> !is_white(text[0]) && !is_white(text.last()),
    ensures
        trimmed_text(before + text + behind) == text,
{
    if text.len() > 0 {
        assert(before + text + behind =~= before + (text + behind));
        lemma_trim_front(before, text + behind);
        lemma_trim_back(text, behind);
    } else {
        let all = before + behind;
        assert(before + text + behind =~= all + text);
        assert forall|i: int| 0 <= i < all.len() implies is_white(#[trigger] all[i]) by {
            if i < before.len() {
                assert(all[i] == before[i]);
            } else {
                assert(all[i] == behind[i - before.len()]);
            }
        }
        lemma_trim_front(all, text);
    }
}

/// Whether bytes are nothing but spaces and tabs.
pub open spec fn spaces(bytes: Seq<u8>) -> bool {
    forall|i: int| 0 <= i < bytes.len() ==> #[trigger] bytes[i] == 32 || bytes[i] == 9
}

proof fn lemma_trim_start(before: Seq<u8>, bytes: Seq<u8>)
    requires
        spaces(before),
        bytes.len() > 0 ==> bytes[0] != 32 && bytes[0] != 9,
    ensures
        trim_start(before + bytes) == bytes,
    decreases before.len(),
{
    let all = before + bytes;
    let class = |b: u8| is_ows(b);
    if before.len() == 0 {
        assert(all =~= bytes);
        assert(run_len(all, class) == 0);
        assert(all.skip(0) =~= all);
    } else {
        let rest = before.skip(1);
        assert forall|i: int| 0 <= i < rest.len() implies #[trigger] rest[i] == 32 || rest[i]
            == 9 by {
            assert(rest[i] == before[i + 1]);
        }
        assert(all[0] == before[0]);
        assert(class(all[0]));
        assert(all.skip(1) =~= rest + bytes);
        lemma_trim_start(rest, bytes);
        lemma_run_len_bounds(rest + bytes, class);
        let n = run_len(rest + bytes, class);
        assert(all.skip(1 + n as int) =~= (rest + bytes).skip(n as int));
    }
}

proof fn lemma_trim_end(bytes: Seq<u8>, behind: Seq<u8>)
    requires
        spaces(behind),
        bytes.len() > 0 ==> bytes.last() != 32 && bytes.last() != 9,
    ensures
        trim_end(bytes + behind) == bytes,
    decreases behind.len(),
{
    let all = bytes + behind;
    if behind.len() == 0 {
        assert(all =~= bytes);
    } else {
        let rest = behind.drop_last();
        assert forall|i: int| 0 <= i < rest.len() implies #[trigger] rest[i] == 32 || rest[i]
            == 9 by {
            assert(rest[i] == behind[i]);
        }
        assert(all.last() == behind[behind.len() - 1]);
        assert(all.drop_last() =~= bytes + rest);
        lemma_trim_end(bytes, rest);
    }
}

/// Optional white space is spaces and tabs, and is taken off at both ends.
pub proof fn optional_white_space_is_taken_off(before: Seq<u8>, bytes: Seq<u8>, behind: Seq<u8>)
    requires
        spaces(before),
        spaces(behind),
        bytes.len() > 0 ==> bytes[0] != 32 && bytes[0] != 9 && bytes.last() != 32 && bytes.last()
            != 9,
    ensures
        trimmed(before + bytes + behind) == bytes,
{
    if bytes.len() > 0 {
        assert(before + bytes + behind =~= before + (bytes + behind));
        lemma_trim_start(before, bytes + behind);
        lemma_trim_end(bytes, behind);
    } else {
        let all = before + behind;
        assert(before + bytes + behind =~= all + bytes);
        assert forall|i: int| 0 <= i < all.len() implies #[trigger] all[i] == 32 || all[i] == 9 by {
            if i < before.len() {
                assert(all[i] == before[i]);
            } else {
                assert(all[i] == behind[i - before.len()]);
            }
        }
        lemma_trim_start(all, bytes);
    }
}

/// A field value is read as text exactly when it has nothing but visible
/// ASCII characters, spaces and tabs, and then byte for byte.
pub proof fn visible_values_are_read_byte_for_byte(bytes: Seq<u8>)
    ensures
        visible(bytes) is Some == (forall|i: int|
            0 <= i < bytes.len() ==> 32 <= #[trigger] bytes[i] <= 126 || bytes[i] == 9),
        visible(bytes) matches Some(text) ==> text.len() == bytes.len() && forall|i: int|
            0 <= i < bytes.len() ==> (#[trigger] text[i]) as u32 == bytes[i] as u32,
{
}

/// Texts are ordered as in a dictionary: by their first different character,
/// and a text comes before its continuations.
pub proof fn texts_are_ordered_by_their_first_difference(
    common: Seq<char>,
    a: Seq<char>,
    b: Seq<char>,
)
    requires
        a.len() > 0 && b.len() > 0 ==> a[0] != b[0],
    ensures
        text_before(common + a, common + b) == (b.len() > 0 && (a.len() == 0 || a[0] < b[0])),
    decreases common.len(),
{
    if common.len() == 0 {
        assert(common + a =~= a && common + b =~= b);
    } else {
        assert((common + a).skip(1) =~= common.skip(1) + a);
        assert((common + b).skip(1) =~= common.skip(1) + b);
        texts_are_ordered_by_their_first_difference(common.skip(1), a, b);
    }
}

/// A host stands in a URI as it is: a name as written, an IPv4 address as
/// four decimal numbers with dots between them, an IPv6 address in brackets.
pub proof fn hosts_stand_in_uris_as_they_are(
    name: Seq<char>,
    a: u8,
    b: u8,
    c: u8,
    d: u8,
    ipv6: u128,
)
    ensures
        host_in_uri(HostView::Domain(name)) == name,
        host_in_uri(
            HostView::Ipv4((a * 0x100_0000 + b * 0x1_0000 + c * 0x100 + d) as u32),
        ) == decimal(a as nat) + seq!['.'] + decimal(b as nat) + seq!['.'] + decimal(c as nat)
            + seq!['.'] + decimal(d as nat),
        host_in_uri(HostView::Ipv6(ipv6)) == seq!['['] + ipv6_text(ipv6) + seq![']'],
        unbracketed(seq!['['] + name + seq![']']) == name,
        !(name.len() >= 2 && name[0] == '[' && name.last() == ']') ==> unbracketed(name) == name,
{
    let bits = (a * 0x100_0000 + b * 0x1_0000 + c * 0x100 + d) as u32;
    assert(bits / 0x100_0000 == a && (bits / 0x1_0000) % 256 == b && (bits / 0x100) % 256 == c
        && bits % 256 == d) by (nonlinear_arith)
        requires
            bits == a * 0x100_0000 + b * 0x1_0000 + c * 0x100 + d,
    ;
    assert(ipv4_text(bits) =~= decimal(a as nat) + seq!['.'] + decimal(b as nat) + seq!['.']
        + decimal(c as nat) + seq!['.'] + decimal(d as nat));
    let quoted = seq!['['] + name + seq![']'];
    assert(quoted.last() == ']');
    assert(quoted.subrange(1, quoted.len() - 1) =~= name);
    assert(bracketed(name) == quoted);
}

/// A host is on this machine exactly when it is `localhost` or a name under
/// it, with or without a dot at the end, an IPv4 address that starts with
/// 127, or the IPv6 loopback address.
pub proof fn only_local_hosts_are_trustworthy(
    name: Seq<char>,
    a: u8,
    b: u8,
    c: u8,
    d: u8,
    ipv6: u128,
)
    ensures
        trustworthy_host(HostView::Domain("localhost"@ + name)) == (name.len() == 0 || name
            == seq!['.'] || ".localhost"@.is_suffix_of(undotted("localhost"@ + name))),
        trustworthy_host(HostView::Domain(name + ".localhost"@)),
        name.len() > 0 && name.last() != '.' ==> trustworthy_host(HostView::Domain(name.push('.')))
            == trustworthy_host(HostView::Domain(name)),
        trustworthy_host(HostView::Domain((name + ".localhost"@).push('.'))),
        name.len() < 9 ==> !trustworthy_host(HostView::Domain(name)),
        trustworthy_host(HostView::Domain(name)) && name.len() > 0 && name.last() != '.' ==> name
            == "localhost"@ || name.subrange(name.len() - 10, name.len() as int) == ".localhost"@,
        trustworthy_host(
            HostView::Ipv4((a * 0x100_0000 + b * 0x1_0000 + c * 0x100 + d) as u32),
        ) == (a == 127),
        trustworthy_host(HostView::Ipv6(ipv6)) == (ipv6 == 1),
{
    reveal_strlit("localhost");
    reveal_strlit(".localhost");
    let bits = (a * 0x100_0000 + b * 0x1_0000 + c * 0x100 + d) as u32;
    assert(bits / 0x100_0000 == a) by (nonlinear_arith)
        requires
            bits == a * 0x100_0000 + b * 0x1_0000 + c * 0x100 + d,
    ;
    assert(name.push('.').drop_last() =~= name);
    let under = name + ".localhost"@;
    assert(under.last() == 't');
    assert(".localhost"@.is_suffix_of(under)) by {
        assert(under.subrange(name.len() as int, under.len() as int) =~= ".localhost"@);
    }
    assert(under.push('.').drop_last() =~= under);
    let longer = "localhost"@ + name;
    if name.len() == 0 {
        assert(longer =~= "localhost"@);
        assert(longer.last() == 't');
    } else if name == seq!['.'] {
        assert(longer.last() == '.');
        assert(longer.drop_last() =~= "localhost"@);
    } else {
        assert(longer.last() == name.last());
        assert(undotted(longer).len() >= 9);
        if undotted(longer) == "localhost"@ {
            assert(name.len() == 1);
            assert(name =~= seq!['.']);
        }
    }
}

} // verus!
