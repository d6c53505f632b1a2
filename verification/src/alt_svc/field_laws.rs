//! What an `Alt-Svc` field says, from its bytes to the alternative.

use vstd::prelude::*;
use vstd::utf8::{encode_utf8, encode_utf8_decode_utf8, encode_utf8_valid_utf8};
use crate::alt_svc::field::{
    alternative, clear_word, combined, delta_seconds, digits_value, ended_members, field_update,
    first_fresh, h3_id, is_digit_char, is_separator, is_token_byte, location, ma_name,
    member_start, member_update, members, number, only_digits, parameters, port_number,
    quote_state, quoted_rest, quoted_string, response_age, token, unsigned, valid_protocol_id,
    values_of, well_split, AdvertisedView, FieldUpdateView,
};
use crate::endpoint::HeaderView;
use crate::host::{ipv4_text, ipv6_literal, ipv6_text, url_host, HostView};
use crate::text::{
    decimal, digit_char, is_ows, lemma_run_len_is, lowercase, run_len, same_ignoring_case,
    trim_start, trimmed,
};
use crate::text_laws::{
    bytes_differ_in_ascii_case_at_most, decimal_digits_spell_their_number,
    lower_case_ignores_ascii_case_alone, optional_white_space_is_taken_off, same_letters, spaces,
};

verus! {

/// The decimal digits of a number, as bytes.
pub open spec fn digit_bytes(n: nat) -> Seq<u8> {
    decimal(n).map_values(|c: char| c as u8)
}

/// Whether bytes are decimal digits.
pub open spec fn all_digit_bytes(bytes: Seq<u8>) -> bool {
    forall|i: int| 0 <= i < bytes.len() ==> 0x30 <= #[trigger] bytes[i] <= 0x39
}

proof fn lemma_digit(d: nat)
    requires
        d < 10,
    ensures
        digit_char(d) as u8 == 0x30 + d,
        '0' <= digit_char(d) <= '9',
        digit_char(d) as u32 == 48 + d,
{
}

proof fn lemma_digit_bytes(n: nat)
    ensures
        digits_value(digit_bytes(n)) == n,
        number(decimal(n)) == n,
        all_digit_bytes(digit_bytes(n)),
        digit_bytes(n).len() > 0,
    decreases n,
{
    let all = digit_bytes(n);
    if n < 10 {
        lemma_digit(n);
        assert(decimal(n) == seq![digit_char(n)]);
        assert(all =~= seq![(0x30 + n) as u8]);
        assert(all.drop_last() =~= Seq::empty());
        assert(decimal(n).drop_last() =~= Seq::empty());
        assert(digits_value(Seq::<u8>::empty()) == 0);
        assert(number(Seq::<char>::empty()) == 0);
    } else {
        lemma_digit_bytes(n / 10);
        lemma_digit(n % 10);
        assert(decimal(n) == decimal(n / 10).push(digit_char(n % 10)));
        assert(all =~= digit_bytes(n / 10).push((0x30 + n % 10) as u8));
        assert(all.drop_last() =~= digit_bytes(n / 10));
        assert(decimal(n).drop_last() =~= decimal(n / 10));
    }
}

/// A number of seconds in digits is that number, or 2^31 where it is larger;
/// anything but digits is no number of seconds.
pub proof fn seconds_are_read_as_written(n: nat, other: Seq<u8>)
    ensures
        delta_seconds(digit_bytes(n)) == Some(
            if n <= 2_147_483_648 {
                n as u64
            } else {
                2_147_483_648
            },
        ),
        other.len() == 0 || !all_digit_bytes(other) ==> delta_seconds(other) is None,
{
    lemma_digit_bytes(n);
    if other.len() > 0 && !all_digit_bytes(other) {
        let i = choose|i: int| 0 <= i < other.len() && !(0x30 <= #[trigger] other[i] <= 0x39);
        assert(!(0x30 <= other[i] && other[i] <= 0x39));
    }
}

/// A port in digits is that port; zero and what does not fit 16 bits are
/// none.
pub proof fn ports_are_read_as_written(n: nat)
    ensures
        0 < n <= 65535 ==> port_number(decimal(n)) == Some(n as u16),
        n == 0 || n > 65535 ==> port_number(decimal(n)) is None,
{
    lemma_digit_bytes(n);
    decimal_digits_spell_their_number(n);
    let text = decimal(n);
    assert(text[0] != '+');
    assert(unsigned(text) == text);
    assert(only_digits(text)) by {
        assert forall|i: int| 0 <= i < text.len() implies is_digit_char(#[trigger] text[i]) by {
            assert('0' <= text[i] <= '9');
        }
    }
}

/// An authority without brackets names its host and its port: the host in
/// canonical form, an empty one the origin's own.
pub proof fn an_authority_names_a_host_and_a_port(
    origin_host: Seq<char>,
    host: Seq<char>,
    port: u16,
)
    requires
        !host.contains(':'),
        host.len() > 0 ==> host[0] != '[',
        port > 0,
    ensures
        ({
            let found = location(origin_host, encode_utf8(host.push(':') + decimal(port as nat)));
            if host.len() == 0 {
                found == Some((origin_host, port))
            } else {
                match url_host(host) {
                    Some(HostView::Domain(name)) => found == Some((name, port)),
                    Some(HostView::Ipv4(bits)) => found == Some((ipv4_text(bits), port)),
                    _ => found is None,
                }
            }
        }),
        location(origin_host, encode_utf8(host)) is None,
{
    let digits = decimal(port as nat);
    let text = host.push(':') + digits;
    encode_utf8_decode_utf8(text);
    encode_utf8_valid_utf8(text);
    encode_utf8_decode_utf8(host);
    encode_utf8_valid_utf8(host);
    ports_are_read_as_written(port as nat);
    decimal_digits_spell_their_number(port as nat);
    text.index_of_last_ensures(':');
    host.index_of_last_ensures(':');
    let n = host.len() as int;
    assert(text[n] == ':');
    assert(text.contains(':'));
    let i = text.index_of_last(':')->0;
    if i < n {
        assert(false);
    } else if i > n {
        assert(text[i] == digits[i - n - 1]);
    }
    assert(text.take(n) =~= host);
    assert(text.skip(n + 1) =~= digits);
    assert(text[0] != '[');
}

/// An authority with an IPv6 literal names that address and its port.
pub proof fn an_authority_names_an_address_in_brackets(
    origin_host: Seq<char>,
    inner: Seq<char>,
    port: u16,
)
    requires
        !inner.contains(']'),
        port > 0,
    ensures
        location(
            origin_host,
            encode_utf8(seq!['['] + inner + seq![']', ':'] + decimal(port as nat)),
        ) == (match ipv6_literal(inner) {
            Some(bits) => Some((ipv6_text(bits), port)),
            None => None,
        }),
{
    let digits = decimal(port as nat);
    let text = seq!['['] + inner + seq![']', ':'] + digits;
    encode_utf8_decode_utf8(text);
    encode_utf8_valid_utf8(text);
    ports_are_read_as_written(port as nat);
    let rest = text.skip(1);
    let n = inner.len() as int;
    assert(rest =~= inner + seq![']', ':'] + digits);
    rest.index_of_first_ensures(']');
    assert(rest[n] == ']');
    assert(rest.contains(']'));
    let i = rest.index_of_first(']')->0;
    if i < n {
        assert(rest[i] == inner[i]);
        assert(inner.contains(inner[i]));
    }
    assert(rest.take(n) =~= inner);
    assert(rest.skip(n + 1)[0] == ':');
    assert(rest.skip(n + 1).skip(1) =~= digits);
}

/// Whether a byte can stand in a quoted string as it is: a visible ASCII
/// character or a space, but neither a quote nor a backslash.
pub open spec fn plain_byte(b: u8) -> bool {
    0x20 <= b <= 0x7e && b != 0x22 && b != 0x5c
}

/// Whether all bytes can stand in a quoted string as they are.
pub open spec fn plain_bytes(bytes: Seq<u8>) -> bool {
    forall|i: int| 0 <= i < bytes.len() ==> plain_byte(#[trigger] bytes[i])
}

proof fn lemma_quoted_rest(bytes: Seq<u8>, rest: Seq<u8>, decoded: Seq<u8>)
    requires
        plain_bytes(bytes),
    ensures
        quoted_rest(bytes + seq![0x22u8] + rest, decoded) == Some((decoded + bytes, rest)),
    decreases bytes.len(),
{
    let all = bytes + seq![0x22u8] + rest;
    if bytes.len() == 0 {
        assert(all[0] == 0x22);
        assert(all.skip(1) =~= rest);
        assert(decoded + bytes =~= decoded);
    } else {
        assert(plain_byte(bytes[0]));
        assert(all[0] == bytes[0]);
        let left = bytes.skip(1);
        assert forall|i: int| 0 <= i < left.len() implies plain_byte(#[trigger] left[i]) by {
            assert(left[i] == bytes[i + 1]);
        }
        assert(all.skip(1) =~= left + seq![0x22u8] + rest);
        lemma_quoted_rest(left, rest, decoded.push(bytes[0]));
        assert(decoded.push(bytes[0]) + left =~= decoded + bytes);
    }
}

/// A quoted string holds what stands between its quotes, and a backslash
/// takes the next character as it is.
pub proof fn a_quoted_string_holds_its_characters(
    bytes: Seq<u8>,
    escaped: u8,
    rest: Seq<u8>,
)
    requires
        plain_bytes(bytes),
        escaped != 0x0d,
        escaped != 0x0a,
    ensures
        quoted_string(seq![0x22u8] + bytes + seq![0x22u8] + rest) == Some((bytes, rest)),
        quoted_string(seq![0x22u8, 0x5cu8, escaped] + bytes + seq![0x22u8] + rest) == Some(
            (seq![escaped] + bytes, rest),
        ),
{
    let one = seq![0x22u8] + bytes + seq![0x22u8] + rest;
    assert(one.skip(1) =~= bytes + seq![0x22u8] + rest);
    lemma_quoted_rest(bytes, rest, Seq::empty());
    assert(Seq::<u8>::empty() + bytes =~= bytes);
    let two = seq![0x22u8, 0x5cu8, escaped] + bytes + seq![0x22u8] + rest;
    assert(two.skip(1)[0] == 0x5c && two.skip(1)[1] == escaped);
    assert(two.skip(1).skip(2) =~= bytes + seq![0x22u8] + rest);
    assert(Seq::<u8>::empty().push(escaped) =~= seq![escaped]);
    lemma_quoted_rest(bytes, rest, seq![escaped]);
}

proof fn lemma_token(bytes: Seq<u8>, rest: Seq<u8>)
    requires
        bytes.len() > 0,
        forall|i: int| 0 <= i < bytes.len() ==> is_token_byte(#[trigger] bytes[i]),
        rest.len() > 0 ==> !is_token_byte(rest[0]),
    ensures
        token(bytes + rest) == Some((bytes, rest)),
{
    let all = bytes + rest;
    let class = |b: u8| is_token_byte(b);
    assert forall|i: int| 0 <= i < bytes.len() implies class(#[trigger] all[i]) by {
        assert(all[i] == bytes[i]);
    }
    lemma_run_len_is(all, class, bytes.len());
    assert(all.take(bytes.len() as int) =~= bytes);
    assert(all.skip(bytes.len() as int) =~= rest);
}

/// A token is made of letters, digits and the marks that HTTP allows there.
pub proof fn tokens_are_made_of_token_characters(b: u8)
    ensures
        is_token_byte(b) == (0x30 <= b <= 0x39 || 0x41 <= b <= 0x5a || 0x61 <= b <= 0x7a || seq![
            0x21u8,
            0x23u8,
            0x24u8,
            0x25u8,
            0x26u8,
            0x27u8,
            0x2au8,
            0x2bu8,
            0x2du8,
            0x2eu8,
            0x5eu8,
            0x5fu8,
            0x60u8,
            0x7cu8,
            0x7eu8,
        ].contains(b)),
{
    let marks = seq![
        0x21u8,
        0x23u8,
        0x24u8,
        0x25u8,
        0x26u8,
        0x27u8,
        0x2au8,
        0x2bu8,
        0x2du8,
        0x2eu8,
        0x5eu8,
        0x5fu8,
        0x60u8,
        0x7cu8,
        0x7eu8,
    ];
    assert(marks[0] == 0x21 && marks[1] == 0x23 && marks[2] == 0x24 && marks[3] == 0x25 && marks[4]
        == 0x26 && marks[5] == 0x27 && marks[6] == 0x2a && marks[7] == 0x2b);
    assert(marks[8] == 0x2d && marks[9] == 0x2e && marks[10] == 0x5e && marks[11] == 0x5f
        && marks[12] == 0x60 && marks[13] == 0x7c && marks[14] == 0x7e);
    if marks.contains(b) {
        let i = choose|i: int| 0 <= i < marks.len() && marks[i] == b;
        assert(0 <= i < 15);
    }
}

/// The parameter that says how long an alternative is fresh.
pub open spec fn max_age_text(seconds: nat) -> Seq<u8> {
    seq![0x3bu8, 0x20u8, 0x6du8, 0x61u8, 0x3du8] + digit_bytes(seconds)
}

proof fn lemma_max_age(seconds: nat)
    ensures
        parameters(max_age_text(seconds), None) == Some(delta_seconds(digit_bytes(seconds))),
{
    let s = max_age_text(seconds);
    let digits = digit_bytes(seconds);
    lemma_digit_bytes(seconds);
    seconds_are_read_as_written(seconds, Seq::empty());
    assert(spaces(Seq::<u8>::empty()));
    lemma_unspaced(s);
    let inner = s.skip(1);
    let bare = seq![0x6du8, 0x61u8, 0x3du8] + digits;
    assert(inner =~= seq![0x20u8] + bare);
    lemma_one_space(bare);
    let name = seq![0x6du8, 0x61u8];
    let after = seq![0x3du8] + digits;
    assert(bare =~= name + after);
    lemma_token(name, after);
    assert(after.skip(1) =~= digits);
    assert forall|i: int| 0 <= i < digits.len() implies is_token_byte(#[trigger] digits[i]) by {
        assert(0x30 <= digits[i] <= 0x39);
    }
    lemma_token(digits, Seq::empty());
    assert(digits + Seq::<u8>::empty() =~= digits);
    assert(digits[0] != 0x22) by {
        assert(0x30 <= digits[0] <= 0x39);
    }
    assert(ma_name() == name);
    bytes_differ_in_ascii_case_at_most(name, ma_name());
    assert(same_ignoring_case(name, ma_name()));
    let end = Seq::<u8>::empty();
    lemma_unspaced(end);
    assert(parameters(end, delta_seconds(digits)) == Some(delta_seconds(digits)));
}

proof fn lemma_unspaced(s: Seq<u8>)
    requires
        s.len() > 0 ==> s[0] != 32 && s[0] != 9,
    ensures
        trim_start(s) == s,
{
    let class = |b: u8| is_ows(b);
    assert(run_len(s, class) == 0);
    assert(s.skip(0) =~= s);
}

proof fn lemma_one_space(s: Seq<u8>)
    requires
        s.len() > 0,
        s[0] != 32,
        s[0] != 9,
    ensures
        trim_start(seq![0x20u8] + s) == s,
{
    let class = |b: u8| is_ows(b);
    let all = seq![0x20u8] + s;
    assert(all[0] == 0x20);
    assert(class(all[0]));
    assert(all.skip(1) =~= s);
    assert(run_len(s, class) == 0);
    assert(run_len(all, class) == 1);
}

/// An HTTP/3 alternative as a server writes it: where it is, and how long it
/// is fresh where that is said.
pub open spec fn written(authority: Seq<u8>, seconds: Option<nat>) -> Seq<u8> {
    seq![0x68u8, 0x33u8, 0x3du8, 0x22u8] + authority + seq![0x22u8] + (match seconds {
        Some(seconds) => max_age_text(seconds),
        None => Seq::empty(),
    })
}

proof fn lemma_alternative(
    origin_host: Seq<char>,
    authority: Seq<u8>,
    seconds: Option<nat>,
    host: Seq<char>,
    port: u16,
)
    requires
        plain_bytes(authority),
        location(origin_host, authority) == Some((host, port)),
    ensures
        alternative(origin_host, written(authority, seconds)) matches Some(Some(found)) && found.host
            == host && found.port == port && found.max_age == (match seconds {
            Some(seconds) => if seconds <= 2_147_483_648 {
                seconds as u64
            } else {
                2_147_483_648
            },
            None => 86_400,
        }),
{
    let s = written(authority, seconds);
    let tail = match seconds {
        Some(seconds) => max_age_text(seconds),
        None => Seq::empty(),
    };
    let id = seq![0x68u8, 0x33u8];
    let after = seq![0x3du8] + (seq![0x22u8] + authority + seq![0x22u8] + tail);
    assert(s =~= id + after);
    lemma_token(id, after);
    assert(id.skip(1) =~= seq![0x33u8]);
    assert(id.skip(1).skip(1) =~= Seq::empty());
    assert(valid_protocol_id(id.skip(1).skip(1)));
    assert(valid_protocol_id(id.skip(1)));
    assert(valid_protocol_id(id));
    assert(after.skip(1) =~= seq![0x22u8] + authority + seq![0x22u8] + tail);
    a_quoted_string_holds_its_characters(authority, 0x20, tail);
    assert(h3_id() == id);
    match seconds {
        Some(seconds) => {
            lemma_max_age(seconds);
            seconds_are_read_as_written(seconds, Seq::empty());
        },
        None => {
            lemma_unspaced(tail);
        },
    }
}

/// Inside the quotes of an alternative.
proof fn lemma_quote_inside(value: Seq<u8>, from: int, to: int, i: int)
    requires
        0 <= from <= i <= to <= value.len(),
        quote_state(value, from) == (true, false),
        forall|k: int| from <= k < to ==> #[trigger] value[k] != 0x22 && value[k] != 0x5c,
    ensures
        quote_state(value, i) == (true, false),
    decreases i - from,
{
    if i > from {
        lemma_quote_inside(value, from, to, i - 1);
        assert(value[i - 1] != 0x22 && value[i - 1] != 0x5c);
    }
}

/// Outside quotes.
proof fn lemma_quote_outside(value: Seq<u8>, from: int, to: int, i: int)
    requires
        0 <= from <= i <= to <= value.len(),
        quote_state(value, from) == (false, false),
        forall|k: int| from <= k < to ==> #[trigger] value[k] != 0x22,
    ensures
        quote_state(value, i) == (false, false),
    decreases i - from,
{
    if i > from {
        lemma_quote_outside(value, from, to, i - 1);
        assert(value[i - 1] != 0x22);
    }
}

proof fn lemma_no_separator(value: Seq<u8>, i: int)
    requires
        0 <= i <= value.len(),
        forall|k: int| 0 <= k < i ==> !#[trigger] is_separator(value, k),
    ensures
        ended_members(value, i).len() == 0,
        member_start(value, i) == 0,
    decreases i,
{
    if i > 0 {
        lemma_no_separator(value, i - 1);
        assert(!is_separator(value, i - 1));
    }
}

proof fn lemma_single_member(authority: Seq<u8>, seconds: Option<nat>)
    requires
        plain_bytes(authority),
    ensures
        members(written(authority, seconds)) == seq![written(authority, seconds)],
        trimmed(written(authority, seconds)) == written(authority, seconds),
        well_split(written(authority, seconds)),
{
    let value = written(authority, seconds);
    let n = value.len() as int;
    let close = 4 + authority.len() as int;
    assert(value[0] == 0x68 && value[1] == 0x33 && value[2] == 0x3d && value[3] == 0x22);
    assert(quote_state(value, 0) == (false, false));
    assert(quote_state(value, 1) == (false, false));
    assert(quote_state(value, 2) == (false, false));
    assert(quote_state(value, 3) == (false, false));
    assert(quote_state(value, 4) == (true, false));
    assert forall|k: int| 4 <= k < close implies #[trigger] value[k] != 0x22 && value[k]
        != 0x5c by {
        assert(value[k] == authority[k - 4]);
        assert(plain_byte(authority[k - 4]));
    }
    lemma_quote_inside(value, 4, close, close);
    assert(value[close] == 0x22);
    assert(quote_state(value, close + 1) == (false, false));
    let tail = match seconds {
        Some(seconds) => max_age_text(seconds),
        None => Seq::empty(),
    };
    if seconds is Some {
        lemma_digit_bytes(seconds->0);
    }
    assert forall|k: int| close < k < n implies #[trigger] value[k] != 0x22 && value[k] != 0x2c by {
        assert(value[k] == tail[k - close - 1]);
        if k - close - 1 >= 5 {
            let digits = digit_bytes(seconds->0);
            assert(tail[k - close - 1] == digits[k - close - 6]);
            assert(0x30 <= digits[k - close - 6] <= 0x39);
        }
    }
    lemma_quote_outside(value, close + 1, n, n);
    assert forall|k: int| 0 <= k < n implies !#[trigger] is_separator(value, k) by {
        if 4 <= k <= close {
            lemma_quote_inside(value, 4, close, k);
        } else if k > close {
            assert(value[k] != 0x2c);
        }
    }
    lemma_no_separator(value, n);
    assert(ended_members(value, n) =~= Seq::empty());
    assert(value.subrange(0, n) =~= value);
    assert(members(value) =~= seq![value]);
    let none = Seq::<u8>::empty();
    assert(value.last() != 32 && value.last() != 9) by {
        if seconds is Some {
            let digits = digit_bytes(seconds->0);
            assert(value.last() == digits[digits.len() - 1]);
            assert(0x30 <= digits[digits.len() - 1] <= 0x39);
        } else {
            assert(value.last() == 0x22);
        }
    }
    optional_white_space_is_taken_off(none, value, none);
    assert(none + value + none =~= value);
    assert forall|k: int| 0 <= k < members(value).len() implies trimmed(
        #[trigger] members(value)[k],
    ).len() > 0 by {
        assert(members(value)[k] == value);
    }
}

/// What a server writes of an HTTP/3 alternative is what is learned of it:
/// its host, its port and its lifetime, a day where none is written, unless
/// the response is as old as that already.
pub proof fn an_alternative_is_learned_as_it_was_written(
    origin_host: Seq<char>,
    authority: Seq<u8>,
    seconds: Option<nat>,
    host: Seq<char>,
    port: u16,
    age: u64,
)
    requires
        plain_bytes(authority),
        location(origin_host, authority) == Some((host, port)),
    ensures
        ({
            let lifetime: u64 = match seconds {
                Some(seconds) => if seconds <= 2_147_483_648 {
                    seconds as u64
                } else {
                    2_147_483_648
                },
                None => 86_400,
            };
            member_update(origin_host, written(authority, seconds), age) == (
            FieldUpdateView::Replace {
                alternative: if lifetime > age {
                    Some(AdvertisedView { host, port, max_age: lifetime })
                } else {
                    None
                },
                age,
            })
        }),
{
    let value = written(authority, seconds);
    lemma_single_member(authority, seconds);
    lemma_alternative(origin_host, authority, seconds, host, port);
    let list = members(value);
    assert(list.len() == 1 && list[0] == value);
    assert(value[0] == 0x68 && clear_word()[0] == 0x63);
    assert(value != clear_word());
    assert(list.drop_last() =~= Seq::empty());
    assert(first_fresh(origin_host, list.drop_last(), age) is None);
}

/// A `clear` withdraws every alternative, alone or with white space around
/// it.
pub proof fn clear_withdraws(origin_host: Seq<char>, before: Seq<u8>, behind: Seq<u8>, age: u64)
    requires
        spaces(before),
        spaces(behind),
    ensures
        member_update(
            origin_host,
            before + seq![0x63u8, 0x6cu8, 0x65u8, 0x61u8, 0x72u8] + behind,
            age,
        ) == FieldUpdateView::Clear,
{
    let word = seq![0x63u8, 0x6cu8, 0x65u8, 0x61u8, 0x72u8];
    let value = before + word + behind;
    let n = value.len() as int;
    assert forall|k: int| 0 <= k < n implies #[trigger] value[k] != 0x22 && value[k] != 0x2c by {
        if k < before.len() {
            assert(value[k] == before[k]);
        } else if k >= before.len() + 5 {
            assert(value[k] == behind[k - before.len() - 5]);
        }
    }
    assert(quote_state(value, 0) == (false, false));
    lemma_quote_outside(value, 0, n, n);
    assert forall|k: int| 0 <= k < n implies !#[trigger] is_separator(value, k) by {
        assert(value[k] != 0x2c);
    }
    lemma_no_separator(value, n);
    assert(value.subrange(0, n) =~= value);
    assert(members(value) =~= seq![value]);
    optional_white_space_is_taken_off(before, word, behind);
    assert(clear_word() == word);
    assert forall|k: int| 0 <= k < members(value).len() implies trimmed(
        #[trigger] members(value)[k],
    ).len() > 0 by {
        assert(members(value)[k] == value);
    }
    assert(trimmed(members(value)[0]) == clear_word());
}

/// Of several members the first HTTP/3 alternative that is still fresh is
/// learned.
pub proof fn the_first_fresh_alternative_is_learned(
    origin_host: Seq<char>,
    list: Seq<Seq<u8>>,
    age: u64,
    k: int,
)
    ensures
        ({
            let fresh = |i: int|
                alternative(origin_host, trimmed(list[i])) matches Some(Some(found))
                    && found.max_age > age;
            &&& 0 <= k < list.len() && fresh(k) && (forall|j: int|
                0 <= j < k ==> !#[trigger] fresh(j)) ==> first_fresh(origin_host, list, age)
                == alternative(origin_host, trimmed(list[k]))->0
            &&& (forall|j: int| 0 <= j < list.len() ==> !#[trigger] fresh(j)) ==> first_fresh(
                origin_host,
                list,
                age,
            ) is None
        }),
    decreases list.len(),
{
    let fresh = |i: int|
        alternative(origin_host, trimmed(list[i])) matches Some(Some(found)) && found.max_age > age;
    if list.len() > 0 {
        let front = list.drop_last();
        let before = |i: int|
            alternative(origin_host, trimmed(front[i])) matches Some(Some(found)) && found.max_age
                > age;
        assert forall|i: int| 0 <= i < front.len() implies #[trigger] before(i) == fresh(i) by {
            assert(front[i] == list[i]);
        }
        the_first_fresh_alternative_is_learned(origin_host, front, age, k);
        if forall|j: int| 0 <= j < list.len() ==> !#[trigger] fresh(j) {
            assert forall|j: int| 0 <= j < front.len() implies !#[trigger] before(j) by {
                assert(!fresh(j));
            }
            assert(!fresh(list.len() - 1));
        }
        if 0 <= k < list.len() && fresh(k) && (forall|j: int| 0 <= j < k ==> !#[trigger] fresh(j)) {
            if k < front.len() {
                assert(before(k));
                assert forall|j: int| 0 <= j < k implies !#[trigger] before(j) by {
                    assert(!fresh(j));
                }
                assert(front[k] == list[k]);
            } else {
                assert forall|j: int| 0 <= j < front.len() implies !#[trigger] before(j) by {
                    assert(!fresh(j));
                }
            }
        }
    }
}

/// One malformed member spoils the whole field, and so does a quoted string
/// that does not end; a `clear` among well-split members wins over both a
/// malformed one and any alternative.
pub proof fn a_malformed_member_spoils_the_field(
    origin_host: Seq<char>,
    value: Seq<u8>,
    age: u64,
    k: int,
)
    ensures
        quote_state(value, value.len() as int) != (false, false) ==> member_update(
            origin_host,
            value,
            age,
        ) == FieldUpdateView::Malformed,
        0 <= k < members(value).len() && trimmed(members(value)[k]).len() == 0 ==> member_update(
            origin_host,
            value,
            age,
        ) == FieldUpdateView::Malformed,
        0 <= k < members(value).len() && alternative(origin_host, trimmed(members(value)[k])) is None
            ==> member_update(origin_host, value, age) == FieldUpdateView::Malformed
            || member_update(origin_host, value, age) == FieldUpdateView::Clear,
        well_split(value) && 0 <= k < members(value).len() && trimmed(members(value)[k]) == seq![
            0x63u8,
            0x6cu8,
            0x65u8,
            0x61u8,
            0x72u8,
        ] ==> member_update(origin_host, value, age) == FieldUpdateView::Clear,
{
    if 0 <= k < members(value).len() {
        let list = members(value);
        assert(trimmed(list[k]) == trimmed(members(value)[k]));
    }
}

/// An alternative of another protocol is passed over, not malformed.
pub proof fn another_protocol_is_passed_over(origin_host: Seq<char>, member: Seq<u8>)
    ensures
        alternative(origin_host, member) matches Some(Some(_)) ==> (token(member) matches Some(
            (protocol, _),
        ) && protocol == seq![0x68u8, 0x33u8]),
        alternative(origin_host, member) matches Some(None) ==> (token(member) matches Some(
            (protocol, _),
        ) && protocol != seq![0x68u8, 0x33u8]),
{
}

/// The fields of a name count in any case and in order, and their values are
/// joined by a comma and a space.
pub proof fn field_values_are_joined(fields: Seq<HeaderView>, field: HeaderView, name: Seq<char>)
    requires
        lowercase(name) == name,
    ensures
        same_letters(field.name, name) ==> values_of(fields.push(field), name) == values_of(
            fields,
            name,
        ).push(field.value),
        !same_letters(field.name, name) ==> values_of(fields.push(field), name) == values_of(
            fields,
            name,
        ),
        values_of(Seq::empty(), name).len() == 0,
        ({
            let values = values_of(fields, name);
            combined(values.push(field.value)) == (if combined(values).len() == 0 {
                field.value
            } else {
                combined(values) + seq![0x2cu8, 0x20u8] + field.value
            })
        }),
{
    lower_case_ignores_ascii_case_alone(field.name, name);
    assert(fields.push(field).drop_last() =~= fields);
    let values = values_of(fields, name);
    assert(values.push(field.value).drop_last() =~= values);
}

/// The age of a response is that of its one `Age` field, zero without one;
/// two of them, or one that is no number, leave nothing to learn.
pub proof fn an_age_is_said_once(ages: Seq<Seq<u8>>, seconds: nat)
    ensures
        ages.len() == 0 ==> response_age(ages) == Some(0u64),
        ages.len() >= 2 ==> response_age(ages) is None,
        response_age(seq![digit_bytes(seconds)]) == delta_seconds(digit_bytes(seconds)),
{
    lemma_digit_bytes(seconds);
    let none = Seq::<u8>::empty();
    let digits = digit_bytes(seconds);
    assert(0x30 <= digits[0] <= 0x39);
    assert(0x30 <= digits[digits.len() - 1] <= 0x39);
    optional_white_space_is_taken_off(none, digits, none);
    assert(none + digits + none =~= digits);
}

/// What a response says: nothing without an `Alt-Svc` field or with a bad
/// `Age`, else what its joined fields say at that age.
pub proof fn a_response_says_what_its_fields_say(origin_host: Seq<char>, fields: Seq<HeaderView>)
    ensures
        ({
            let values = values_of(fields, "alt-svc"@);
            match response_age(values_of(fields, "age"@)) {
                None => field_update(origin_host, fields) == FieldUpdateView::Malformed,
                Some(age) => if values.len() == 0 {
                    field_update(origin_host, fields) == FieldUpdateView::Absent
                } else {
                    field_update(origin_host, fields) == member_update(
                        origin_host,
                        combined(values),
                        age,
                    )
                },
            }
        }),
{
}

} // verus!
