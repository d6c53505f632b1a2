//! The `Alt-Svc` response field: its grammar and what one response says.

use vstd::prelude::*;
use vstd::utf8::{decode_utf8, valid_utf8};
use crate::ascii::{
    BACKSLASH, COMMA, CR, DQUOTE, EQUALS, LF, LOWER_A, LOWER_Z, NINE, PERCENT, SEMICOLON, SPACE,
    TAB, UPPER_A, UPPER_F, UPPER_Z, ZERO,
};
use crate::endpoint::{copy_bytes, headers_view, HeaderView, RequestHeader};
use crate::host::{
    format_ipv4, format_ipv6, ipv4_text, ipv6_literal, ipv6_text, parse_host, parse_ipv6, url_host,
    Host, HostView,
};
use crate::text::{
    eq_ignore_case, from_chars, is_ows, lemma_run_len_bounds, lemma_run_len_is, lowercase, run_len,
    same_bytes, same_ignoring_case, same_text, to_chars, to_lowercase, trim_ows, trim_start,
    trimmed, utf8_text,
};

verus! {

/// How long an alternative without `ma` stays fresh, in seconds.
pub const DEFAULT_MAX_AGE: u64 = 86_400;

/// The largest number of seconds that is told apart.
pub const MAX_DELTA_SECONDS: u64 = 2_147_483_648;

/// Whether `b` may stand in a token.
pub open spec fn is_token_byte(b: u8) -> bool {
    ||| LOWER_A <= b && b <= LOWER_Z
    ||| UPPER_A <= b && b <= UPPER_Z
    ||| ZERO <= b && b <= NINE
    ||| b == 0x21 || b == 0x23 || b == 0x24 || b == PERCENT || b == 0x26 || b == 0x27
    ||| b == 0x2a || b == 0x2b || b == 0x2d || b == 0x2e || b == 0x5e || b == 0x5f
    ||| b == 0x60 || b == 0x7c || b == 0x7e
}

/// Whether `b` may stand unescaped in a quoted string.
pub open spec fn is_quoted_byte(b: u8) -> bool {
    b == TAB || b == SPACE || b == 0x21 || (0x23 <= b && b <= 0x5b) || (0x5d <= b && b <= 0x7e)
        || b >= 0x80
}

/// The token that `s` starts with, and what follows it.
pub open spec fn token(s: Seq<u8>) -> Option<(Seq<u8>, Seq<u8>)> {
    let n = run_len(s, |b: u8| is_token_byte(b)) as int;
    if n == 0 {
        None
    } else {
        Some((s.take(n), s.skip(n)))
    }
}

/// What an opened quoted string holds after `decoded`, and what follows it.
pub open spec fn quoted_rest(s: Seq<u8>, decoded: Seq<u8>) -> Option<(Seq<u8>, Seq<u8>)>
    decreases s.len(),
{
    if s.len() == 0 {
        None
    } else if s[0] == DQUOTE {
        Some((decoded, s.skip(1)))
    } else if s[0] == BACKSLASH {
        if s.len() < 2 || s[1] == CR || s[1] == LF {
            None
        } else {
            quoted_rest(s.skip(2), decoded.push(s[1]))
        }
    } else if is_quoted_byte(s[0]) {
        quoted_rest(s.skip(1), decoded.push(s[0]))
    } else {
        None
    }
}

/// The quoted string that `s` starts with, and what follows it.
pub open spec fn quoted_string(s: Seq<u8>) -> Option<(Seq<u8>, Seq<u8>)> {
    if s.len() > 0 && s[0] == DQUOTE {
        quoted_rest(s.skip(1), Seq::empty())
    } else {
        None
    }
}

/// The parameter value that `s` starts with, whether it is quoted, and what
/// follows it.
pub open spec fn parameter_value(s: Seq<u8>) -> Option<(Seq<u8>, bool, Seq<u8>)> {
    if s.len() > 0 && s[0] == DQUOTE {
        match quoted_string(s) {
            Some((value, rest)) => Some((value, true, rest)),
            None => None,
        }
    } else {
        match token(s) {
            Some((value, rest)) => Some((value, false, rest)),
            None => None,
        }
    }
}

/// Whether `b` is a decimal digit.
pub open spec fn is_digit(b: u8) -> bool {
    ZERO <= b && b <= NINE
}

/// The number that decimal digits spell.
pub open spec fn digits_value(s: Seq<u8>) -> nat
    decreases s.len(),
{
    if s.len() == 0 {
        0
    } else {
        digits_value(s.drop_last()) * 10 + (s.last() - ZERO) as nat
    }
}

/// A number of seconds: digits alone, cut at [`MAX_DELTA_SECONDS`].
pub open spec fn delta_seconds(s: Seq<u8>) -> Option<u64> {
    if s.len() == 0 || exists|i: int| 0 <= i < s.len() && !is_digit(#[trigger] s[i]) {
        None
    } else if digits_value(s) <= MAX_DELTA_SECONDS {
        Some(digits_value(s) as u64)
    } else {
        Some(MAX_DELTA_SECONDS)
    }
}

/// The name of the max-age parameter.
pub open spec fn ma_name() -> Seq<u8> {
    seq![0x6d, 0x61]
}

/// The `ma` parameter of the parameter list `s`, given one seen before it.
pub open spec fn parameters(s: Seq<u8>, seen: Option<u64>) -> Option<Option<u64>>
    decreases s.len(),
{
    proof {
        lemma_parameter_shortens(s);
    }
    let t = trim_start(s);
    if t.len() == 0 {
        Some(seen)
    } else if t[0] != SEMICOLON {
        None
    } else {
        match token(trim_start(t.skip(1))) {
            None => None,
            Some((name, after)) => if after.len() == 0 || after[0] != EQUALS {
                None
            } else {
                match parameter_value(after.skip(1)) {
                    None => None,
                    Some((value, quoted, rest)) => if same_ignoring_case(name, ma_name()) {
                        if seen is Some || quoted {
                            None
                        } else {
                            match delta_seconds(value) {
                                None => None,
                                Some(seconds) => parameters(rest, Some(seconds)),
                            }
                        }
                    } else {
                        parameters(rest, seen)
                    },
                }
            },
        }
    }
}

/// The value of a hexadecimal digit in capitals.
pub open spec fn hex_value(b: u8) -> u8 {
    if ZERO <= b && b <= NINE {
        (b - ZERO) as u8
    } else {
        (b - UPPER_A + 10) as u8
    }
}

/// Whether `b` is a hexadecimal digit in capitals.
pub open spec fn is_capital_hex(b: u8) -> bool {
    (ZERO <= b && b <= NINE) || (UPPER_A <= b && b <= UPPER_F)
}

/// Whether percent-encoding is used in a protocol identifier exactly where
/// it has to be.
pub open spec fn valid_protocol_id(s: Seq<u8>) -> bool
    decreases s.len(),
{
    if s.len() == 0 {
        true
    } else if s[0] != PERCENT {
        valid_protocol_id(s.skip(1))
    } else if s.len() < 3 || !is_capital_hex(s[1]) || !is_capital_hex(s[2]) {
        false
    } else {
        let decoded = (hex_value(s[1]) * 16 + hex_value(s[2])) as u8;
        (decoded == PERCENT || !is_token_byte(decoded)) && valid_protocol_id(s.skip(3))
    }
}

/// Whether `c` is a decimal digit.
pub open spec fn is_digit_char(c: char) -> bool {
    '0' <= c && c <= '9'
}

/// The number that decimal digits spell.
pub open spec fn number(s: Seq<char>) -> nat
    decreases s.len(),
{
    if s.len() == 0 {
        0
    } else {
        number(s.drop_last()) * 10 + (s.last() as u32 - '0' as u32) as nat
    }
}

/// A text without its plus sign.
pub open spec fn unsigned(s: Seq<char>) -> Seq<char> {
    if s.len() > 0 && s[0] == '+' {
        s.skip(1)
    } else {
        s
    }
}

/// Whether a text is one or more digits.
pub open spec fn only_digits(s: Seq<char>) -> bool {
    s.len() > 0 && forall|i: int| 0 <= i < s.len() ==> is_digit_char(#[trigger] s[i])
}

/// The port that a text spells: digits after an optional plus sign, neither
/// zero nor beyond 16 bits.
pub open spec fn port_number(s: Seq<char>) -> Option<u16> {
    let digits = unsigned(s);
    if !only_digits(digits) {
        None
    } else if number(digits) == 0 || number(digits) > 65535 {
        None
    } else {
        Some(number(digits) as u16)
    }
}

/// The host and port that an alternative authority names. An empty host is
/// the origin's own.
pub open spec fn location(origin_host: Seq<char>, value: Seq<u8>) -> Option<(Seq<char>, u16)> {
    if !valid_utf8(value) {
        None
    } else {
        let text = decode_utf8(value);
        if text.len() > 0 && text[0] == '[' {
            bracketed_location(text.skip(1))
        } else {
            plain_location(origin_host, text)
        }
    }
}

/// The location that an authority with an IPv6 literal names, after its
/// opening bracket.
pub open spec fn bracketed_location(inner: Seq<char>) -> Option<(Seq<char>, u16)> {
    match inner.index_of_first(']') {
        None => None,
        Some(i) => {
            let suffix = inner.skip(i + 1);
            if suffix.len() == 0 || suffix[0] != ':' {
                None
            } else {
                match (ipv6_literal(inner.take(i)), port_number(suffix.skip(1))) {
                    (Some(bits), Some(port)) => Some((ipv6_text(bits), port)),
                    _ => None,
                }
            }
        },
    }
}

/// The location that an authority without brackets names.
pub open spec fn plain_location(origin_host: Seq<char>, text: Seq<char>) -> Option<
    (Seq<char>, u16),
> {
    match text.index_of_last(':') {
        None => None,
        Some(i) => {
            let host = text.take(i);
            if host.contains(':') {
                None
            } else {
                match (named_host(origin_host, host), port_number(text.skip(i + 1))) {
                    (Some(name), Some(port)) => Some((name, port)),
                    _ => None,
                }
            }
        },
    }
}

/// The canonical text of an alternative's host without brackets.
pub open spec fn named_host(origin_host: Seq<char>, host: Seq<char>) -> Option<Seq<char>> {
    if host.len() == 0 {
        Some(origin_host)
    } else {
        match url_host(host) {
            Some(HostView::Domain(domain)) => Some(domain),
            Some(HostView::Ipv4(bits)) => Some(ipv4_text(bits)),
            _ => None,
        }
    }
}

/// An HTTP/3 alternative that a response advertises.
#[derive(Debug)]
pub struct Advertised {
    pub host: String,
    pub port: u16,
    /// How long it is fresh from when the response was generated, in seconds.
    pub max_age: u64,
}

/// What an [`Advertised`] alternative holds.
pub struct AdvertisedView {
    pub host: Seq<char>,
    pub port: u16,
    pub max_age: u64,
}

impl View for Advertised {
    type V = AdvertisedView;

    open spec fn view(&self) -> AdvertisedView {
        AdvertisedView { host: self.host@, port: self.port, max_age: self.max_age }
    }
}

/// What an optional alternative holds.
pub open spec fn advertised_view(advertised: Option<Advertised>) -> Option<AdvertisedView> {
    match advertised {
        Some(advertised) => Some(advertised@),
        None => None,
    }
}

/// The protocol identifier of HTTP/3.
pub open spec fn h3_id() -> Seq<u8> {
    seq![0x68, 0x33]
}

/// What one member of the field says: nothing when it is malformed, no
/// alternative when its protocol is another one.
pub open spec fn alternative(origin_host: Seq<char>, s: Seq<u8>) -> Option<Option<AdvertisedView>> {
    match token(s) {
        None => None,
        Some((protocol, after)) => if !valid_protocol_id(protocol) || after.len() == 0 || after[0]
            != EQUALS {
            None
        } else {
            match quoted_string(after.skip(1)) {
                None => None,
                Some((authority, rest)) => match (
                    parameters(rest, None),
                    location(origin_host, authority),
                ) {
                    (Some(max_age), Some((host, port))) => if protocol != h3_id() {
                        Some(None)
                    } else {
                        Some(
                            Some(
                                AdvertisedView {
                                    host,
                                    port,
                                    max_age: match max_age {
                                        Some(seconds) => seconds,
                                        None => DEFAULT_MAX_AGE,
                                    },
                                },
                            ),
                        )
                    },
                    _ => None,
                },
            }
        },
    }
}

/// Whether `i` bytes of a field end inside a quoted string, and whether the
/// last of them escapes the next one.
pub open spec fn quote_state(value: Seq<u8>, i: int) -> (bool, bool)
    decreases i,
{
    if i <= 0 {
        (false, false)
    } else {
        let (quoted, escaped) = quote_state(value, i - 1);
        let b = value[i - 1];
        if escaped {
            (quoted, false)
        } else if b == BACKSLASH && quoted {
            (quoted, true)
        } else if b == DQUOTE {
            (!quoted, false)
        } else {
            (quoted, false)
        }
    }
}

/// Whether the byte at `i` is a comma between members.
pub open spec fn is_separator(value: Seq<u8>, i: int) -> bool {
    value[i] == COMMA && quote_state(value, i) == (false, false)
}

/// Where the member that holds the byte at `i` starts.
pub open spec fn member_start(value: Seq<u8>, i: int) -> int
    decreases i,
{
    if i <= 0 {
        0
    } else if is_separator(value, i - 1) {
        i
    } else {
        member_start(value, i - 1)
    }
}

/// The members that end before the byte at `i`.
pub open spec fn ended_members(value: Seq<u8>, i: int) -> Seq<Seq<u8>>
    decreases i,
{
    if i <= 0 {
        Seq::empty()
    } else if is_separator(value, i - 1) {
        ended_members(value, i - 1).push(value.subrange(member_start(value, i - 1), i - 1))
    } else {
        ended_members(value, i - 1)
    }
}

/// All members of a field value.
pub open spec fn members(value: Seq<u8>) -> Seq<Seq<u8>> {
    let n = value.len() as int;
    ended_members(value, n).push(value.subrange(member_start(value, n), n))
}

/// Whether every quoted string of a field ends and no member is blank.
pub open spec fn well_split(value: Seq<u8>) -> bool {
    &&& quote_state(value, value.len() as int) == (false, false)
    &&& forall|k: int| 0 <= k < members(value).len() ==> trimmed(#[trigger] members(value)[k]).len() > 0
}

/// The values of the fields called `name`, in order.
pub open spec fn values_of(fields: Seq<HeaderView>, name: Seq<char>) -> Seq<Seq<u8>>
    decreases fields.len(),
{
    if fields.len() == 0 {
        Seq::empty()
    } else if lowercase(fields.last().name) == name {
        values_of(fields.drop_last(), name).push(fields.last().value)
    } else {
        values_of(fields.drop_last(), name)
    }
}

/// Field values joined as one list.
pub open spec fn combined(values: Seq<Seq<u8>>) -> Seq<u8>
    decreases values.len(),
{
    if values.len() == 0 {
        Seq::empty()
    } else {
        let before = combined(values.drop_last());
        if before.len() == 0 {
            values.last()
        } else {
            before + seq![COMMA, SPACE] + values.last()
        }
    }
}

/// The member that withdraws every alternative.
pub open spec fn clear_word() -> Seq<u8> {
    seq![0x63, 0x6c, 0x65, 0x61, 0x72]
}

/// The first alternative that is still fresh after `age` seconds.
pub open spec fn first_fresh(origin_host: Seq<char>, list: Seq<Seq<u8>>, age: u64) -> Option<
    AdvertisedView,
>
    decreases list.len(),
{
    if list.len() == 0 {
        None
    } else {
        match first_fresh(origin_host, list.drop_last(), age) {
            Some(found) => Some(found),
            None => match alternative(origin_host, trimmed(list.last())) {
                Some(Some(found)) => if found.max_age > age {
                    Some(found)
                } else {
                    None
                },
                _ => None,
            },
        }
    }
}

/// What the response fields say of alternatives.
#[derive(Debug)]
pub enum FieldUpdate {
    /// A field is malformed, so nothing is learned.
    Malformed,
    /// There is no `Alt-Svc` field.
    Absent,
    /// Every alternative is withdrawn.
    Clear,
    /// This alternative, generated `age` seconds ago, replaces earlier ones.
    Replace { alternative: Option<Advertised>, age: u64 },
}

/// What a [`FieldUpdate`] holds.
pub enum FieldUpdateView {
    Malformed,
    Absent,
    Clear,
    Replace { alternative: Option<AdvertisedView>, age: u64 },
}

impl View for FieldUpdate {
    type V = FieldUpdateView;

    open spec fn view(&self) -> FieldUpdateView {
        match self {
            FieldUpdate::Malformed => FieldUpdateView::Malformed,
            FieldUpdate::Absent => FieldUpdateView::Absent,
            FieldUpdate::Clear => FieldUpdateView::Clear,
            FieldUpdate::Replace { alternative, age } => FieldUpdateView::Replace {
                alternative: advertised_view(*alternative),
                age: *age,
            },
        }
    }
}

/// The age that a response's `Age` fields give: none may be repeated or
/// malformed.
pub open spec fn response_age(ages: Seq<Seq<u8>>) -> Option<u64> {
    if ages.len() == 0 {
        Some(0)
    } else if ages.len() == 1 {
        delta_seconds(trimmed(ages[0]))
    } else {
        None
    }
}

/// What the fields of a response to `origin_host` say of alternatives.
pub open spec fn field_update(origin_host: Seq<char>, fields: Seq<HeaderView>) -> FieldUpdateView {
    let values = values_of(fields, "alt-svc"@);
    match response_age(values_of(fields, "age"@)) {
        None => FieldUpdateView::Malformed,
        Some(age) => if values.len() == 0 {
            FieldUpdateView::Absent
        } else {
            member_update(origin_host, combined(values), age)
        },
    }
}

/// What one joined field value says of alternatives.
pub open spec fn member_update(origin_host: Seq<char>, value: Seq<u8>, age: u64) -> FieldUpdateView {
    let list = members(value);
    if !well_split(value) {
        FieldUpdateView::Malformed
    } else if exists|k: int| 0 <= k < list.len() && trimmed(#[trigger] list[k]) == clear_word() {
        FieldUpdateView::Clear
    } else if exists|k: int|
        0 <= k < list.len() && alternative(origin_host, trimmed(#[trigger] list[k])) is None {
        FieldUpdateView::Malformed
    } else {
        FieldUpdateView::Replace { alternative: first_fresh(origin_host, list, age), age }
    }
}

proof fn lemma_quoted_rest_shortens(s: Seq<u8>, decoded: Seq<u8>)
    ensures
        quoted_rest(s, decoded) matches Some((_, rest)) ==> rest.len() < s.len(),
    decreases s.len(),
{
    if s.len() > 0 && s[0] != DQUOTE {
        if s[0] == BACKSLASH {
            if s.len() >= 2 {
                lemma_quoted_rest_shortens(s.skip(2), decoded.push(s[1]));
            }
        } else {
            lemma_quoted_rest_shortens(s.skip(1), decoded.push(s[0]));
        }
    }
}

/// Reading a parameter leaves less to read.
pub proof fn lemma_parameter_shortens(s: Seq<u8>)
    ensures
        trim_start(s).len() <= s.len(),
        trim_start(s).len() > 0 ==> (token(trim_start(trim_start(s).skip(1))) matches Some((_, after))
            ==> (after.len() > 0 ==> (parameter_value(after.skip(1)) matches Some((_, _, rest))
            ==> rest.len() < s.len()))),
{
    lemma_run_len_bounds(s, |b: u8| is_ows(b));
    let t = trim_start(s);
    if t.len() > 0 {
        let u = t.skip(1);
        lemma_run_len_bounds(u, |b: u8| is_ows(b));
        let v = trim_start(u);
        lemma_run_len_bounds(v, |b: u8| is_token_byte(b));
        if let Some((_, after)) = token(v) {
            if after.len() > 0 {
                let w = after.skip(1);
                lemma_run_len_bounds(w, |b: u8| is_token_byte(b));
                if w.len() > 0 {
                    lemma_quoted_rest_shortens(w.skip(1), Seq::empty());
                }
            }
        }
    }
}

/// Reads a field from its start.
struct Cursor<'a> {
    data: &'a [u8],
    pos: usize,
}

impl<'a> Cursor<'a> {
    spec fn wf(&self) -> bool {
        self.pos <= self.data@.len()
    }

    /// What has not been read yet.
    spec fn rest(&self) -> Seq<u8> {
        self.data@.skip(self.pos as int)
    }

    fn new(data: &'a [u8]) -> (r: Self)
        ensures
            r.wf(),
            r.rest() == data@,
    {
        let r = Cursor { data, pos: 0 };
        assert(r.rest() =~= data@);
        r
    }

    fn is_empty(&self) -> (r: bool)
        requires
            self.wf(),
        ensures
            r == (self.rest().len() == 0),
    {
        self.pos == self.data.len()
    }

    fn peek(&self, expected: u8) -> (r: bool)
        requires
            self.wf(),
        ensures
            r == (self.rest().len() > 0 && self.rest()[0] == expected),
            r ==> self.pos < self.data.len(),
    {
        self.pos < self.data.len() && self.data[self.pos] == expected
    }

    fn ows(&mut self)
        requires
            old(self).wf(),
        ensures
            final(self).wf(),
            final(self).rest() == trim_start(old(self).rest()),
    {
        let ghost before = self.rest();
        let ghost class = |b: u8| is_ows(b);
        let start: usize = self.pos;
        let mut n: usize = self.pos;
        while n < self.data.len() && (self.data[n] == SPACE || self.data[n] == TAB)
            invariant
                start <= n <= self.data@.len(),
                before == self.data@.skip(start as int),
                class == (|b: u8| is_ows(b)),
                forall|i: int| 0 <= i < n - start ==> class(#[trigger] before[i]),
            decreases self.data@.len() - n,
        {
            assert(before[n - start] == self.data@[n as int]);
            n = n + 1;
        }
        proof {
            if n < self.data@.len() {
                assert(before[n - start] == self.data@[n as int]);
            }
            lemma_run_len_is(before, class, (n - start) as nat);
        }
        self.pos = n;
        assert(self.rest() =~= before.skip(n - start));
    }

    fn byte(&mut self, expected: u8) -> (r: bool)
        requires
            old(self).wf(),
        ensures
            final(self).wf(),
            r == (old(self).rest().len() > 0 && old(self).rest()[0] == expected),
            r ==> final(self).rest() == old(self).rest().skip(1),
            !r ==> final(self).rest() == old(self).rest(),
    {
        if !self.peek(expected) {
            return false;
        }
        self.pos = self.pos + 1;
        assert(self.rest() =~= old(self).rest().skip(1));
        true
    }

    fn token(&mut self) -> (r: Option<&'a [u8]>)
        requires
            old(self).wf(),
        ensures
            final(self).wf(),
            match token(old(self).rest()) {
                Some((value, rest)) => r is Some && r->0@ == value && final(self).rest() == rest,
                None => r is None,
            },
    {
        let ghost before = self.rest();
        let ghost class = |b: u8| is_token_byte(b);
        let start: usize = self.pos;
        let mut n: usize = self.pos;
        while n < self.data.len() && token_byte(self.data[n])
            invariant
                start <= n <= self.data@.len(),
                before == self.data@.skip(start as int),
                class == (|b: u8| is_token_byte(b)),
                forall|i: int| 0 <= i < n - start ==> class(#[trigger] before[i]),
            decreases self.data@.len() - n,
        {
            assert(before[n - start] == self.data@[n as int]);
            n = n + 1;
        }
        proof {
            if n < self.data@.len() {
                assert(before[n - start] == self.data@[n as int]);
            }
            lemma_run_len_is(before, class, (n - start) as nat);
        }
        if n == start {
            return None;
        }
        let value = vstd::slice::slice_subrange(self.data, start, n);
        self.pos = n;
        proof {
            assert(value@ =~= before.take(n - start));
            assert(self.rest() =~= before.skip(n - start));
        }
        Some(value)
    }

    #[verifier::loop_isolation(false)]
    fn quoted_string(&mut self) -> (r: Option<Vec<u8>>)
        requires
            old(self).wf(),
        ensures
            final(self).wf(),
            match quoted_string(old(self).rest()) {
                Some((value, rest)) => r is Some && r->0@ == value && final(self).rest() == rest,
                None => r is None,
            },
    {
        let ghost whole = self.rest();
        if !self.byte(DQUOTE) {
            return None;
        }
        let mut decoded: Vec<u8> = Vec::new();
        assert(decoded@ =~= Seq::<u8>::empty());
        loop
            invariant
                self.wf(),
                quoted_string(whole) == quoted_rest(self.rest(), decoded@),
            decreases self.data@.len() - self.pos,
        {
            let ghost rest = self.rest();
            if self.pos == self.data.len() {
                return None;
            }
            let b = self.data[self.pos];
            assert(b == rest[0]);
            self.pos = self.pos + 1;
            assert(self.rest() =~= rest.skip(1));
            if b == DQUOTE {
                return Some(decoded);
            }
            if b == BACKSLASH {
                if self.pos == self.data.len() {
                    return None;
                }
                let escaped = self.data[self.pos];
                assert(escaped == rest[1]);
                if escaped == CR || escaped == LF {
                    return None;
                }
                self.pos = self.pos + 1;
                assert(self.rest() =~= rest.skip(2));
                decoded.push(escaped);
            } else if b == TAB || b == SPACE || b == 0x21 || (0x23 <= b && b <= 0x5b) || (0x5d <= b
                && b <= 0x7e) || b >= 0x80 {
                decoded.push(b);
            } else {
                return None;
            }
        }
    }

    fn token_or_quoted_string(&mut self) -> (r: Option<(Vec<u8>, bool)>)
        requires
            old(self).wf(),
        ensures
            final(self).wf(),
            match parameter_value(old(self).rest()) {
                Some((value, quoted, rest)) => (r matches Some(found) && found.0@ == value && found.1
                    == quoted) && final(self).rest() == rest,
                None => r is None,
            },
    {
        if self.peek(DQUOTE) {
            match self.quoted_string() {
                Some(value) => Some((value, true)),
                None => None,
            }
        } else {
            match self.token() {
                Some(value) => Some((copy_bytes(value), false)),
                None => None,
            }
        }
    }
}

fn token_byte(b: u8) -> (r: bool)
    ensures
        r == is_token_byte(b),
{
    (LOWER_A <= b && b <= LOWER_Z) || (UPPER_A <= b && b <= UPPER_Z) || (ZERO <= b && b <= NINE) || b == 0x21
        || b == 0x23 || b == 0x24 || b == PERCENT || b == 0x26 || b == 0x27 || b == 0x2a || b == 0x2b
        || b == 0x2d || b == 0x2e || b == 0x5e || b == 0x5f || b == 0x60 || b == 0x7c || b == 0x7e
}

/// Parses a number of seconds, cut at [`MAX_DELTA_SECONDS`].
pub fn parse_delta_seconds(value: &[u8]) -> (r: Option<u64>)
    ensures
        r == delta_seconds(value@),
{
    if value.len() == 0 {
        return None;
    }
    let mut parsed: u64 = 0;
    let mut i: usize = 0;
    assert(value@.take(0) =~= Seq::<u8>::empty());
    while i < value.len()
        invariant
            i <= value@.len(),
            forall|j: int| 0 <= j < i ==> is_digit(#[trigger] value@[j]),
            parsed <= MAX_DELTA_SECONDS,
            parsed == (if digits_value(value@.take(i as int)) <= MAX_DELTA_SECONDS {
                digits_value(value@.take(i as int))
            } else {
                MAX_DELTA_SECONDS as nat
            }),
        decreases value@.len() - i,
    {
        let b = value[i];
        if b < ZERO || b > NINE {
            assert(!is_digit(value@[i as int]));
            return None;
        }
        let next: u64 = parsed * 10 + (b - ZERO) as u64;
        parsed = if next > MAX_DELTA_SECONDS {
            MAX_DELTA_SECONDS
        } else {
            next
        };
        assert(value@.take(i + 1).drop_last() =~= value@.take(i as int));
        i = i + 1;
    }
    assert(value@.take(i as int) =~= value@);
    Some(parsed)
}

fn check_protocol_id(value: &[u8]) -> (r: bool)
    ensures
        r == valid_protocol_id(value@),
{
    let mut i: usize = 0;
    assert(value@.skip(0) =~= value@);
    while i < value.len()
        invariant
            i <= value@.len(),
            valid_protocol_id(value@) == valid_protocol_id(value@.skip(i as int)),
        decreases value@.len() - i,
    {
        let ghost rest = value@.skip(i as int);
        if value[i] != PERCENT {
            assert(rest.skip(1) =~= value@.skip(i + 1));
            i = i + 1;
        } else {
            if value.len() - i < 3 {
                return false;
            }
            let high = value[i + 1];
            let low = value[i + 2];
            assert(high == rest[1] && low == rest[2]);
            if !capital_hex(high) || !capital_hex(low) {
                return false;
            }
            let decoded: u8 = hex_digit(high) * 16 + hex_digit(low);
            if decoded != PERCENT && token_byte(decoded) {
                return false;
            }
            assert(rest.skip(3) =~= value@.skip(i + 3));
            i = i + 3;
        }
    }
    true
}

fn capital_hex(b: u8) -> (r: bool)
    ensures
        r == is_capital_hex(b),
{
    (ZERO <= b && b <= NINE) || (UPPER_A <= b && b <= UPPER_F)
}

fn hex_digit(b: u8) -> (r: u8)
    requires
        is_capital_hex(b),
    ensures
        r == hex_value(b),
        r < 16,
{
    if ZERO <= b && b <= NINE {
        b - ZERO
    } else {
        b - UPPER_A + 10
    }
}

/// Parses the port that `chars[from..]` spells.
#[verifier::loop_isolation(false)]
fn parse_port(chars: &Vec<char>, from: usize) -> (r: Option<u16>)
    requires
        from <= chars@.len(),
    ensures
        r == port_number(chars@.skip(from as int)),
{
    let ghost text = chars@.skip(from as int);
    let start: usize = if from < chars.len() && chars[from] == '+' {
        from + 1
    } else {
        from
    };
    let ghost digits = chars@.skip(start as int);
    proof {
        if start == from + 1 {
            assert(text[0] == '+');
            assert(text.skip(1) =~= digits);
        } else if text.len() > 0 {
            assert(text[0] == chars@[from as int]);
        }
        assert(unsigned(text) == digits);
    }
    if start == chars.len() {
        return None;
    }
    let mut parsed: u32 = 0;
    let mut i: usize = start;
    assert(digits.take(0) =~= Seq::<char>::empty());
    while i < chars.len()
        invariant
            start <= i <= chars@.len(),
            digits == chars@.skip(start as int),
            forall|j: int| 0 <= j < i - start ==> is_digit_char(#[trigger] digits[j]),
            parsed <= 65536,
            parsed == (if number(digits.take(i - start)) <= 65536 {
                number(digits.take(i - start))
            } else {
                65536
            }),
        decreases chars@.len() - i,
    {
        let c = chars[i];
        assert(digits[i - start] == c);
        if c < '0' || c > '9' {
            assert(!is_digit_char(digits[i - start]));
            return None;
        }
        let next: u32 = parsed * 10 + (c as u32 - '0' as u32);
        parsed = if next > 65536 {
            65536
        } else {
            next
        };
        assert(digits.take(i + 1 - start).drop_last() =~= digits.take(i - start));
        i = i + 1;
    }
    assert(digits.take(i - start) =~= digits);
    if parsed == 0 || parsed > 65535 {
        None
    } else {
        Some(parsed as u16)
    }
}

fn first_of(chars: &Vec<char>, from: usize, c: char) -> (r: Option<usize>)
    requires
        from <= chars@.len(),
    ensures
        match r {
            Some(i) => from <= i < chars@.len() && chars@.skip(from as int).index_of_first(c)
                == Some(i - from),
            None => chars@.skip(from as int).index_of_first(c) is None,
        },
{
    let ghost rest = chars@.skip(from as int);
    proof {
        rest.index_of_first_ensures(c);
    }
    let mut i: usize = from;
    while i < chars.len()
        invariant
            from <= i <= chars@.len(),
            rest == chars@.skip(from as int),
            forall|j: int| 0 <= j < i - from ==> rest[j] != c,
        decreases chars@.len() - i,
    {
        if chars[i] == c {
            proof {
                rest.index_of_first_ensures(c);
                assert(rest[i - from] == c);
                assert(rest.contains(c));
            }
            return Some(i);
        }
        assert(rest[i - from] == chars@[i as int]);
        i = i + 1;
    }
    proof {
        assert(!rest.contains(c));
    }
    None
}

fn last_of(chars: &Vec<char>, c: char) -> (r: Option<usize>)
    ensures
        match r {
            Some(i) => i < chars@.len() && chars@.index_of_last(c) == Some(i as int),
            None => chars@.index_of_last(c) is None,
        },
{
    proof {
        chars@.index_of_last_ensures(c);
    }
    let mut i: usize = chars.len();
    while i > 0
        invariant
            i <= chars@.len(),
            forall|j: int| i <= j < chars@.len() ==> chars@[j] != c,
        decreases i,
    {
        if chars[i - 1] == c {
            proof {
                chars@.index_of_last_ensures(c);
                assert(chars@.contains(c));
            }
            return Some(i - 1);
        }
        i = i - 1;
    }
    proof {
        assert(!chars@.contains(c));
    }
    None
}

#[verifier::loop_isolation(false)]
fn parse_location(origin_host: &String, value: &[u8]) -> (r: Option<(String, u16)>)
    ensures
        match location(origin_host@, value@) {
            Some((host, port)) => r matches Some(found) && found.0@ == host && found.1 == port,
            None => r is None,
        },
{
    let text = match utf8_text(value) {
        Some(text) => text,
        None => return None,
    };
    let chars = to_chars(text.as_str());
    if chars.len() > 0 && chars[0] == '[' {
        let ghost inner = chars@.skip(1);
        let close = match first_of(&chars, 1, ']') {
            Some(close) => close,
            None => return None,
        };
        proof {
            assert(inner.skip(close as int) =~= chars@.skip(close + 1));
            assert(inner.take(close - 1) =~= chars@.subrange(1, close as int));
        }
        if close + 1 == chars.len() || chars[close + 1] != ':' {
            return None;
        }
        proof {
            assert(inner.skip(close as int).skip(1) =~= chars@.skip(close + 2));
        }
        let literal = from_chars(&chars, 1, close);
        match (parse_ipv6(literal.as_str()), parse_port(&chars, close + 2)) {
            (Some(bits), Some(port)) => Some((format_ipv6(bits), port)),
            _ => None,
        }
    } else {
        let colon = match last_of(&chars, ':') {
            Some(colon) => colon,
            None => return None,
        };
        proof {
            assert(chars@.take(colon as int) =~= chars@.subrange(0, colon as int));
        }
        let host = from_chars(&chars, 0, colon);
        let mut i: usize = 0;
        while i < colon
            invariant
                i <= colon < chars@.len(),
                host@ == chars@.take(colon as int),
                forall|j: int| 0 <= j < i ==> host@[j] != ':',
            decreases colon - i,
        {
            if chars[i] == ':' {
                assert(host@[i as int] == ':');
                return None;
            }
            i = i + 1;
        }
        assert(!host@.contains(':'));
        let name = if colon == 0 {
            Some(origin_host.clone())
        } else {
            proof {
                assert(host@[0] == chars@[0]);
            }
            match parse_host(host.as_str()) {
                Some(Host::Domain(domain)) => Some(domain),
                Some(Host::Ipv4(bits)) => Some(format_ipv4(bits)),
                Some(Host::Ipv6(_)) => None,
                None => None,
            }
        };
        match (name, parse_port(&chars, colon + 1)) {
            (Some(name), Some(port)) => Some((name, port)),
            _ => None,
        }
    }
}

/// Parses one member of the field. The outer `None` means a malformed
/// member, the inner one another protocol.
#[verifier::loop_isolation(false)]
pub fn parse_alternative(origin_host: &String, value: &[u8]) -> (r: Option<Option<Advertised>>)
    ensures
        match alternative(origin_host@, value@) {
            Some(found) => r is Some && advertised_view(r->0) == found,
            None => r is None,
        },
{
    let mut cursor = Cursor::new(value);
    let protocol = match cursor.token() {
        Some(protocol) => protocol,
        None => return None,
    };
    if !check_protocol_id(protocol) || !cursor.byte(EQUALS) {
        return None;
    }
    let authority = match cursor.quoted_string() {
        Some(authority) => authority,
        None => return None,
    };
    let ghost list = cursor.rest();
    let mut max_age: Option<u64> = None;
    loop
        invariant
            cursor.wf(),
            parameters(list, None) == parameters(cursor.rest(), max_age),
        decreases cursor.rest().len(),
    {
        let ghost rest = cursor.rest();
        proof {
            lemma_parameter_shortens(rest);
        }
        cursor.ows();
        if cursor.is_empty() {
            break;
        }
        if !cursor.byte(SEMICOLON) {
            return None;
        }
        cursor.ows();
        let name = match cursor.token() {
            Some(name) => name,
            None => return None,
        };
        if !cursor.byte(EQUALS) {
            return None;
        }
        let (parameter, quoted) = match cursor.token_or_quoted_string() {
            Some(found) => found,
            None => return None,
        };
        let ma: [u8; 2] = [0x6d, 0x61];
        assert(ma@ =~= ma_name());
        if eq_ignore_case(name, ma.as_slice()) {
            if max_age.is_some() || quoted {
                return None;
            }
            match parse_delta_seconds(parameter.as_slice()) {
                Some(seconds) => {
                    max_age = Some(seconds);
                },
                None => return None,
            }
        }
    }
    let (host, port) = match parse_location(origin_host, authority.as_slice()) {
        Some(found) => found,
        None => return None,
    };
    let h3: [u8; 2] = [0x68, 0x33];
    assert(h3@ =~= h3_id());
    if !same_bytes(protocol, h3.as_slice()) {
        return Some(None);
    }
    Some(
        Some(
            Advertised {
                host,
                port,
                max_age: match max_age {
                    Some(seconds) => seconds,
                    None => DEFAULT_MAX_AGE,
                },
            },
        ),
    )
}

/// What a list of byte strings holds.
pub open spec fn slices_view(list: Seq<&[u8]>) -> Seq<Seq<u8>> {
    list.map_values(|member: &[u8]| member@)
}

proof fn lemma_members_keep(value: Seq<u8>, i: int)
    requires
        0 <= i <= value.len(),
    ensures
        ended_members(value, i).len() <= ended_members(value, value.len() as int).len(),
        forall|k: int|
            0 <= k < ended_members(value, i).len() ==> #[trigger] ended_members(value, i)[k]
                == ended_members(value, value.len() as int)[k],
    decreases value.len() - i,
{
    if i < value.len() {
        lemma_members_keep(value, i + 1);
        let here = ended_members(value, i);
        let next = ended_members(value, i + 1);
        assert forall|k: int| 0 <= k < here.len() implies #[trigger] here[k] == ended_members(
            value,
            value.len() as int,
        )[k] by {
            assert(here[k] == next[k]);
        }
    }
}

proof fn lemma_blank_member(value: Seq<u8>, i: int)
    requires
        0 <= i < value.len(),
        is_separator(value, i),
        trimmed(value.subrange(member_start(value, i), i)).len() == 0,
    ensures
        !well_split(value),
{
    let piece = value.subrange(member_start(value, i), i);
    let here = ended_members(value, i + 1);
    let k = here.len() - 1;
    lemma_members_keep(value, i + 1);
    assert(here[k] == piece);
    assert(members(value)[k] == piece);
}

/// Splits a field value at the commas between its members; `None` when a
/// quoted string does not end or a member is blank.
fn split_members<'a>(value: &'a [u8]) -> (r: Option<Vec<&'a [u8]>>)
    ensures
        r is Some <==> well_split(value@),
        r matches Some(list) ==> slices_view(list@) == members(value@),
{
    let mut list: Vec<&'a [u8]> = Vec::new();
    let mut start: usize = 0;
    let mut quoted = false;
    let mut escaped = false;
    let mut i: usize = 0;
    assert(slices_view(list@) =~= ended_members(value@, 0));
    while i < value.len()
        invariant
            start <= i <= value@.len(),
            start == member_start(value@, i as int),
            (quoted, escaped) == quote_state(value@, i as int),
            slices_view(list@) == ended_members(value@, i as int),
            forall|k: int|
                0 <= k < list@.len() ==> trimmed(#[trigger] ended_members(value@, i as int)[k]).len()
                    > 0,
        decreases value@.len() - i,
    {
        let b = value[i];
        let ghost before = list@;
        if escaped {
            escaped = false;
        } else if b == BACKSLASH && quoted {
            escaped = true;
        } else if b == DQUOTE {
            quoted = !quoted;
        } else if b == COMMA && !quoted {
            let piece = vstd::slice::slice_subrange(value, start, i);
            if trim_ows(piece).len() == 0 {
                proof {
                    lemma_blank_member(value@, i as int);
                }
                return None;
            }
            list.push(piece);
            start = i + 1;
            proof {
                let now = ended_members(value@, i + 1);
                assert(slices_view(list@) =~= now);
                assert forall|k: int| 0 <= k < list@.len() implies trimmed(#[trigger] now[k]).len()
                    > 0 by {
                    if k < before.len() {
                        assert(now[k] == ended_members(value@, i as int)[k]);
                    }
                }
            }
        }
        i = i + 1;
    }
    let piece = vstd::slice::slice_subrange(value, start, value.len());
    proof {
        let n = value@.len() as int;
        let all = members(value@);
        assert(all[all.len() - 1] == piece@);
        assert forall|k: int| 0 <= k < all.len() - 1 implies trimmed(#[trigger] all[k]).len() > 0 by {
            assert(all[k] == ended_members(value@, n)[k]);
        }
    }
    if quoted || escaped || trim_ows(piece).len() == 0 {
        return None;
    }
    list.push(piece);
    assert(slices_view(list@) =~= members(value@));
    Some(list)
}

fn append_bytes(out: &mut Vec<u8>, bytes: &Vec<u8>)
    ensures
        final(out)@ == old(out)@ + bytes@,
{
    let mut i: usize = 0;
    while i < bytes.len()
        invariant
            i <= bytes@.len(),
            out@ == old(out)@ + bytes@.take(i as int),
        decreases bytes@.len() - i,
    {
        out.push(bytes[i]);
        assert(bytes@.take(i + 1) =~= bytes@.take(i as int).push(bytes@[i as int]));
        i = i + 1;
        assert(out@ =~= old(out)@ + bytes@.take(i as int));
    }
    assert(bytes@.take(i as int) =~= bytes@);
}

/// Reads what the fields of a response to `origin_host` say of alternatives.
pub fn parse_response_fields(origin_host: &String, fields: &Vec<RequestHeader>) -> (r: FieldUpdate)
    ensures
        r@ == field_update(origin_host@, headers_view(fields@)),
{
    let ghost all = headers_view(fields@);
    let mut joined: Vec<u8> = Vec::new();
    let mut count: usize = 0;
    let mut ages: usize = 0;
    let mut age: u64 = 0;
    let mut malformed = false;
    let mut i: usize = 0;
    assert(all.take(0) =~= Seq::<HeaderView>::empty());
    while i < fields.len()
        invariant
            i <= fields@.len(),
            all == headers_view(fields@),
            count == values_of(all.take(i as int), "alt-svc"@).len(),
            ages == values_of(all.take(i as int), "age"@).len(),
            count <= i,
            ages <= i,
            joined@ == combined(values_of(all.take(i as int), "alt-svc"@)),
            malformed == (response_age(values_of(all.take(i as int), "age"@)) is None),
            !malformed ==> response_age(values_of(all.take(i as int), "age"@)) == Some(age),
        decreases fields@.len() - i,
    {
        let ghost before = all.take(i as int);
        let ghost after = all.take(i + 1);
        proof {
            assert(after.drop_last() =~= before);
            assert(after.last() == fields@[i as int]@);
            reveal_strlit("age");
            reveal_strlit("alt-svc");
            assert("age"@.len() != "alt-svc"@.len());
        }
        let name = to_lowercase(fields[i].name.as_str());
        if same_text(name.as_str(), "alt-svc") {
            proof {
                let list = values_of(after, "alt-svc"@);
                assert(list.drop_last() =~= values_of(before, "alt-svc"@));
            }
            if joined.len() > 0 {
                joined.push(COMMA);
                joined.push(SPACE);
            }
            append_bytes(&mut joined, &fields[i].value);
            assert(joined@ =~= combined(values_of(after, "alt-svc"@)));
            count = count + 1;
        } else if same_text(name.as_str(), "age") {
            proof {
                let list = values_of(after, "age"@);
                assert(list.last() == fields@[i as int].value@);
            }
            if ages > 0 {
                malformed = true;
            } else {
                match parse_delta_seconds(trim_ows(fields[i].value.as_slice())) {
                    Some(seconds) => {
                        age = seconds;
                    },
                    None => {
                        malformed = true;
                    },
                }
            }
            ages = ages + 1;
        }
        i = i + 1;
    }
    assert(all.take(i as int) =~= all);
    if malformed {
        return FieldUpdate::Malformed;
    }
    if count == 0 {
        return FieldUpdate::Absent;
    }
    parse_members(origin_host, joined.as_slice(), age)
}

/// Reads what one joined field value says of alternatives.
pub fn parse_members(origin_host: &String, value: &[u8], age: u64) -> (r: FieldUpdate)
    ensures
        r@ == member_update(origin_host@, value@, age),
{
    let list = match split_members(value) {
        Some(list) => list,
        None => return FieldUpdate::Malformed,
    };
    let ghost all = members(value@);
    let clear: [u8; 5] = [0x63, 0x6c, 0x65, 0x61, 0x72];
    assert(clear@ =~= clear_word());
    let mut i: usize = 0;
    while i < list.len()
        invariant
            i <= list@.len(),
            all == members(value@),
            well_split(value@),
            slices_view(list@) == all,
            clear@ == clear_word(),
            forall|k: int| 0 <= k < i ==> trimmed(#[trigger] all[k]) != clear_word(),
        decreases list@.len() - i,
    {
        assert(all[i as int] == list@[i as int]@);
        if same_bytes(trim_ows(list[i]), clear.as_slice()) {
            return FieldUpdate::Clear;
        }
        i = i + 1;
    }
    let mut selected: Option<Advertised> = None;
    let mut j: usize = 0;
    assert(all.take(0) =~= Seq::<Seq<u8>>::empty());
    while j < list.len()
        invariant
            j <= list@.len(),
            all == members(value@),
            well_split(value@),
            slices_view(list@) == all,
            forall|k: int| 0 <= k < all.len() ==> trimmed(#[trigger] all[k]) != clear_word(),
            forall|k: int|
                0 <= k < j ==> alternative(origin_host@, trimmed(#[trigger] all[k])) is Some,
            advertised_view(selected) == first_fresh(origin_host@, all.take(j as int), age),
        decreases list@.len() - j,
    {
        proof {
            assert(all[j as int] == list@[j as int]@);
            assert(all.take(j + 1).drop_last() =~= all.take(j as int));
            assert(all.take(j + 1).last() == all[j as int]);
        }
        match parse_alternative(origin_host, trim_ows(list[j])) {
            None => {
                return FieldUpdate::Malformed;
            },
            Some(Some(found)) => {
                if selected.is_none() && found.max_age > age {
                    selected = Some(found);
                }
            },
            Some(None) => {},
        }
        j = j + 1;
    }
    assert(all.take(j as int) =~= all);
    FieldUpdate::Replace { alternative: selected, age }
}

} // verus!
