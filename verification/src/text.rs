//! ASCII rules on bytes and text.

use vstd::prelude::*;
use vstd::utf8::{decode_utf8, encode_utf8_decode_utf8, valid_utf8};
use crate::ascii::TAB;

verus! {

/// Whether `c` is an ASCII capital letter.
pub open spec fn is_upper(c: char) -> bool {
    'A' <= c && c <= 'Z'
}

/// The ASCII lower case of `c`.
pub open spec fn lower(c: char) -> char {
    if is_upper(c) {
        ((c as u32) + 32) as char
    } else {
        c
    }
}

/// Text with every ASCII capital letter in lower case.
pub open spec fn lowercase(text: Seq<char>) -> Seq<char> {
    text.map_values(|c: char| lower(c))
}

/// The ASCII lower case of a byte.
pub open spec fn lower_byte(b: u8) -> u8 {
    if 65 <= b && b <= 90 {
        (b + 32) as u8
    } else {
        b
    }
}

/// Bytes with every ASCII capital letter in lower case.
pub open spec fn lowercase_bytes(bytes: Seq<u8>) -> Seq<u8> {
    bytes.map_values(|b: u8| lower_byte(b))
}

/// Whether two byte strings differ at most in ASCII case.
pub open spec fn same_ignoring_case(a: Seq<u8>, b: Seq<u8>) -> bool {
    lowercase_bytes(a) == lowercase_bytes(b)
}

/// Whether `b` is optional white space: a space or a tab.
pub open spec fn is_ows(b: u8) -> bool {
    b == 32 || b == 9
}

/// How many leading bytes of `s` are in `class`.
pub open spec fn run_len(s: Seq<u8>, class: spec_fn(u8) -> bool) -> nat
    decreases s.len(),
{
    if s.len() == 0 || !class(s[0]) {
        0
    } else {
        1 + run_len(s.skip(1), class)
    }
}

/// `s` without leading optional white space.
pub open spec fn trim_start(s: Seq<u8>) -> Seq<u8> {
    s.skip(run_len(s, |b: u8| is_ows(b)) as int)
}

/// `s` without trailing optional white space.
pub open spec fn trim_end(s: Seq<u8>) -> Seq<u8>
    decreases s.len(),
{
    if s.len() > 0 && is_ows(s.last()) {
        trim_end(s.drop_last())
    } else {
        s
    }
}

/// `s` without optional white space at either end.
pub open spec fn trimmed(s: Seq<u8>) -> Seq<u8> {
    trim_end(trim_start(s))
}

/// The decimal digits of `n`, without leading zeros.
pub open spec fn decimal(n: nat) -> Seq<char>
    decreases n,
{
    if n < 10 {
        seq![digit_char(n)]
    } else {
        decimal(n / 10).push(digit_char(n % 10))
    }
}

/// The digit character of `d`.
pub open spec fn digit_char(d: nat) -> char {
    ((48 + d) as u32) as char
}

/// A run stops where its class does.
pub proof fn lemma_run_len_bounds(s: Seq<u8>, class: spec_fn(u8) -> bool)
    ensures
        run_len(s, class) <= s.len(),
        forall|i: int| 0 <= i < run_len(s, class) ==> class(#[trigger] s[i]),
        run_len(s, class) < s.len() ==> !class(s[run_len(s, class) as int]),
    decreases s.len(),
{
    if s.len() > 0 && class(s[0]) {
        let rest = s.skip(1);
        lemma_run_len_bounds(rest, class);
        assert forall|i: int| 0 <= i < run_len(s, class) implies class(#[trigger] s[i]) by {
            if i > 0 {
                assert(s[i] == rest[i - 1]);
            }
        }
    }
}

/// A run whose end is known.
pub proof fn lemma_run_len_is(s: Seq<u8>, class: spec_fn(u8) -> bool, n: nat)
    requires
        n <= s.len(),
        forall|i: int| 0 <= i < n ==> class(#[trigger] s[i]),
        n < s.len() ==> !class(s[n as int]),
    ensures
        run_len(s, class) == n,
    decreases s.len(),
{
    if n > 0 {
        let rest = s.skip(1);
        assert forall|i: int| 0 <= i < n - 1 implies class(#[trigger] rest[i]) by {
            assert(rest[i] == s[i + 1]);
        }
        assert(class(s[0]));
        lemma_run_len_is(rest, class, (n - 1) as nat);
    }
}

/// Returns whether two texts have the same characters.
pub(crate) fn same_text(a: &str, b: &str) -> (r: bool)
    ensures
        r == (a@ == b@),
{
    proof {
        encode_utf8_decode_utf8(a@);
        encode_utf8_decode_utf8(b@);
    }
    same_bytes(a.as_bytes(), b.as_bytes())
}

/// Returns text with every ASCII capital letter in lower case.
pub(crate) fn to_lowercase(text: &str) -> (r: String)
    ensures
        r@ == lowercase(text@),
{
    let chars = to_chars(text);
    let mut out = String::new();
    let mut i: usize = 0;
    assert(lowercase(text@).take(0) =~= Seq::empty());
    while i < chars.len()
        invariant
            i <= chars@.len(),
            chars@ == text@,
            out@ == lowercase(text@).take(i as int),
        decreases chars@.len() - i,
    {
        let c = chars[i];
        push_char(&mut out, to_lower(c));
        i += 1;
        assert(lowercase(text@).take(i as int) =~= lowercase(text@).take(i - 1).push(
            lowercase(text@)[i - 1],
        ));
    }
    assert(lowercase(text@).take(i as int) =~= lowercase(text@));
    out
}

/// The ASCII lower case of a character.
fn to_lower(c: char) -> (r: char)
    ensures
        r == lower(c),
{
    if 'A' <= c && c <= 'Z' {
        (c as u8 + 32) as char
    } else {
        c
    }
}

/// Calls `String::push`, which appends one character.
#[verifier::external_body]
pub(crate) fn push_char(text: &mut String, c: char)
    ensures
        final(text)@ == old(text)@.push(c),
{
    text.push(c)
}

/// Calls `std::str::from_utf8`, which succeeds exactly on well-formed UTF-8
/// and then gives the text it encodes.
#[verifier::external_body]
pub(crate) fn utf8_text(bytes: &[u8]) -> (r: Option<String>)
    ensures
        r is Some <==> valid_utf8(bytes@),
        r is Some ==> r->0@ == decode_utf8(bytes@),
{
    std::str::from_utf8(bytes).ok().map(|text| text.to_owned())
}

/// The characters of `text`.
pub fn to_chars(text: &str) -> (r: Vec<char>)
    ensures
        r@ == text@,
{
    let mut out: Vec<char> = Vec::new();
    let length: usize = text.unicode_len();
    let mut i: usize = 0;
    while i < length
        invariant
            length == text@.len(),
            i <= length,
            out@ == text@.take(i as int),
        decreases length - i,
    {
        out.push(text.get_char(i));
        assert(text@.take(i + 1) =~= text@.take(i as int).push(text@[i as int]));
        i = i + 1;
    }
    assert(text@.take(length as int) =~= text@);
    out
}

/// The text made of `chars[from..to]`.
pub fn from_chars(chars: &Vec<char>, from: usize, to: usize) -> (r: String)
    requires
        from <= to <= chars@.len(),
    ensures
        r@ == chars@.subrange(from as int, to as int),
{
    let mut out = String::new();
    let mut i: usize = from;
    while i < to
        invariant
            from <= i <= to <= chars@.len(),
            out@ == chars@.subrange(from as int, i as int),
        decreases to - i,
    {
        push_char(&mut out, chars[i]);
        i = i + 1;
        assert(chars@.subrange(from as int, i as int) =~= chars@.subrange(from as int, i - 1).push(
            chars@[i - 1],
        ));
    }
    out
}

/// Whether `chars` ends with `suffix`.
pub fn has_suffix(chars: &Vec<char>, suffix: &Vec<char>) -> (r: bool)
    ensures
        r == suffix@.is_suffix_of(chars@),
{
    if suffix.len() > chars.len() {
        return false;
    }
    let start: usize = chars.len() - suffix.len();
    let mut i: usize = 0;
    while i < suffix.len()
        invariant
            i <= suffix@.len(),
            start + suffix@.len() == chars.len(),
            forall|j: int| 0 <= j < i ==> chars@[start + j] == suffix@[j],
        decreases suffix@.len() - i,
    {
        assert(start + i < chars.len());
        if chars[start + i] != suffix[i] {
            assert(chars@.subrange(start as int, chars@.len() as int)[i as int] != suffix@[i as int]);
            return false;
        }
        i = i + 1;
    }
    assert(suffix@ =~= chars@.subrange(start as int, chars@.len() as int));
    true
}

/// Whether `chars` starts with `prefix`.
pub fn has_prefix(chars: &Vec<char>, prefix: &Vec<char>) -> (r: bool)
    ensures
        r == prefix@.is_prefix_of(chars@),
{
    if prefix.len() > chars.len() {
        return false;
    }
    let mut i: usize = 0;
    while i < prefix.len()
        invariant
            i <= prefix@.len() <= chars@.len(),
            forall|j: int| 0 <= j < i ==> chars@[j] == prefix@[j],
        decreases prefix@.len() - i,
    {
        if chars[i] != prefix[i] {
            assert(chars@.subrange(0, prefix@.len() as int)[i as int] != prefix@[i as int]);
            return false;
        }
        i = i + 1;
    }
    assert(prefix@ =~= chars@.subrange(0, prefix@.len() as int));
    true
}

/// Whether two byte strings are the same.
pub fn same_bytes(a: &[u8], b: &[u8]) -> (r: bool)
    ensures
        r == (a@ == b@),
{
    if a.len() != b.len() {
        return false;
    }
    let mut i: usize = 0;
    while i < a.len()
        invariant
            a@.len() == b@.len(),
            i <= a@.len(),
            forall|j: int| 0 <= j < i ==> a@[j] == b@[j],
        decreases a@.len() - i,
    {
        if a[i] != b[i] {
            return false;
        }
        i = i + 1;
    }
    assert(a@ =~= b@);
    true
}

/// The ASCII lower case of a byte.
pub fn to_lower_byte(b: u8) -> (r: u8)
    ensures
        r == lower_byte(b),
{
    if 65 <= b && b <= 90 {
        b + 32
    } else {
        b
    }
}

/// Whether two byte strings differ at most in ASCII case.
pub fn eq_ignore_case(a: &[u8], b: &[u8]) -> (r: bool)
    ensures
        r == same_ignoring_case(a@, b@),
{
    if a.len() != b.len() {
        assert(lowercase_bytes(a@).len() != lowercase_bytes(b@).len());
        return false;
    }
    let mut i: usize = 0;
    while i < a.len()
        invariant
            a@.len() == b@.len(),
            i <= a@.len(),
            forall|j: int| 0 <= j < i ==> lower_byte(a@[j]) == lower_byte(b@[j]),
        decreases a@.len() - i,
    {
        if to_lower_byte(a[i]) != to_lower_byte(b[i]) {
            assert(lowercase_bytes(a@)[i as int] != lowercase_bytes(b@)[i as int]);
            return false;
        }
        i = i + 1;
    }
    assert(lowercase_bytes(a@) =~= lowercase_bytes(b@));
    true
}

/// Returns `value` without optional white space at either end.
pub fn trim_ows(value: &[u8]) -> (r: &[u8])
    ensures
        r@ == trimmed(value@),
{
    let ghost class = |b: u8| is_ows(b);
    let mut start: usize = 0;
    while start < value.len() && (value[start] == 32 || value[start] == 9)
        invariant
            start <= value@.len(),
            class == (|b: u8| is_ows(b)),
            forall|i: int| 0 <= i < start ==> class(#[trigger] value@[i]),
        decreases value@.len() - start,
    {
        start = start + 1;
    }
    proof {
        lemma_run_len_is(value@, class, start as nat);
    }
    let mut end: usize = value.len();
    while end > start && (value[end - 1] == 32 || value[end - 1] == 9)
        invariant
            start <= end <= value@.len(),
            trim_end(value@.subrange(start as int, end as int)) == trim_end(
                value@.skip(start as int),
            ),
        decreases end,
    {
        assert(value@.subrange(start as int, end as int).drop_last() =~= value@.subrange(
            start as int,
            end - 1,
        ));
        end = end - 1;
    }
    assert(value@.subrange(start as int, value@.len() as int) =~= value@.skip(start as int));
    vstd::slice::slice_subrange(value, start, end)
}

/// Appends the decimal digits of `n`.
pub fn push_decimal(text: &mut String, n: u64)
    ensures
        final(text)@ == old(text)@ + decimal(n as nat),
    decreases n,
{
    if n >= 10 {
        push_decimal(text, n / 10);
    }
    let digit: u8 = (n % 10) as u8;
    let c: char = (48 + digit) as char;
    push_char(text, c);
    proof {
        assert(c == digit_char((n % 10) as nat));
        assert(decimal(n as nat) =~= if n < 10 {
            seq![c]
        } else {
            decimal((n / 10) as nat).push(c)
        });
        assert(text@ =~= old(text)@ + decimal(n as nat));
    }
}

/// Whether one text comes before another in the order of their characters.
pub open spec fn text_before(a: Seq<char>, b: Seq<char>) -> bool
    decreases a.len(),
{
    if b.len() == 0 {
        false
    } else if a.len() == 0 {
        true
    } else if a[0] != b[0] {
        a[0] < b[0]
    } else {
        text_before(a.skip(1), b.skip(1))
    }
}

/// Returns whether `a` comes before `b` in the order of their characters.
#[verifier::loop_isolation(false)]
pub fn is_before(a: &str, b: &str) -> (r: bool)
    ensures
        r == text_before(a@, b@),
{
    let (n, m): (usize, usize) = (a.unicode_len(), b.unicode_len());
    let mut i: usize = 0;
    assert(a@.skip(0) =~= a@ && b@.skip(0) =~= b@);
    while i < n && i < m
        invariant
            n == a@.len(),
            m == b@.len(),
            i <= n,
            i <= m,
            text_before(a@, b@) == text_before(a@.skip(i as int), b@.skip(i as int)),
        decreases n - i,
    {
        let (x, y) = (a.get_char(i), b.get_char(i));
        if x != y {
            return x < y;
        }
        assert(a@.skip(i as int).skip(1) =~= a@.skip(i + 1));
        assert(b@.skip(i as int).skip(1) =~= b@.skip(i + 1));
        i += 1;
    }
    i < m
}

/// Whether a byte of a field value is a visible ASCII character, a space or a
/// tab.
pub open spec fn is_visible(b: u8) -> bool {
    32 <= b < 127 || b == TAB
}

/// The text of ASCII bytes.
pub open spec fn ascii_text(bytes: Seq<u8>) -> Seq<char> {
    bytes.map_values(|b: u8| b as char)
}

/// The text of a field value, if every byte of it is visible.
pub open spec fn visible(bytes: Seq<u8>) -> Option<Seq<char>> {
    if forall|i: int| 0 <= i < bytes.len() ==> is_visible(#[trigger] bytes[i]) {
        Some(ascii_text(bytes))
    } else {
        None
    }
}

/// Returns the text of a field value, if every byte of it is visible.
pub fn visible_text(bytes: &[u8]) -> (r: Option<String>)
    ensures
        (match r {
            Some(text) => Some(text@),
            None => None,
        }) == visible(bytes@),
{
    let mut text = String::new();
    let mut i: usize = 0;
    assert(text@ =~= ascii_text(bytes@.take(0)));
    while i < bytes.len()
        invariant
            i <= bytes@.len(),
            text@ == ascii_text(bytes@.take(i as int)),
            forall|j: int| 0 <= j < i ==> is_visible(#[trigger] bytes@[j]),
        decreases bytes@.len() - i,
    {
        let b: u8 = bytes[i];
        if !((32 <= b && b < 127) || b == TAB) {
            assert(!is_visible(bytes@[i as int]));
            return None;
        }
        push_char(&mut text, b as char);
        assert(text@ =~= ascii_text(bytes@.take(i + 1)));
        i += 1;
    }
    assert(bytes@.take(i as int) =~= bytes@);
    Some(text)
}

/// Whether a character is white space.
pub open spec fn is_white(c: char) -> bool {
    ||| 0x9 <= c as u32 <= 0xd
    ||| c as u32 == 0x20
    ||| c as u32 == 0x85
    ||| c as u32 == 0xa0
    ||| c as u32 == 0x1680
    ||| 0x2000 <= c as u32 <= 0x200a
    ||| c as u32 == 0x2028
    ||| c as u32 == 0x2029
    ||| c as u32 == 0x202f
    ||| c as u32 == 0x205f
    ||| c as u32 == 0x3000
}

/// Whether a text holds nothing but white space.
pub open spec fn blank(text: Seq<char>) -> bool {
    forall|i: int| 0 <= i < text.len() ==> is_white(#[trigger] text[i])
}

/// Returns whether a character is white space.
pub fn is_white_char(c: char) -> (r: bool)
    ensures
        r == is_white(c),
{
    let c: u32 = c as u32;
    (0x9 <= c && c <= 0xd) || c == 0x20 || c == 0x85 || c == 0xa0 || c == 0x1680 || (0x2000 <= c
        && c <= 0x200a) || c == 0x2028 || c == 0x2029 || c == 0x202f || c == 0x205f || c == 0x3000
}

/// Returns whether a text holds nothing but white space.
pub fn is_blank(text: &str) -> (r: bool)
    ensures
        r == blank(text@),
{
    let n: usize = text.unicode_len();
    let mut i: usize = 0;
    while i < n
        invariant
            i <= n,
            n == text@.len(),
            forall|j: int| 0 <= j < i ==> is_white(#[trigger] text@[j]),
        decreases n - i,
    {
        if !is_white_char(text.get_char(i)) {
            assert(!is_white(text@[i as int]));
            return false;
        }
        i += 1;
    }
    true
}

/// A text without white space in front.
pub open spec fn trim_front(text: Seq<char>) -> Seq<char>
    decreases text.len(),
{
    if text.len() > 0 && is_white(text[0]) {
        trim_front(text.skip(1))
    } else {
        text
    }
}

/// A text without white space behind.
pub open spec fn trim_back(text: Seq<char>) -> Seq<char>
    decreases text.len(),
{
    if text.len() > 0 && is_white(text.last()) {
        trim_back(text.drop_last())
    } else {
        text
    }
}

/// A text without white space around it.
pub open spec fn trimmed_text(text: Seq<char>) -> Seq<char> {
    trim_back(trim_front(text))
}

/// Returns characters without white space around them.
pub fn trim_text(chars: &Vec<char>) -> (r: String)
    ensures
        r@ == trimmed_text(chars@),
{
    let n: usize = chars.len();
    let mut from: usize = 0;
    assert(chars@.skip(0) =~= chars@);
    while from < n && is_white_char(chars[from])
        invariant
            from <= n,
            n == chars@.len(),
            trim_front(chars@) == trim_front(chars@.skip(from as int)),
        decreases n - from,
    {
        assert(chars@.skip(from as int).skip(1) =~= chars@.skip(from + 1));
        from += 1;
    }
    let ghost rest = chars@.skip(from as int);
    assert(trim_front(chars@) == rest);
    let mut to: usize = n;
    assert(chars@.subrange(from as int, n as int) =~= rest);
    while to > from && is_white_char(chars[to - 1])
        invariant
            from <= to <= n,
            n == chars@.len(),
            trim_back(rest) == trim_back(chars@.subrange(from as int, to as int)),
        decreases to,
    {
        assert(chars@.subrange(from as int, to as int).drop_last() =~= chars@.subrange(
            from as int,
            to - 1,
        ));
        to -= 1;
    }
    from_chars(chars, from, to)
}

/// The parts of a text between occurrences of a character.
pub open spec fn split(text: Seq<char>, at: char) -> Seq<Seq<char>>
    decreases text.len(),
{
    if text.len() == 0 {
        seq![Seq::empty()]
    } else {
        let before = split(text.drop_last(), at);
        if text.last() == at {
            before.push(Seq::empty())
        } else {
            before.drop_last().push(before.last().push(text.last()))
        }
    }
}

/// A text has at least one part.
pub proof fn lemma_split(text: Seq<char>, at: char)
    ensures
        split(text, at).len() > 0,
    decreases text.len(),
{
    if text.len() > 0 {
        lemma_split(text.drop_last(), at);
    }
}

/// What a list of character lists holds.
pub open spec fn char_lists(list: Seq<Vec<char>>) -> Seq<Seq<char>> {
    list.map_values(|chars: Vec<char>| chars@)
}

/// Returns the parts of a text between occurrences of a character.
pub fn split_text(text: &str, at: char) -> (r: Vec<Vec<char>>)
    ensures
        char_lists(r@) == split(text@, at),
        r@.len() > 0,
{
    let n: usize = text.unicode_len();
    let mut parts: Vec<Vec<char>> = Vec::new();
    let mut part: Vec<char> = Vec::new();
    let mut i: usize = 0;
    assert(text@.take(0) =~= Seq::empty());
    assert(char_lists(parts@).push(part@) =~= seq![Seq::<char>::empty()]);
    while i < n
        invariant
            i <= n,
            n == text@.len(),
            char_lists(parts@).push(part@) == split(text@.take(i as int), at),
        decreases n - i,
    {
        let c: char = text.get_char(i);
        let ghost before = char_lists(parts@).push(part@);
        assert(text@.take(i + 1).drop_last() =~= text@.take(i as int));
        assert(before.drop_last() =~= char_lists(parts@));
        if c == at {
            let ghost earlier = parts@;
            let ghost last = part@;
            parts.push(part);
            part = Vec::new();
            assert(char_lists(parts@) =~= char_lists(earlier).push(last));
            assert(char_lists(parts@).push(part@) =~= before.push(Seq::empty()));
        } else {
            part.push(c);
        }
        i += 1;
    }
    assert(text@.take(i as int) =~= text@);
    let ghost earlier = parts@;
    let ghost last = part@;
    parts.push(part);
    assert(char_lists(parts@) =~= char_lists(earlier).push(last));
    parts
}

} // verus!
