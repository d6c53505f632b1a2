//! What an event stream says, from its bytes to its events.

use vstd::prelude::*;
use vstd::utf8::{
    char_is_scalar, decode_first_scalar, encode_scalar, encode_utf8, encode_utf8_decode_utf8,
    encode_utf8_first_scalar, encode_utf8_valid_utf8,
};
use crate::sse::decoder::{field_of, first_colon, line_text, value_of, Decoded, DecoderView};
use crate::sse::laws::chunks_do_not_matter;
use crate::sse::stream::{fresh_decoder, fresh_stream, Reading, StreamView};
use crate::sse::types::{SseErrorKind, SseLimits};
use crate::text::decimal;
use crate::text_laws::decimal_digits_spell_their_number;

verus! {

proof fn lemma_names()
    ensures
        "data"@.len() == 4 && "event"@.len() == 5 && "id"@.len() == 2 && "retry"@.len() == 5,
        "event"@ != "retry"@,
        "data"@[0] == 'd' && "event"@[0] == 'e' && "id"@[0] == 'i' && "retry"@[0] == 'r',
        !"data"@.contains(':') && !"event"@.contains(':') && !"id"@.contains(':')
            && !"retry"@.contains(':'),
        one_line("data"@) && one_line("event"@) && one_line("id"@) && one_line("retry"@),
{
    reveal_strlit("data");
    reveal_strlit("event");
    reveal_strlit("id");
    reveal_strlit("retry");
    assert("event"@[0] == 'e' && "retry"@[0] == 'r');
}

/// A line is split at its first colon: what stands before it is the field,
/// what follows it, without one space in front, is the value, whatever colons
/// and spaces it has. A line without a colon is a field without a value.
pub proof fn a_line_is_split_at_its_first_colon(name: Seq<char>, value: Seq<char>)
    requires
        !name.contains(':'),
    ensures
        field_of(name + seq![':'] + value) == name,
        field_of(name + seq![':', ' '] + value) == name,
        field_of(name) == name,
        value_of(name + seq![':', ' '] + value) == value,
        value.len() == 0 || value[0] != ' ' ==> value_of(name + seq![':'] + value) == value,
        value_of(name).len() == 0,
{
    assert forall|j: int| 0 <= j < name.len() implies #[trigger] name[j] != ':' by {
        assert(name.contains(name[j]));
    }
    let plain = name + seq![':'] + value;
    let spaced = name + seq![':', ' '] + value;
    let n = name.len() as int;
    assert(first_colon(plain, n));
    assert(first_colon(spaced, n));
    assert forall|i: int| first_colon(plain, i) implies i == n by {
        if n < i {
            assert(plain[n] != ':');
        }
    }
    assert forall|i: int| first_colon(spaced, i) implies i == n by {
        if n < i {
            assert(spaced[n] != ':');
        }
    }
    assert(plain.take(n) =~= name);
    assert(spaced.take(n) =~= name);
    assert(plain.skip(n + 1) =~= value);
    assert(spaced.skip(n + 1).skip(1) =~= value);
    assert(spaced.skip(n + 1)[0] == ' ');
    assert(!exists|i: int| first_colon(name, i));
}

/// Whether a text holds no character that ends a line.
pub open spec fn one_line(text: Seq<char>) -> bool {
    forall|i: int| 0 <= i < text.len() ==> #[trigger] text[i] != '\n' && text[i] != '\r'
}

/// Whether bytes hold none that ends a line.
pub open spec fn one_line_bytes(bytes: Seq<u8>) -> bool {
    forall|i: int| 0 <= i < bytes.len() ==> #[trigger] bytes[i] != 0x0a && bytes[i] != 0x0d
}

/// A line as it is sent.
pub open spec fn sent_line(text: Seq<char>) -> Seq<u8> {
    encode_utf8(text).push(0x0a)
}

proof fn lemma_scalar_bytes(c: char)
    requires
        c != '\n',
        c != '\r',
    ensures
        one_line_bytes(encode_scalar(c as u32)),
{
    char_is_scalar(c);
    let s = c as u32;
    assert(s != 10 && s != 13);
    assert(s <= 0x7f ==> (s & 0x7f) as u8 == s) by (bit_vector);
    assert((0x80 | (s & 0x3f) as u8) >= 0x80) by (bit_vector);
    assert((0x80 | ((s >> 6) & 0x3f) as u8) >= 0x80) by (bit_vector);
    assert((0x80 | ((s >> 12) & 0x3f) as u8) >= 0x80) by (bit_vector);
    assert((0xc0 | ((s >> 6) & 0x1f) as u8) >= 0x80) by (bit_vector);
    assert((0xe0 | ((s >> 12) & 0x0f) as u8) >= 0x80) by (bit_vector);
    assert((0xf0 | ((s >> 18) & 0x7) as u8) >= 0x80) by (bit_vector);
}

proof fn lemma_line_bytes(text: Seq<char>)
    requires
        one_line(text),
    ensures
        one_line_bytes(encode_utf8(text)),
    decreases text.len(),
{
    if text.len() > 0 {
        let rest = text.drop_first();
        assert forall|i: int| 0 <= i < rest.len() implies #[trigger] rest[i] != '\n' && rest[i]
            != '\r' by {
            assert(rest[i] == text[i + 1]);
        }
        lemma_line_bytes(rest);
        lemma_scalar_bytes(text[0]);
        let first = encode_scalar(text[0] as u32);
        let all = encode_utf8(text);
        assert(all =~= first + encode_utf8(rest));
        assert forall|i: int| 0 <= i < all.len() implies #[trigger] all[i] != 0x0a && all[i]
            != 0x0d by {
            if i < first.len() {
                assert(all[i] == first[i]);
            } else {
                assert(all[i] == encode_utf8(rest)[i - first.len()]);
            }
        }
    }
}

/// The encoding of a text that does not start with a byte order mark does
/// not start with one either.
proof fn lemma_unmarked(text: Seq<char>)
    requires
        text.len() > 0,
        text[0] != '\u{feff}',
    ensures
        ({
            let bytes = encode_utf8(text);
            bytes.len() > 0 && !(bytes.len() >= 3 && bytes[0] == 0xef && bytes[1] == 0xbb
                && bytes[2] == 0xbf)
        }),
{
    let bytes = encode_utf8(text);
    encode_utf8_first_scalar(text);
    if bytes.len() >= 3 && bytes[0] == 0xef && bytes[1] == 0xbb && bytes[2] == 0xbf {
        assert(((0xefu8 & 0x0f) as u32) << 12 | ((0xbbu8 & 0x3f) as u32) << 6 | (0xbfu8 & 0x3f) as u32
            == 0xfeffu32) by (bit_vector);
        assert(decode_first_scalar(bytes) == 0xfeff);
        lemma_mark(text[0]);
    }
    assert(encode_scalar(text[0] as u32).len() > 0);
}

proof fn lemma_mark(c: char)
    ensures
        c as u32 == 0xfeff ==> c == '\u{feff}',
{
}

/// The bytes of a line are gathered until it ends.
proof fn lemma_gathered(decoder: DecoderView, bytes: Seq<u8>, rest: Seq<u8>)
    requires
        one_line_bytes(bytes),
        !decoder.skip_lf,
        decoder.line.len() + bytes.len() <= decoder.limits.max_line_bytes,
    ensures
        decoder.decoded(bytes + rest) == (DecoderView {
            line: decoder.line + bytes,
            ..decoder
        }).decoded(rest),
    decreases bytes.len(),
{
    if bytes.len() == 0 {
        assert(bytes + rest =~= rest);
        assert(decoder.line + bytes =~= decoder.line);
    } else {
        let all = bytes + rest;
        let left = bytes.skip(1);
        assert(bytes[0] != 0x0a && bytes[0] != 0x0d);
        assert(all[0] == bytes[0]);
        assert(all.skip(1) =~= left + rest);
        let next = DecoderView { line: decoder.line.push(bytes[0]), ..decoder };
        assert(decoder.step(all[0]) == (next, Decoded::More));
        assert forall|i: int| 0 <= i < left.len() implies #[trigger] left[i] != 0x0a && left[i]
            != 0x0d by {
            assert(left[i] == bytes[i + 1]);
        }
        lemma_gathered(next, left, rest);
        assert(next.line + left =~= decoder.line + bytes);
    }
}

/// A decoder that has ended a line and waits for the next.
pub open spec fn between_lines(decoder: DecoderView) -> bool {
    decoder.line.len() == 0 && !decoder.skip_lf
}

/// Whether a line fits what a decoder may still hold.
pub open spec fn fits(decoder: DecoderView, text: Seq<char>) -> bool {
    encode_utf8(text).len() <= decoder.limits.max_line_bytes && decoder.event_bytes + encode_utf8(
        text,
    ).len() <= decoder.limits.max_event_bytes
}

/// What is left of a decoder once a line was counted.
pub open spec fn counted(decoder: DecoderView, text: Seq<char>) -> DecoderView {
    DecoderView {
        line: Seq::empty(),
        stream_start: false,
        event_bytes: (decoder.event_bytes + encode_utf8(text).len()) as usize,
        ..decoder
    }
}

/// A line ends with a line feed and is then taken for what its text says.
proof fn lemma_line(decoder: DecoderView, text: Seq<char>, rest: Seq<u8>)
    requires
        between_lines(decoder),
        one_line(text),
        fits(decoder, text),
        text.len() > 0,
        text[0] != '\u{feff}' || !decoder.stream_start,
    ensures
        decoder.decoded(sent_line(text) + rest) == counted(decoder, text).with_text(text).decoded(
            rest,
        ),
        counted(decoder, text).with_text(text).skip_lf == false,
{
    let bytes = encode_utf8(text);
    let tail = seq![0x0au8] + rest;
    assert(sent_line(text) + rest =~= bytes + tail);
    lemma_line_bytes(text);
    lemma_gathered(decoder, bytes, tail);
    let full = DecoderView { line: decoder.line + bytes, ..decoder };
    assert(full.line =~= bytes);
    encode_utf8_first_scalar(text);
    if decoder.stream_start {
        lemma_unmarked(text);
    }
    assert(full.unmarked() == bytes);
    encode_utf8_decode_utf8(text);
    encode_utf8_valid_utf8(text);
    assert(line_text(bytes) == text);
    assert(tail[0] == 0x0a);
    assert(tail.skip(1) =~= rest);
    assert(encode_scalar(text[0] as u32).len() > 0);
    assert(bytes.len() > 0);
    let fresh = DecoderView { skip_lf: false, ..full };
    assert(fresh == full);
    let after = DecoderView {
        event_bytes: (full.event_bytes + bytes.len()) as usize,
        line: Seq::empty(),
        stream_start: false,
        ..full
    };
    assert(after == counted(decoder, text));
    assert(full.step(0x0a) == (after.with_text(text), Decoded::More));
}

/// How a field may be written: its name, a colon, one space or none, and its
/// value.
pub open spec fn written(name: Seq<char>, spaced: bool, value: Seq<char>) -> Seq<char> {
    if spaced {
        name + seq![':', ' '] + value
    } else {
        name + seq![':'] + value
    }
}

/// What a decoder makes of the line of a field.
pub open spec fn field_read(
    decoder: DecoderView,
    name: Seq<char>,
    spaced: bool,
    value: Seq<char>,
) -> DecoderView {
    decoder.decoded(sent_line(written(name, spaced, value))).0
}

/// Whether the line of a field can stand next: it fits, and a name without a
/// colon is what it starts with.
pub open spec fn readable(
    decoder: DecoderView,
    name: Seq<char>,
    spaced: bool,
    value: Seq<char>,
) -> bool {
    &&& between_lines(decoder)
    &&& name.len() > 0
    &&& name[0] != '\u{feff}'
    &&& !name.contains(':')
    &&& one_line(name)
    &&& one_line(value)
    &&& spaced || value.len() == 0 || value[0] != ' '
    &&& fits(decoder, written(name, spaced, value))
}

proof fn lemma_written(name: Seq<char>, spaced: bool, value: Seq<char>)
    requires
        one_line(name),
        one_line(value),
        name.len() > 0,
    ensures
        one_line(written(name, spaced, value)),
        written(name, spaced, value).len() > 0,
        written(name, spaced, value)[0] == name[0],
{
    let all = written(name, spaced, value);
    let gap: int = if spaced {
        2
    } else {
        1
    };
    assert forall|i: int| 0 <= i < all.len() implies #[trigger] all[i] != '\n' && all[i]
        != '\r' by {
        if i < name.len() {
            assert(all[i] == name[i]);
        } else if i >= name.len() + gap {
            assert(all[i] == value[i - name.len() - gap]);
        }
    }
}

/// The fields of a stream, line by line. A `data` line adds its value and a
/// newline to the data, an `event` line names the event, an `id` line without
/// a NUL sets the ID of the events to come, a `retry` line in digits sets the
/// delay in milliseconds. No line says anything before a blank one, none
/// touches what another sets, and any other field is ignored.
pub proof fn each_field_has_its_effect(
    decoder: DecoderView,
    name: Seq<char>,
    spaced: bool,
    value: Seq<char>,
)
    requires
        readable(decoder, name, spaced, value),
    ensures
        ({
            let text = written(name, spaced, value);
            let (after, said, rest) = decoder.decoded(sent_line(text));
            &&& said == Decoded::More
            &&& rest.len() == 0
            &&& between_lines(after)
            &&& after.event_bytes == decoder.event_bytes + encode_utf8(text).len()
            &&& after.last_event_id == decoder.last_event_id
            &&& after.limits == decoder.limits
            &&& after.data == (if name == "data"@ {
                decoder.data + value + seq!['\n']
            } else {
                decoder.data
            })
            &&& after.event_type == (if name == "event"@ {
                value
            } else {
                decoder.event_type
            })
            &&& after.id_buffer == (if name == "id"@ && !value.contains('\0') {
                value
            } else {
                decoder.id_buffer
            })
            &&& name != "retry"@ ==> after.retry_delay == decoder.retry_delay
            &&& !after.stream_start
        }),
{
    let text = written(name, spaced, value);
    lemma_written(name, spaced, value);
    lemma_line(decoder, text, Seq::empty());
    assert(sent_line(text) + Seq::<u8>::empty() =~= sent_line(text));
    a_line_is_split_at_its_first_colon(name, value);
    assert(name.contains(name[0]));
    lemma_names();
    assert(decoder.data + value.push('\n') =~= decoder.data + value + seq!['\n']);
}

/// A `retry` line sets the delay to its number of milliseconds.
pub proof fn a_retry_line_sets_the_delay(decoder: DecoderView, spaced: bool, milliseconds: u64)
    requires
        readable(decoder, "retry"@, spaced, decimal(milliseconds as nat)),
    ensures
        field_read(decoder, "retry"@, spaced, decimal(milliseconds as nat)).retry_delay matches Some(
            delay,
        ) && delay.nanos == milliseconds * 1_000_000,
{
    let value = decimal(milliseconds as nat);
    let text = written("retry"@, spaced, value);
    lemma_written("retry"@, spaced, value);
    lemma_line(decoder, text, Seq::empty());
    assert(sent_line(text) + Seq::<u8>::empty() =~= sent_line(text));
    lemma_names();
    a_line_is_split_at_its_first_colon("retry"@, value);
    decimal_digits_spell_their_number(milliseconds as nat);
}

/// A `retry` line with anything but digits is ignored.
pub proof fn a_retry_line_without_a_number_is_ignored(
    decoder: DecoderView,
    spaced: bool,
    value: Seq<char>,
    i: int,
)
    requires
        readable(decoder, "retry"@, spaced, value),
        value.len() == 0 || 0 <= i < value.len() && !('0' <= value[i] <= '9'),
    ensures
        field_read(decoder, "retry"@, spaced, value).retry_delay == decoder.retry_delay,
{
    let text = written("retry"@, spaced, value);
    lemma_written("retry"@, spaced, value);
    lemma_line(decoder, text, Seq::empty());
    assert(sent_line(text) + Seq::<u8>::empty() =~= sent_line(text));
    lemma_names();
    a_line_is_split_at_its_first_colon("retry"@, value);
}

/// A line that starts with a colon is a comment: but for its size it leaves
/// no trace.
pub proof fn a_comment_says_nothing(decoder: DecoderView, comment: Seq<char>)
    requires
        between_lines(decoder),
        one_line(comment),
        fits(decoder, seq![':'] + comment),
    ensures
        decoder.decoded(sent_line(seq![':'] + comment)) == (
            counted(decoder, seq![':'] + comment),
            Decoded::More,
            Seq::<u8>::empty(),
        ),
{
    let text = seq![':'] + comment;
    assert forall|i: int| 0 <= i < text.len() implies #[trigger] text[i] != '\n' && text[i]
        != '\r' by {
        if i > 0 {
            assert(text[i] == comment[i - 1]);
        }
    }
    lemma_line(decoder, text, Seq::empty());
    assert(sent_line(text) + Seq::<u8>::empty() =~= sent_line(text));
}

/// A blank line dispatches the event: its data without the last newline, its
/// type or `message`, and the ID that was set last. Without data there is no
/// event. Either way the ID is committed, and data and type start anew.
pub proof fn a_blank_line_dispatches(decoder: DecoderView, rest: Seq<u8>)
    requires
        between_lines(decoder),
    ensures
        ({
            let (after, said, left) = decoder.decoded(seq![0x0au8]);
            &&& left.len() == 0
            &&& between_lines(after)
            &&& after.data.len() == 0
            &&& after.event_type.len() == 0
            &&& after.event_bytes == 0
            &&& after.id_buffer == decoder.id_buffer
            &&& after.last_event_id == decoder.id_buffer
            &&& after.retry_delay == decoder.retry_delay
            &&& decoder.data.len() == 0 ==> said == Decoded::More && decoder.decoded(
                seq![0x0au8] + rest,
            ) == after.decoded(rest)
            &&& decoder.data.len() > 0 ==> {
                &&& said matches Decoded::Event(event) && event.data == decoder.data.take(
                    decoder.data.len() - 1,
                ) && event.id == decoder.id_buffer && (if decoder.event_type.len() > 0 {
                    event.event == decoder.event_type
                } else {
                    event.event == "message"@
                })
                &&& decoder.decoded(seq![0x0au8] + rest) == (after, said, rest)
            }
        }),
{
    let blank = seq![0x0au8];
    assert(blank.skip(1) =~= Seq::empty());
    assert((blank + rest).skip(1) =~= rest);
    assert((blank + rest)[0] == 0x0a);
    let (after, said) = decoder.step(0x0a);
    assert(decoder.unmarked().len() == 0);
    assert(decoder.data.len() > 0 ==> decoder.data.drop_last() =~= decoder.data.take(
        decoder.data.len() - 1,
    ));
    assert(after.decoded(Seq::empty()).2.len() == 0);
}

/// Lines with a newline between them.
pub open spec fn joined_lines(lines: Seq<Seq<char>>) -> Seq<char>
    decreases lines.len(),
{
    if lines.len() == 0 {
        Seq::empty()
    } else if lines.len() == 1 {
        lines[0]
    } else {
        joined_lines(lines.drop_last()) + seq!['\n'] + lines.last()
    }
}

/// The data lines of an event, as a server sends them.
pub open spec fn sent_data(lines: Seq<Seq<char>>) -> Seq<u8>
    decreases lines.len(),
{
    if lines.len() == 0 {
        Seq::empty()
    } else {
        sent_data(lines.drop_last()) + sent_line(written("data"@, true, lines.last()))
    }
}

/// An event as a server sends it: its type, its ID, its data line by line and
/// a blank line.
pub open spec fn sent_event(event: Seq<char>, id: Seq<char>, lines: Seq<Seq<char>>) -> Seq<u8> {
    sent_line(written("event"@, true, event)) + sent_line(written("id"@, true, id)) + sent_data(
        lines,
    ) + seq![0x0au8]
}

/// Whether every text is one line.
pub open spec fn all_one_line(lines: Seq<Seq<char>>) -> bool {
    forall|k: int| 0 <= k < lines.len() ==> one_line(#[trigger] lines[k])
}

proof fn lemma_data_lines(decoder: DecoderView, lines: Seq<Seq<char>>, rest: Seq<u8>)
    requires
        between_lines(decoder),
        decoder.data.len() == 0,
        all_one_line(lines),
        sent_data(lines).len() <= decoder.limits.max_line_bytes,
        decoder.event_bytes + sent_data(lines).len() <= decoder.limits.max_event_bytes,
    ensures
        ({
            let after = decoder.decoded(sent_data(lines)).0;
            &&& decoder.decoded(sent_data(lines) + rest) == after.decoded(rest)
            &&& decoder.decoded(sent_data(lines)).1 is More
            &&& between_lines(after)
            &&& after.event_type == decoder.event_type
            &&& after.id_buffer == decoder.id_buffer
            &&& after.limits == decoder.limits
            &&& after.event_bytes <= decoder.event_bytes + sent_data(lines).len()
            &&& lines.len() == 0 ==> after.data.len() == 0
            &&& lines.len() > 0 ==> after.data == joined_lines(lines) + seq!['\n']
        }),
    decreases lines.len(),
{
    lemma_names();
    let all = sent_data(lines);
    if lines.len() == 0 {
        assert(all + rest =~= rest);
    } else {
        let front = lines.drop_last();
        let last = lines[lines.len() - 1];
        let line = sent_line(written("data"@, true, last));
        assert forall|k: int| 0 <= k < front.len() implies one_line(#[trigger] front[k]) by {
            assert(front[k] == lines[k]);
        }
        assert(one_line(last));
        lemma_data_lines(decoder, front, line);
        lemma_data_lines(decoder, front, line + rest);
        let before = decoder.decoded(sent_data(front)).0;
        each_field_has_its_effect(before, "data"@, true, last);
        let after = before.decoded(line).0;
        chunks_do_not_matter(before, line, rest);
        assert(sent_data(front) + line =~= all);
        assert(sent_data(front) + (line + rest) =~= all + rest);
        assert(after.data == before.data + last + seq!['\n']);
        if front.len() == 0 {
            assert(joined_lines(lines) == last);
            assert(before.data + last =~= last);
        } else {
            assert(joined_lines(lines) == joined_lines(front) + seq!['\n'] + last);
        }
    }
}

/// An event is read as it was written, whatever its values hold: its type, or
/// `message` where that is empty, its ID, and its data lines joined by
/// newlines. It is one event, at the blank line, and its ID is committed.
pub proof fn an_event_is_read_as_it_was_written(
    limits: SseLimits,
    event: Seq<char>,
    id: Seq<char>,
    lines: Seq<Seq<char>>,
    rest: Seq<u8>,
)
    requires
        one_line(event),
        one_line(id),
        !id.contains('\0'),
        all_one_line(lines),
        lines.len() > 0,
        sent_event(event, id, lines).len() <= limits.max_line_bytes,
        sent_event(event, id, lines).len() <= limits.max_event_bytes,
    ensures
        ({
            let fresh = fresh_decoder(limits, Seq::empty(), None);
            let (after, said, left) = fresh.decoded(sent_event(event, id, lines) + rest);
            &&& said matches Decoded::Event(found) && {
                &&& found.data == joined_lines(lines)
                &&& found.event == (if event.len() > 0 {
                    event
                } else {
                    "message"@
                })
                &&& found.id == id
            }
            &&& left == rest
            &&& after.last_event_id == id
        }),
{
    let fresh = fresh_decoder(limits, Seq::empty(), None);
    lemma_names();
    let first = sent_line(written("event"@, true, event));
    let second = sent_line(written("id"@, true, id));
    let data = sent_data(lines);
    let blank = seq![0x0au8];
    let whole = sent_event(event, id, lines);
    assert(whole.len() == first.len() + second.len() + data.len() + 1);
    each_field_has_its_effect(fresh, "event"@, true, event);
    let one = fresh.decoded(first).0;
    each_field_has_its_effect(one, "id"@, true, id);
    let two = one.decoded(second).0;
    lemma_data_lines(two, lines, blank + rest);
    let three = two.decoded(data).0;
    a_blank_line_dispatches(three, rest);
    assert(three.data.take(three.data.len() - 1) =~= joined_lines(lines));
    chunks_do_not_matter(fresh, first, second + (data + (blank + rest)));
    chunks_do_not_matter(one, second, data + (blank + rest));
    assert(whole + rest =~= first + (second + (data + (blank + rest))));
}

/// A value on one `data` line is one event of type `message`, colons in it
/// included.
pub proof fn one_data_line_is_one_event(limits: SseLimits, spaced: bool, value: Seq<char>)
    requires
        one_line(value),
        spaced || value.len() == 0 || value[0] != ' ',
        encode_utf8(written("data"@, spaced, value)).len() <= limits.max_line_bytes,
        encode_utf8(written("data"@, spaced, value)).len() <= limits.max_event_bytes,
    ensures
        ({
            let fresh = fresh_decoder(limits, Seq::empty(), None);
            let (_, said, left) = fresh.decoded(
                sent_line(written("data"@, spaced, value)).push(0x0a),
            );
            &&& said matches Decoded::Event(found) && found.data == value && found.event
                == "message"@ && found.id.len() == 0
            &&& left.len() == 0
        }),
{
    let fresh = fresh_decoder(limits, Seq::empty(), None);
    lemma_names();
    let line = sent_line(written("data"@, spaced, value));
    each_field_has_its_effect(fresh, "data"@, spaced, value);
    let after = fresh.decoded(line).0;
    a_blank_line_dispatches(after, Seq::empty());
    chunks_do_not_matter(fresh, line, seq![0x0au8]);
    assert(line.push(0x0a) =~= line + seq![0x0au8]);
    assert(seq![0x0au8] + Seq::<u8>::empty() =~= seq![0x0au8]);
    assert(after.data =~= value + seq!['\n']);
    assert(after.data.take(after.data.len() - 1) =~= value);
}

/// A stream whose decoder is fresh hands out the event of the bytes it got.
pub proof fn a_stream_hands_out_the_event_it_received(limits: SseLimits, value: Seq<char>)
    requires
        one_line(value),
        encode_utf8(written("data"@, true, value)).len() <= limits.max_line_bytes,
        encode_utf8(written("data"@, true, value)).len() <= limits.max_event_bytes,
    ensures
        ({
            let stream = StreamView {
                pending: sent_line(written("data"@, true, value)).push(0x0a),
                ..fresh_stream(limits)
            };
            stream.read().1 matches Reading::Event(found) && found.data == value && found.event
                == "message"@
        }),
{
    one_data_line_is_one_event(limits, true, value);
}

/// A byte order mark in front of a stream is not part of its first line; any
/// later one is.
pub proof fn a_byte_order_mark_is_skipped_once(decoder: DecoderView, text: Seq<char>)
    requires
        between_lines(decoder),
        one_line(text),
        text.len() > 0,
        text[0] != '\u{feff}',
        encode_utf8(text).len() + 3 <= decoder.limits.max_line_bytes,
        decoder.event_bytes + encode_utf8(text).len() <= decoder.limits.max_event_bytes,
        decoder.stream_start,
    ensures
        decoder.decoded(seq![0xefu8, 0xbbu8, 0xbfu8] + sent_line(text)) == decoder.decoded(
            sent_line(text),
        ),
        !decoder.decoded(sent_line(text)).0.stream_start,
{
    let mark = seq![0xefu8, 0xbbu8, 0xbfu8];
    let bytes = encode_utf8(text);
    let end = seq![0x0au8];
    lemma_line_bytes(text);
    lemma_line(decoder, text, Seq::empty());
    assert(sent_line(text) + Seq::<u8>::empty() =~= sent_line(text));
    let marked = mark + bytes;
    assert forall|i: int| 0 <= i < marked.len() implies #[trigger] marked[i] != 0x0a && marked[i]
        != 0x0d by {
        if i >= 3 {
            assert(marked[i] == bytes[i - 3]);
        }
    }
    lemma_gathered(decoder, marked, end);
    lemma_gathered(decoder, bytes, end);
    assert(mark + sent_line(text) =~= marked + end);
    assert(sent_line(text) =~= bytes + end);
    lemma_unmarked(text);
    let a = DecoderView { line: decoder.line + marked, ..decoder };
    let b = DecoderView { line: decoder.line + bytes, ..decoder };
    assert(a.line =~= marked);
    assert(b.line =~= bytes);
    assert(a.unmarked() =~= bytes);
    assert(b.unmarked() == bytes);
    assert(end.skip(1) =~= Seq::empty());
    assert(a.step(0x0a) == b.step(0x0a));
}

/// A line over the limit of a line fails at the first byte too many; one that
/// reaches the limit does not fail.
pub proof fn a_line_may_reach_its_limit(decoder: DecoderView, bytes: Seq<u8>, byte: u8)
    requires
        between_lines(decoder),
        one_line_bytes(bytes),
        byte != 0x0a,
        byte != 0x0d,
        bytes.len() == decoder.limits.max_line_bytes,
    ensures
        decoder.decoded(bytes).1 == Decoded::More,
        decoder.decoded(bytes.push(byte)).1 matches Decoded::Failed(error) && error.kind
            == SseErrorKind::LineTooLong,
{
    lemma_gathered(decoder, bytes, Seq::empty());
    lemma_gathered(decoder, bytes, seq![byte]);
    assert(bytes + Seq::<u8>::empty() =~= bytes);
    assert(bytes + seq![byte] =~= bytes.push(byte));
    let full = DecoderView { line: decoder.line + bytes, ..decoder };
    assert(full.line.len() == decoder.limits.max_line_bytes);
    assert(seq![byte][0] == byte);
}

/// The lines of an event may reach the limit of an event together; the line
/// that goes over it fails.
pub proof fn an_event_may_reach_its_limit(decoder: DecoderView, text: Seq<char>)
    requires
        between_lines(decoder),
        !decoder.stream_start,
        one_line(text),
        text.len() > 0,
        encode_utf8(text).len() <= decoder.limits.max_line_bytes,
    ensures
        decoder.event_bytes + encode_utf8(text).len() <= decoder.limits.max_event_bytes
            ==> decoder.decoded(sent_line(text)).1 == Decoded::More,
        decoder.event_bytes + encode_utf8(text).len() > decoder.limits.max_event_bytes ==> (
        decoder.decoded(sent_line(text)).1 matches Decoded::Failed(error) && error.kind
            == SseErrorKind::EventTooLarge),
{
    let bytes = encode_utf8(text);
    let end = seq![0x0au8];
    assert(sent_line(text) =~= bytes + end);
    assert(sent_line(text) + Seq::<u8>::empty() =~= sent_line(text));
    if fits(decoder, text) {
        lemma_line(decoder, text, Seq::empty());
    } else {
        lemma_line_bytes(text);
        lemma_gathered(decoder, bytes, end);
        encode_utf8_first_scalar(text);
        assert(encode_scalar(text[0] as u32).len() > 0);
        let full = DecoderView { line: decoder.line + bytes, ..decoder };
        assert(full.line =~= bytes);
        assert(bytes.len() > 0);
        assert(end[0] == 0x0a);
    }
}

/// What has no blank line behind it when a body ends is thrown away: neither
/// data, type nor an uncommitted ID is left.
pub proof fn an_unfinished_event_is_thrown_away(stream: StreamView)
    ensures
        ({
            let over = stream.ended();
            &&& over.finished
            &&& over.pending.len() == 0
            &&& over.decoder.line.len() == 0
            &&& over.decoder.data.len() == 0
            &&& over.decoder.event_type.len() == 0
            &&& over.decoder.id_buffer == stream.decoder.last_event_id
            &&& over.decoder.last_event_id == stream.decoder.last_event_id
            &&& over.decoder.retry_delay == stream.decoder.retry_delay
            &&& over.read().1 == Reading::Ended
        }),
{
}

} // verus!
