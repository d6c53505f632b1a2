//! The event-stream decoder.

use vstd::prelude::*;
use vstd::utf8::{decode_utf8, valid_utf8};
use crate::ascii::{CR, LF};
use crate::sse::types::{
    failure, EventView, SseError, SseErrorKind, SseErrorView, SseEvent, SseLimits,
};
use crate::text::{from_chars, same_text, to_chars};
use crate::time::Duration;

verus! {

/// What `String::from_utf8_lossy` makes of bytes.
pub uninterp spec fn lossy(bytes: Seq<u8>) -> Seq<char>;

/// Calls `String::from_utf8_lossy`, whose result depends on the bytes alone
/// and is the encoded text where they are well-formed UTF-8.
#[verifier::external_body]
fn lossy_text(bytes: &[u8]) -> (r: String)
    ensures
        r@ == lossy(bytes@),
        valid_utf8(bytes@) ==> r@ == decode_utf8(bytes@),
{
    String::from_utf8_lossy(bytes).into_owned()
}

/// The text of a line: what it encodes where it is well-formed UTF-8.
pub open spec fn line_text(line: Seq<u8>) -> Seq<char> {
    if valid_utf8(line) {
        decode_utf8(line)
    } else {
        lossy(line)
    }
}

/// The state of a decoder.
pub struct DecoderView {
    pub limits: SseLimits,
    /// The bytes of the line so far.
    pub line: Seq<u8>,
    /// The last byte ended a line, and a line feed right after it belongs to
    /// the same ending.
    pub skip_lf: bool,
    /// No line has ended yet.
    pub stream_start: bool,
    /// The data of the event so far, each line with its newline.
    pub data: Seq<char>,
    pub event_type: Seq<char>,
    pub id_buffer: Seq<char>,
    pub last_event_id: Seq<char>,
    pub retry_delay: Option<Duration>,
    /// The bytes of the event's lines so far.
    pub event_bytes: usize,
}

/// What a decoder has to say after some bytes.
pub enum Decoded {
    More,
    Event(EventView),
    Failed(SseErrorView),
}

/// The position of the first colon of a text.
pub open spec fn first_colon(text: Seq<char>, i: int) -> bool {
    0 <= i < text.len() && text[i] == ':' && forall|j: int| 0 <= j < i ==> #[trigger] text[j] != ':'
}

/// The name of a line's field.
pub open spec fn field_of(text: Seq<char>) -> Seq<char> {
    if exists|i: int| first_colon(text, i) {
        text.take(choose|i: int| first_colon(text, i))
    } else {
        text
    }
}

/// A text without one space in front.
pub open spec fn unspaced(text: Seq<char>) -> Seq<char> {
    if text.len() > 0 && text[0] == ' ' {
        text.skip(1)
    } else {
        text
    }
}

/// The value of a line's field: what follows the colon and at most one space.
pub open spec fn value_of(text: Seq<char>) -> Seq<char> {
    if exists|i: int| first_colon(text, i) {
        unspaced(text.skip((choose|i: int| first_colon(text, i)) + 1))
    } else {
        Seq::empty()
    }
}

/// Whether a text is a number in decimal digits.
pub open spec fn all_digits(text: Seq<char>) -> bool {
    text.len() > 0 && forall|i: int| 0 <= i < text.len() ==> '0' <= #[trigger] text[i] <= '9'
}

/// The number that decimal digits spell.
pub open spec fn number(text: Seq<char>) -> nat
    decreases text.len(),
{
    if text.len() == 0 {
        0
    } else {
        number(text.drop_last()) * 10 + (text.last() as nat - '0' as nat) as nat
    }
}

impl DecoderView {
    /// The state after a line with text.
    pub open spec fn with_text(self, text: Seq<char>) -> DecoderView {
        let (field, value) = (field_of(text), value_of(text));
        if text.len() > 0 && text[0] == ':' {
            self
        } else if field == "event"@ {
            DecoderView { event_type: value, ..self }
        } else if field == "data"@ {
            DecoderView { data: self.data + value.push('\n'), ..self }
        } else if field == "id"@ {
            if value.contains('\0') {
                self
            } else {
                DecoderView { id_buffer: value, ..self }
            }
        } else if field == "retry"@ && all_digits(value) && number(value) <= u64::MAX {
            DecoderView {
                retry_delay: Some(Duration { nanos: (number(value) * 1_000_000) as u128 }),
                ..self
            }
        } else {
            self
        }
    }

    /// The event that a blank line dispatches, if there is any data.
    pub open spec fn dispatched(self) -> Decoded {
        if self.data.len() == 0 {
            Decoded::More
        } else {
            Decoded::Event(
                EventView {
                    data: self.data.drop_last(),
                    event: if self.event_type.len() == 0 {
                        "message"@
                    } else {
                        self.event_type
                    },
                    id: self.id_buffer,
                },
            )
        }
    }

    /// The line so far, without the byte order mark that may start a stream.
    pub open spec fn unmarked(self) -> Seq<u8> {
        if self.stream_start && self.line.len() >= 3 && self.line[0] == 0xef && self.line[1] == 0xbb
            && self.line[2] == 0xbf {
            self.line.skip(3)
        } else {
            self.line
        }
    }

    /// The state after the end of a line, and what it says.
    pub open spec fn ended(self) -> (DecoderView, Decoded) {
        let line = self.unmarked();
        let fresh = DecoderView { line: Seq::empty(), stream_start: false, ..self };
        if line.len() == 0 {
            (
                DecoderView {
                    event_bytes: 0,
                    last_event_id: self.id_buffer,
                    data: Seq::empty(),
                    event_type: Seq::empty(),
                    ..fresh
                },
                self.dispatched(),
            )
        } else if self.event_bytes + line.len() > self.limits.max_event_bytes {
            (
                fresh,
                Decoded::Failed(
                    failure(
                        SseErrorKind::EventTooLarge,
                        "SSE event exceeded the configured byte limit"@,
                    ),
                ),
            )
        } else {
            (
                DecoderView {
                    event_bytes: (self.event_bytes + line.len()) as usize,
                    ..fresh
                }.with_text(line_text(line)),
                Decoded::More,
            )
        }
    }

    /// The state after one byte, and what it says. A line ends with a line
    /// feed, a carriage return or both.
    pub open spec fn step(self, byte: u8) -> (DecoderView, Decoded) {
        let fresh = DecoderView { skip_lf: false, ..self };
        if self.skip_lf && byte == LF {
            (fresh, Decoded::More)
        } else if byte == CR {
            DecoderView { skip_lf: true, ..self }.ended()
        } else if byte == LF {
            fresh.ended()
        } else if self.line.len() == self.limits.max_line_bytes {
            (
                fresh,
                Decoded::Failed(
                    failure(
                        SseErrorKind::LineTooLong,
                        "SSE line exceeded the configured byte limit"@,
                    ),
                ),
            )
        } else {
            (DecoderView { line: self.line.push(byte), ..fresh }, Decoded::More)
        }
    }

    /// The state after the bytes up to the first that says something, what it
    /// says, and the bytes after it.
    pub open spec fn decoded(self, bytes: Seq<u8>) -> (DecoderView, Decoded, Seq<u8>)
        decreases bytes.len(),
    {
        if bytes.len() == 0 {
            (self, Decoded::More, bytes)
        } else {
            let (next, said) = self.step(bytes[0]);
            if said is More {
                next.decoded(bytes.skip(1))
            } else {
                (next, said, bytes.skip(1))
            }
        }
    }

    /// The state once what has not been dispatched was thrown away.
    pub open spec fn discarded(self) -> DecoderView {
        DecoderView {
            line: Seq::empty(),
            data: Seq::empty(),
            event_type: Seq::empty(),
            id_buffer: self.last_event_id,
            event_bytes: 0,
            ..self
        }
    }
}

/// What a decoder has to say.
#[derive(Debug)]
pub enum DecodeStep {
    /// Every byte was read; more are needed.
    More,
    Event(SseEvent),
    Failed(SseError),
}

impl View for DecodeStep {
    type V = Decoded;

    open spec fn view(&self) -> Decoded {
        match self {
            DecodeStep::More => Decoded::More,
            DecodeStep::Event(event) => Decoded::Event(event@),
            DecodeStep::Failed(error) => Decoded::Failed(error@),
        }
    }
}

/// A decoder with the bytes it has not read yet.
pub struct Decoder {
    limits: SseLimits,
    chunk: Vec<u8>,
    offset: usize,
    line: Vec<u8>,
    skip_lf: bool,
    stream_start: bool,
    data: Vec<char>,
    event_type: String,
    id_buffer: String,
    last_event_id: String,
    retry_delay: Option<Duration>,
    event_bytes: usize,
}

fn find_colon(chars: &Vec<char>) -> (r: Option<usize>)
    ensures
        match r {
            Some(i) => first_colon(chars@, i as int),
            None => forall|i: int| !first_colon(chars@, i),
        },
{
    let mut i: usize = 0;
    while i < chars.len()
        invariant
            i <= chars@.len(),
            forall|j: int| 0 <= j < i ==> #[trigger] chars@[j] != ':',
        decreases chars@.len() - i,
    {
        if chars[i] == ':' {
            return Some(i);
        }
        i += 1;
    }
    None
}

/// Splits a line into its field's name and value.
fn split_field(chars: &Vec<char>) -> (r: (String, Vec<char>))
    ensures
        r.0@ == field_of(chars@),
        r.1@ == value_of(chars@),
{
    match find_colon(chars) {
        Some(i) => {
            proof {
                let k = choose|k: int| first_colon(chars@, k);
                if k < i {
                    assert(chars@[k] != ':');
                } else if i < k {
                    assert(chars@[i as int] != ':');
                }
            }
            let n: usize = chars.len();
            let field = from_chars(chars, 0, i);
            let mut start: usize = i + 1;
            if start < n && chars[start] == ' ' {
                start += 1;
            }
            let value = from_chars(chars, start, n);
            assert(field@ =~= chars@.take(i as int));
            assert(value@ =~= value_of(chars@));
            (field, to_chars(value.as_str()))
        },
        None => {
            let field = from_chars(chars, 0, chars.len());
            assert(field@ =~= chars@);
            let value: Vec<char> = Vec::new();
            assert(value@ =~= Seq::empty());
            (field, value)
        },
    }
}

/// Returns the number that decimal digits spell, if it fits.
fn parse_number(chars: &Vec<char>) -> (r: Option<u64>)
    ensures
        match r {
            Some(n) => all_digits(chars@) && n == number(chars@),
            None => !(all_digits(chars@) && number(chars@) <= u64::MAX),
        },
{
    if chars.len() == 0 {
        return None;
    }
    let mut n: u64 = 0;
    let mut large = false;
    let mut i: usize = 0;
    assert(chars@.take(0) =~= Seq::empty());
    while i < chars.len()
        invariant
            i <= chars@.len(),
            forall|j: int| 0 <= j < i ==> '0' <= #[trigger] chars@[j] <= '9',
            large == (number(chars@.take(i as int)) > u64::MAX),
            !large ==> n == number(chars@.take(i as int)),
        decreases chars@.len() - i,
    {
        let c: char = chars[i];
        if c < '0' || c > '9' {
            assert(!('0' <= chars@[i as int] <= '9'));
            return None;
        }
        assert(chars@.take(i + 1).drop_last() =~= chars@.take(i as int));
        let digit: u64 = c as u64 - '0' as u64;
        if !large {
            if n <= (u64::MAX - digit) / 10 {
                n = n * 10 + digit;
            } else {
                large = true;
            }
        }
        i += 1;
    }
    assert(chars@.take(i as int) =~= chars@);
    if large {
        None
    } else {
        Some(n)
    }
}

fn has_nul(chars: &Vec<char>) -> (r: bool)
    ensures
        r == chars@.contains('\0'),
{
    let mut i: usize = 0;
    while i < chars.len()
        invariant
            i <= chars@.len(),
            forall|j: int| 0 <= j < i ==> #[trigger] chars@[j] != '\0',
        decreases chars@.len() - i,
    {
        if chars[i] == '\0' {
            return true;
        }
        i += 1;
    }
    false
}

fn append_chars(chars: &mut Vec<char>, more: &Vec<char>)
    ensures
        final(chars)@ == old(chars)@ + more@,
{
    let mut i: usize = 0;
    while i < more.len()
        invariant
            i <= more@.len(),
            chars@ == old(chars)@ + more@.take(i as int),
        decreases more@.len() - i,
    {
        chars.push(more[i]);
        assert(chars@ =~= old(chars)@ + more@.take(i + 1));
        i += 1;
    }
    assert(more@.take(i as int) =~= more@);
}

impl Decoder {
    /// The state of the decoder.
    pub closed spec fn view(&self) -> DecoderView {
        DecoderView {
            limits: self.limits,
            line: self.line@,
            skip_lf: self.skip_lf,
            stream_start: self.stream_start,
            data: self.data@,
            event_type: self.event_type@,
            id_buffer: self.id_buffer@,
            last_event_id: self.last_event_id@,
            retry_delay: self.retry_delay,
            event_bytes: self.event_bytes,
        }
    }

    /// The bytes that the decoder has not read yet.
    pub closed spec fn pending(&self) -> Seq<u8> {
        self.chunk@.skip(self.offset as int)
    }

    /// The read position lies within the bytes.
    pub closed spec fn wf(&self) -> bool {
        self.offset <= self.chunk@.len()
    }

    /// A decoder at the start of a stream that resumes after an event.
    pub fn with_state(
        limits: SseLimits,
        last_event_id: String,
        retry_delay: Option<Duration>,
    ) -> (r: Self)
        ensures
            r.wf(),
            r.pending().len() == 0,
            r@ == (DecoderView {
                limits,
                line: Seq::empty(),
                skip_lf: false,
                stream_start: true,
                data: Seq::empty(),
                event_type: Seq::empty(),
                id_buffer: last_event_id@,
                last_event_id: last_event_id@,
                retry_delay,
                event_bytes: 0,
            }),
    {
        let r = Decoder {
            limits,
            chunk: Vec::new(),
            offset: 0,
            line: Vec::new(),
            skip_lf: false,
            stream_start: true,
            data: Vec::new(),
            event_type: String::new(),
            id_buffer: last_event_id.clone(),
            last_event_id,
            retry_delay,
            event_bytes: 0,
        };
        assert(r.line@ =~= Seq::empty());
        assert(r.data@ =~= Seq::empty());
        assert(r.event_type@ =~= Seq::empty());
        r
    }

    /// A decoder at the start of a stream.
    pub fn new(limits: SseLimits) -> (r: Self)
        ensures
            r.wf(),
            r.pending().len() == 0,
            r@ == (DecoderView {
                limits,
                line: Seq::empty(),
                skip_lf: false,
                stream_start: true,
                data: Seq::empty(),
                event_type: Seq::empty(),
                id_buffer: Seq::empty(),
                last_event_id: Seq::empty(),
                retry_delay: None,
                event_bytes: 0,
            }),
    {
        let id = String::new();
        assert(id@ =~= Seq::empty());
        Decoder::with_state(limits, id, None)
    }

    /// Hands the decoder the next bytes, once it has read all it had.
    pub fn replace_chunk(&mut self, chunk: Vec<u8>)
        requires
            old(self).wf(),
            old(self).pending().len() == 0,
        ensures
            final(self).wf(),
            final(self)@ == old(self)@,
            final(self).pending() == chunk@,
    {
        self.chunk = chunk;
        self.offset = 0;
        assert(self.pending() =~= chunk@);
    }

    /// Reads bytes up to the first event or failure.
    pub fn decode_available(&mut self) -> (r: DecodeStep)
        requires
            old(self).wf(),
        ensures
            final(self).wf(),
            (final(self)@, r@, final(self).pending()) == old(self)@.decoded(old(self).pending()),
    {
        while self.offset < self.chunk.len()
            invariant
                self.wf(),
                old(self)@.decoded(old(self).pending()) == self@.decoded(self.pending()),
            decreases self.chunk@.len() - self.offset,
        {
            let ghost before = self@;
            let ghost rest = self.pending();
            let byte: u8 = self.chunk[self.offset];
            self.offset += 1;
            assert(rest[0] == byte);
            assert(rest.skip(1) =~= self.pending());
            let skipped = self.skip_lf && byte == LF;
            self.skip_lf = false;
            if !skipped {
                if byte == CR || byte == LF {
                    self.skip_lf = byte == CR;
                    match self.finish_line() {
                        DecodeStep::More => {},
                        step => {
                            return step;
                        },
                    }
                } else if self.line.len() == self.limits.max_line_bytes {
                    return DecodeStep::Failed(
                        SseError::without_source(
                            SseErrorKind::LineTooLong,
                            "SSE line exceeded the configured byte limit",
                        ),
                    );
                } else {
                    self.line.push(byte);
                }
            }
        }
        assert(self.pending() =~= Seq::empty());
        DecodeStep::More
    }

    fn finish_line(&mut self) -> (r: DecodeStep)
        requires
            old(self).wf(),
        ensures
            final(self).wf(),
            final(self).chunk == old(self).chunk,
            final(self).offset == old(self).offset,
            (final(self)@, r@) == old(self)@.ended(),
    {
        let ghost before = self@;
        let marked = self.stream_start && self.line.len() >= 3 && self.line[0] == 0xef
            && self.line[1] == 0xbb && self.line[2] == 0xbf;
        let line: Vec<u8> = if marked {
            skip_bytes(&self.line, 3)
        } else {
            skip_bytes(&self.line, 0)
        };
        assert(line@ =~= before.unmarked());
        self.stream_start = false;
        self.line.clear();
        assert(self.line@ =~= Seq::empty());
        if line.len() == 0 {
            self.event_bytes = 0;
            return self.dispatch();
        }
        if line.len() > self.limits.max_event_bytes || self.event_bytes
            > self.limits.max_event_bytes - line.len() {
            return DecodeStep::Failed(
                SseError::without_source(
                    SseErrorKind::EventTooLarge,
                    "SSE event exceeded the configured byte limit",
                ),
            );
        }
        self.event_bytes = self.event_bytes + line.len();
        let text = to_chars(lossy_text(line.as_slice()).as_str());
        self.apply_field(&text);
        DecodeStep::More
    }

    fn apply_field(&mut self, text: &Vec<char>)
        requires
            old(self).wf(),
        ensures
            final(self).wf(),
            final(self).chunk == old(self).chunk,
            final(self).offset == old(self).offset,
            final(self)@ == old(self)@.with_text(text@),
    {
        if text.len() > 0 && text[0] == ':' {
            return;
        }
        let (field, value) = split_field(text);
        if same_text(field.as_str(), "event") {
            self.event_type = from_chars(&value, 0, value.len());
            assert(self.event_type@ =~= value@);
        } else if same_text(field.as_str(), "data") {
            append_chars(&mut self.data, &value);
            self.data.push('\n');
            assert(self.data@ =~= old(self).data@ + value@.push('\n'));
        } else if same_text(field.as_str(), "id") {
            if !has_nul(&value) {
                self.id_buffer = from_chars(&value, 0, value.len());
                assert(self.id_buffer@ =~= value@);
            }
        } else if same_text(field.as_str(), "retry") {
            match parse_number(&value) {
                Some(milliseconds) => {
                    self.retry_delay = Some(Duration::from_millis(milliseconds));
                },
                None => {},
            }
        }
    }

    fn dispatch(&mut self) -> (r: DecodeStep)
        requires
            old(self).wf(),
        ensures
            final(self).wf(),
            final(self).chunk == old(self).chunk,
            final(self).offset == old(self).offset,
            final(self)@ == (DecoderView {
                last_event_id: old(self)@.id_buffer,
                data: Seq::empty(),
                event_type: Seq::empty(),
                ..old(self)@
            }),
            r@ == old(self)@.dispatched(),
    {
        let ghost before = self@;
        self.last_event_id = self.id_buffer.clone();
        if self.data.len() == 0 {
            self.event_type = String::new();
            assert(self.event_type@ =~= Seq::empty());
            assert(self.data@ =~= Seq::empty());
            return DecodeStep::More;
        }
        let data = from_chars(&self.data, 0, self.data.len() - 1);
        assert(data@ =~= before.data.drop_last());
        self.data.clear();
        assert(self.data@ =~= Seq::empty());
        let event = if self.event_type.as_str().is_empty() {
            "message".to_owned()
        } else {
            self.event_type.clone()
        };
        self.event_type = String::new();
        assert(self.event_type@ =~= Seq::empty());
        DecodeStep::Event(SseEvent { data, event, id: self.last_event_id.clone() })
    }

    /// Throws away what has not been dispatched.
    pub fn discard_pending(&mut self)
        ensures
            final(self).wf(),
            final(self)@ == old(self)@.discarded(),
            final(self).pending().len() == 0,
    {
        self.chunk = Vec::new();
        self.offset = 0;
        self.line.clear();
        self.data.clear();
        self.event_type = String::new();
        self.id_buffer = self.last_event_id.clone();
        self.event_bytes = 0;
        assert(self.line@ =~= Seq::empty());
        assert(self.data@ =~= Seq::empty());
        assert(self.event_type@ =~= Seq::empty());
    }

    /// Returns how many bytes of the line and of the event are held.
    pub fn buffered(&self) -> (r: (usize, usize))
        ensures
            r == (self@.line.len() as usize, self@.event_bytes),
    {
        (self.line.len(), self.event_bytes)
    }

    /// Returns the persistent last-event ID.
    pub fn last_event_id(&self) -> (r: &str)
        ensures
            r@ == self@.last_event_id,
    {
        self.last_event_id.as_str()
    }

    /// Returns the latest valid `retry` duration.
    pub fn retry_delay(&self) -> (r: Option<Duration>)
        ensures
            r == self@.retry_delay,
    {
        self.retry_delay
    }

    /// Returns the limits.
    pub fn limits(&self) -> (r: SseLimits)
        ensures
            r == self@.limits,
    {
        self.limits
    }
}

fn skip_bytes(bytes: &Vec<u8>, n: usize) -> (r: Vec<u8>)
    requires
        n <= bytes@.len(),
    ensures
        r@ == bytes@.skip(n as int),
{
    let mut out: Vec<u8> = Vec::new();
    let mut i: usize = n;
    assert(bytes@.skip(n as int).take(0) =~= Seq::empty());
    while i < bytes.len()
        invariant
            n <= i <= bytes@.len(),
            out@ == bytes@.skip(n as int).take(i - n),
        decreases bytes@.len() - i,
    {
        out.push(bytes[i]);
        assert(out@ =~= bytes@.skip(n as int).take(i + 1 - n));
        i += 1;
    }
    assert(bytes@.skip(n as int).take(i - n) =~= bytes@.skip(n as int));
    out
}

} // verus!
