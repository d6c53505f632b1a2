//! The request of an event source.

use vstd::prelude::*;
use vstd::utf8::encode_utf8;
use crate::alt_svc::field::is_token_byte;
use crate::endpoint::{headers_view, HeaderView, HttpProtocol, RequestHeader, Route};
use crate::error::{RequestError, RequestErrorKind};
use crate::host::text_view;
use crate::sse::types::{
    delay_range_failure, failure, idle_range_failure, limit_failure, request_failure, SseError,
    SseErrorKind, SseErrorView, SseLimits,
};
use crate::text::{is_upper, lowercase, same_text, to_lowercase};
use crate::time::{Duration, Instant};
use crate::timeout::RequestTimeouts;

verus! {

pub const DEFAULT_INITIAL_RETRY_SECS: u64 = 3;

pub const DEFAULT_MAX_RECONNECTS: usize = 3;

/// One field or reconnect-state placeholder in an event source's request.
#[non_exhaustive]
pub enum SseHeader {
    /// Inserts the committed `Last-Event-ID` at this position when it is
    /// nonempty, using the supplied field-name spelling.
    LastEventId {
        /// Exact field-name spelling to emit.
        name: String,
    },
    /// Emits one literal ordered field.
    Field(RequestHeader),
}

/// What an [`SseHeader`] holds.
pub enum SseHeaderView {
    LastEventId(Seq<char>),
    Field(HeaderView),
}

impl View for SseHeader {
    type V = SseHeaderView;

    open spec fn view(&self) -> SseHeaderView {
        match self {
            SseHeader::LastEventId { name } => SseHeaderView::LastEventId(name@),
            SseHeader::Field(header) => SseHeaderView::Field(header@),
        }
    }
}

/// What a template holds.
pub open spec fn template_items(template: Seq<SseHeader>) -> Seq<SseHeaderView> {
    template.map_values(|header: SseHeader| header@)
}

/// What may be shown of an entry: not the value of a field.
#[derive(Debug, PartialEq, Eq)]
pub struct RedactedSseHeader {
    pub kind: &'static str,
    pub name: String,
}

impl SseHeader {
    /// Returns what may be shown of this entry.
    pub fn redacted(&self) -> (r: RedactedSseHeader)
        ensures
            match self@ {
                SseHeaderView::LastEventId(name) => r.kind@ == "last_event_id"@ && r.name@ == name,
                SseHeaderView::Field(header) => r.kind@ == "field"@ && r.name@ == header.name,
            },
    {
        match self {
            SseHeader::LastEventId { name } => RedactedSseHeader {
                kind: "last_event_id",
                name: name.clone(),
            },
            SseHeader::Field(header) => RedactedSseHeader {
                kind: "field",
                name: header.name.clone(),
            },
        }
    }

    /// Creates a `Last-Event-ID` placeholder with caller-controlled spelling.
    pub fn last_event_id(name: &str) -> (r: Self)
        ensures
            r@ == SseHeaderView::LastEventId(name@),
    {
        SseHeader::LastEventId { name: name.to_owned() }
    }

    /// Creates a literal ordered field.
    pub fn field(header: RequestHeader) -> (r: Self)
        ensures
            r@ == SseHeaderView::Field(header@),
    {
        SseHeader::Field(header)
    }
}

/// The fields that an event source sends unless told otherwise.
pub open spec fn default_items(protocol: HttpProtocol) -> Seq<SseHeaderView> {
    let (accept, cache_control) = if protocol == HttpProtocol::Http1 {
        ("Accept"@, "Cache-Control"@)
    } else {
        ("accept"@, "cache-control"@)
    };
    seq![
        SseHeaderView::Field(
            HeaderView { name: accept, value: encode_utf8("text/event-stream"@) },
        ),
        SseHeaderView::Field(HeaderView { name: cache_control, value: encode_utf8("no-cache"@) }),
    ]
}

/// Returns the fields that an event source sends unless told otherwise.
pub fn default_headers(protocol: HttpProtocol) -> (r: Vec<SseHeader>)
    ensures
        template_items(r@) == default_items(protocol),
{
    let (accept, cache_control) = match protocol {
        HttpProtocol::Http1 => ("Accept", "Cache-Control"),
        _ => ("accept", "cache-control"),
    };
    let mut headers: Vec<SseHeader> = Vec::new();
    headers.push(
        SseHeader::field(RequestHeader::new(accept, "text/event-stream".as_bytes())),
    );
    headers.push(SseHeader::field(RequestHeader::new(cache_control, "no-cache".as_bytes())));
    assert(template_items(headers@) =~= default_items(protocol));
    headers
}

/// Whether a text can name a field.
pub open spec fn is_field_name(name: Seq<char>) -> bool {
    let bytes = encode_utf8(name);
    0 < bytes.len() <= 65_535 && forall|i: int|
        0 <= i < bytes.len() ==> is_token_byte(#[trigger] bytes[i])
}

/// A field name in its normal form.
pub open spec fn normal_name(name: Seq<char>) -> Option<Seq<char>> {
    if is_field_name(name) {
        Some(lowercase(name))
    } else {
        None
    }
}

/// Calls `http::HeaderName::from_bytes`, which takes up to 65535 token bytes
/// and brings them to lower case.
#[verifier::external_body]
fn normalize_name(name: &str) -> (r: Option<String>)
    ensures
        text_view(r) == normal_name(name@),
{
    http::HeaderName::from_bytes(name.as_bytes()).ok().map(|name| name.as_str().to_owned())
}

/// Whether a text has an upper-case ASCII letter.
pub open spec fn has_upper(text: Seq<char>) -> bool {
    exists|i: int| 0 <= i < text.len() && is_upper(#[trigger] text[i])
}

fn contains_upper(text: &str) -> (r: bool)
    ensures
        r == has_upper(text@),
{
    let n: usize = text.unicode_len();
    let mut i: usize = 0;
    while i < n
        invariant
            i <= n,
            n == text@.len(),
            forall|j: int| 0 <= j < i ==> !is_upper(#[trigger] text@[j]),
        decreases n - i,
    {
        let c: char = text.get_char(i);
        if 'A' <= c && c <= 'Z' {
            assert(is_upper(text@[i as int]));
            return true;
        }
        i += 1;
    }
    false
}

/// Why an item of a template is refused, if it is.
pub open spec fn item_refusal(item: SseHeaderView, protocol: HttpProtocol) -> Option<SseErrorView> {
    match item {
        SseHeaderView::Field(header) => if lowercase(header.name) == "last-event-id"@ {
            Some(
                failure(
                    SseErrorKind::InvalidRequestHeader,
                    "literal Last-Event-ID is managed by the SSE event source; use the placeholder"@,
                ),
            )
        } else {
            None
        },
        SseHeaderView::LastEventId(name) => if normal_name(name) != Some("last-event-id"@) {
            Some(
                failure(
                    SseErrorKind::InvalidRequestHeader,
                    "Last-Event-ID placeholder name must spell Last-Event-ID"@,
                ),
            )
        } else if protocol != HttpProtocol::Http1 && has_upper(name) {
            Some(
                failure(
                    SseErrorKind::InvalidRequestHeader,
                    "HTTP/2 and HTTP/3 Last-Event-ID placeholder names must be lowercase"@,
                ),
            )
        } else {
            None
        },
    }
}

/// The first refusal of a template's items.
pub open spec fn first_refusal(
    template: Seq<SseHeaderView>,
    protocol: HttpProtocol,
) -> Option<SseErrorView>
    decreases template.len(),
{
    if template.len() == 0 {
        None
    } else {
        match first_refusal(template.drop_last(), protocol) {
            Some(error) => Some(error),
            None => item_refusal(template.last(), protocol),
        }
    }
}

/// How many placeholders a template has.
pub open spec fn placeholders(template: Seq<SseHeaderView>) -> nat
    decreases template.len(),
{
    if template.len() == 0 {
        0
    } else {
        placeholders(template.drop_last()) + (if template.last() is LastEventId {
            1nat
        } else {
            0nat
        })
    }
}

/// Why a template is refused, if it is.
pub open spec fn template_refusal(
    template: Seq<SseHeaderView>,
    protocol: HttpProtocol,
) -> Option<SseErrorView> {
    match first_refusal(template, protocol) {
        Some(error) => Some(error),
        None => if placeholders(template) > 1 {
            Some(
                failure(
                    SseErrorKind::InvalidRequestHeader,
                    "SSE request permits at most one Last-Event-ID placeholder"@,
                ),
            )
        } else {
            None
        },
    }
}

/// Why something was refused, if it was.
pub open spec fn outcome(result: Result<(), SseError>) -> Option<SseErrorView> {
    match result {
        Ok(_) => None,
        Err(error) => Some(error@),
    }
}

fn check_item(item: &SseHeader, protocol: HttpProtocol) -> (r: Result<(), SseError>)
    ensures
        outcome(r) == item_refusal(item@, protocol),
{
    match item {
        SseHeader::Field(header) => {
            if same_text(to_lowercase(header.name.as_str()).as_str(), "last-event-id") {
                return Err(
                    SseError::invalid_request_header(
                        "literal Last-Event-ID is managed by the SSE event source; use the placeholder",
                    ),
                );
            }
            Ok(())
        },
        SseHeader::LastEventId { name } => {
            let spelled = match normalize_name(name.as_str()) {
                Some(normal) => same_text(normal.as_str(), "last-event-id"),
                None => false,
            };
            if !spelled {
                return Err(
                    SseError::invalid_request_header(
                        "Last-Event-ID placeholder name must spell Last-Event-ID",
                    ),
                );
            }
            if protocol != HttpProtocol::Http1 && contains_upper(name.as_str()) {
                return Err(
                    SseError::invalid_request_header(
                        "HTTP/2 and HTTP/3 Last-Event-ID placeholder names must be lowercase",
                    ),
                );
            }
            Ok(())
        },
    }
}

proof fn lemma_first_refusal(
    template: Seq<SseHeaderView>,
    protocol: HttpProtocol,
    i: int,
)
    requires
        0 <= i <= template.len(),
        first_refusal(template.take(i), protocol) is Some,
    ensures
        first_refusal(template, protocol) == first_refusal(template.take(i), protocol),
    decreases template.len() - i,
{
    if i < template.len() {
        assert(template.take(i + 1).drop_last() =~= template.take(i));
        lemma_first_refusal(template, protocol, i + 1);
    } else {
        assert(template.take(i) =~= template);
    }
}

/// Rejects literal `Last-Event-ID` fields and invalid or repeated
/// placeholders.
pub fn validate_template(template: &Vec<SseHeader>, protocol: HttpProtocol) -> (r: Result<
    (),
    SseError,
>)
    ensures
        outcome(r) == template_refusal(template_items(template@), protocol),
{
    let ghost all = template_items(template@);
    let mut found: usize = 0;
    let mut i: usize = 0;
    assert(all.take(0) =~= Seq::empty());
    while i < template.len()
        invariant
            i <= template@.len(),
            all == template_items(template@),
            found <= i,
            found == placeholders(all.take(i as int)),
            first_refusal(all.take(i as int), protocol) is None,
        decreases template@.len() - i,
    {
        assert(all.take(i + 1).drop_last() =~= all.take(i as int));
        assert(all.take(i + 1).last() == template@[i as int]@);
        match check_item(&template[i], protocol) {
            Ok(_) => {},
            Err(error) => {
                proof {
                    lemma_first_refusal(all, protocol, i + 1);
                }
                return Err(error);
            },
        }
        match &template[i] {
            SseHeader::LastEventId { .. } => {
                found += 1;
            },
            _ => {},
        }
        i += 1;
    }
    assert(all.take(i as int) =~= all);
    if found > 1 {
        return Err(
            SseError::invalid_request_header(
                "SSE request permits at most one Last-Event-ID placeholder",
            ),
        );
    }
    Ok(())
}

/// The field of a committed event ID; none while it is empty.
pub open spec fn id_field(name: Seq<char>, id: Seq<char>) -> Seq<HeaderView> {
    if id.len() == 0 {
        Seq::empty()
    } else {
        seq![HeaderView { name, value: encode_utf8(id) }]
    }
}

/// The fields of a template, with the committed ID at its placeholder.
pub open spec fn placed_fields(template: Seq<SseHeaderView>, id: Seq<char>) -> Seq<HeaderView>
    decreases template.len(),
{
    if template.len() == 0 {
        Seq::empty()
    } else {
        let before = placed_fields(template.drop_last(), id);
        match template.last() {
            SseHeaderView::Field(header) => before.push(header),
            SseHeaderView::LastEventId(name) => before + id_field(name, id),
        }
    }
}

/// The usual spelling of `Last-Event-ID` in a protocol.
pub open spec fn usual_name(protocol: HttpProtocol) -> Seq<char> {
    if protocol == HttpProtocol::Http1 {
        "Last-Event-ID"@
    } else {
        "last-event-id"@
    }
}

/// The fields of one attempt. Without a placeholder, a committed ID comes
/// last.
pub open spec fn resolved(
    template: Seq<SseHeaderView>,
    protocol: HttpProtocol,
    id: Seq<char>,
) -> Seq<HeaderView> {
    if placeholders(template) > 0 {
        placed_fields(template, id)
    } else {
        placed_fields(template, id) + id_field(usual_name(protocol), id)
    }
}

fn push_id(headers: &mut Vec<RequestHeader>, name: &str, id: &str)
    ensures
        headers_view(final(headers)@) == headers_view(old(headers)@) + id_field(name@, id@),
{
    let ghost before = headers@;
    if !id.is_empty() {
        headers.push(RequestHeader::new(name, id.as_bytes()));
        assert(headers_view(headers@) =~= headers_view(before) + id_field(name@, id@));
    } else {
        assert(headers_view(headers@) =~= headers_view(before) + id_field(name@, id@));
    }
}

/// Expands a validated template for one attempt.
pub fn resolve_template(
    template: &Vec<SseHeader>,
    protocol: HttpProtocol,
    last_event_id: &str,
) -> (r: Vec<RequestHeader>)
    ensures
        headers_view(r@) == resolved(template_items(template@), protocol, last_event_id@),
{
    let ghost all = template_items(template@);
    let mut headers: Vec<RequestHeader> = Vec::new();
    let mut placed = false;
    let mut i: usize = 0;
    assert(all.take(0) =~= Seq::empty());
    assert(headers_view(headers@) =~= Seq::empty());
    while i < template.len()
        invariant
            i <= template@.len(),
            all == template_items(template@),
            placed == (placeholders(all.take(i as int)) > 0),
            headers_view(headers@) == placed_fields(all.take(i as int), last_event_id@),
        decreases template@.len() - i,
    {
        assert(all.take(i + 1).drop_last() =~= all.take(i as int));
        assert(all.take(i + 1).last() == template@[i as int]@);
        match &template[i] {
            SseHeader::Field(header) => {
                let ghost before = headers@;
                headers.push(header.clone());
                assert(headers_view(headers@) =~= headers_view(before).push(header@));
            },
            SseHeader::LastEventId { name } => {
                placed = true;
                push_id(&mut headers, name.as_str(), last_event_id);
            },
        }
        i += 1;
    }
    assert(all.take(i as int) =~= all);
    if !placed {
        let name = match protocol {
            HttpProtocol::Http1 => "Last-Event-ID",
            _ => "last-event-id",
        };
        push_id(&mut headers, name, last_event_id);
    }
    headers
}

/// The delay before a reconnect: no shorter than the minimum.
pub open spec fn retry_after(delay: Duration, minimum: Option<Duration>) -> Duration {
    match minimum {
        Some(minimum) => if delay.nanos < minimum.nanos {
            minimum
        } else {
            delay
        },
        None => delay,
    }
}

/// Returns the delay before a reconnect: no shorter than the minimum.
pub fn effective_retry(delay: Duration, minimum: Option<Duration>) -> (r: Duration)
    ensures
        r == retry_after(delay, minimum),
{
    match minimum {
        Some(minimum) => if delay.nanos < minimum.nanos {
            minimum
        } else {
            delay
        },
        None => delay,
    }
}

/// Whether a failed attempt may succeed on a later reconnect.
///
/// Input, policy, and route failures are deterministic: repeating the same
/// request would fail identically, so they end the event source at once.
pub open spec fn reconnectable(kind: RequestErrorKind) -> bool {
    match kind {
        RequestErrorKind::Resolve => true,
        RequestErrorKind::Connect => true,
        RequestErrorKind::Proxy => true,
        RequestErrorKind::Capacity => true,
        RequestErrorKind::Timeout => true,
        RequestErrorKind::Tls => true,
        RequestErrorKind::Http1 => true,
        RequestErrorKind::Http2 => true,
        RequestErrorKind::Http3 => true,
        _ => false,
    }
}

/// Returns whether a failed attempt may succeed on a later reconnect.
pub fn is_reconnectable(error: &RequestError) -> (r: bool)
    ensures
        r == reconnectable(error.kind),
{
    match error.kind {
        RequestErrorKind::Resolve => true,
        RequestErrorKind::Connect => true,
        RequestErrorKind::Proxy => true,
        RequestErrorKind::Capacity => true,
        RequestErrorKind::Timeout => true,
        RequestErrorKind::Tls => true,
        RequestErrorKind::Http1 => true,
        RequestErrorKind::Http2 => true,
        RequestErrorKind::Http3 => true,
        _ => false,
    }
}

/// What may be shown of a builder: neither its URI nor its fields.
#[derive(Clone, Copy, Debug, PartialEq, Eq)]
pub struct RedactedSseRequest {
    pub protocol: HttpProtocol,
    pub header_count: usize,
    pub route_override: bool,
    pub timeout_override: bool,
    pub limits: SseLimits,
    pub idle_timeout: Option<Duration>,
    pub initial_retry: Duration,
    pub max_reconnects: usize,
}

/// Builds one server-sent event source.
pub struct SseRequestBuilder {
    pub protocol: HttpProtocol,
    pub uri: String,
    pub headers: Vec<SseHeader>,
    pub route: Option<Route>,
    pub timeouts: Option<RequestTimeouts>,
    pub limits: SseLimits,
    pub idle_timeout: Option<Duration>,
    pub initial_retry: Duration,
    /// The shortest delay before a reconnect, whatever the server asks for.
    pub minimum_retry: Option<Duration>,
    pub max_reconnects: usize,
}

/// Why a builder is refused at `now`, if it is.
pub open spec fn builder_refusal(builder: SseRequestBuilder, now: Instant) -> Option<SseErrorView> {
    match template_refusal(template_items(builder.headers@), builder.protocol) {
        Some(error) => Some(error),
        None => if builder.max_reconnects > 0 && !now.reaches(
            retry_after(builder.initial_retry, builder.minimum_retry),
        ) {
            Some(delay_range_failure())
        } else if builder.idle_timeout matches Some(timeout) && !now.reaches(timeout) {
            Some(idle_range_failure())
        } else {
            None
        },
    }
}

impl SseRequestBuilder {
    /// Whether a builder has the default fields, limits and reconnect policy.
    pub open spec fn is_default(&self, protocol: HttpProtocol, uri: Seq<char>) -> bool {
        &&& self.protocol == protocol
        &&& self.uri@ == uri
        &&& template_items(self.headers@) == default_items(protocol)
        &&& self.route is None
        &&& self.timeouts is None
        &&& self.limits == (SseLimits { max_line_bytes: 65_536, max_event_bytes: 1_048_576 })
        &&& self.idle_timeout is None
        &&& self.initial_retry.nanos == 3_000_000_000
        &&& self.minimum_retry is None
        &&& self.max_reconnects == DEFAULT_MAX_RECONNECTS
    }

    /// A builder with the default fields, limits and reconnect policy.
    pub fn new(protocol: HttpProtocol, uri: &str) -> (r: Self)
        ensures
            r.is_default(protocol, uri@),
    {
        SseRequestBuilder {
            protocol,
            uri: uri.to_owned(),
            headers: default_headers(protocol),
            route: None,
            timeouts: None,
            limits: SseLimits::default(),
            idle_timeout: None,
            initial_retry: Duration::from_secs(DEFAULT_INITIAL_RETRY_SECS),
            minimum_retry: None,
            max_reconnects: DEFAULT_MAX_RECONNECTS,
        }
    }

    /// Returns what may be shown of this builder.
    pub fn redacted(&self) -> (r: RedactedSseRequest)
        ensures
            r == (RedactedSseRequest {
                protocol: self.protocol,
                header_count: self.headers@.len() as usize,
                route_override: self.route is Some,
                timeout_override: self.timeouts is Some,
                limits: self.limits,
                idle_timeout: self.idle_timeout,
                initial_retry: self.initial_retry,
                max_reconnects: self.max_reconnects,
            }),
    {
        RedactedSseRequest {
            protocol: self.protocol,
            header_count: self.headers.len(),
            route_override: self.route.is_some(),
            timeout_override: self.timeouts.is_some(),
            limits: self.limits,
            idle_timeout: self.idle_timeout,
            initial_retry: self.initial_retry,
            max_reconnects: self.max_reconnects,
        }
    }

    /// Appends one literal ordered request field after the current template.
    ///
    /// A literal `Last-Event-ID` is rejected by [`SseRequestBuilder::validate`];
    /// use [`SseHeader::last_event_id`] to position the managed field.
    pub fn header(self, header: RequestHeader) -> (r: Self)
        ensures
            template_items(r.headers@) == template_items(self.headers@).push(
                SseHeaderView::Field(header@),
            ),
            r == (SseRequestBuilder { headers: r.headers, ..self }),
    {
        let mut headers = self.headers;
        let ghost before = headers@;
        headers.push(SseHeader::field(header));
        assert(template_items(headers@) =~= template_items(before).push(
            SseHeaderView::Field(header@),
        ));
        SseRequestBuilder { headers, ..self }
    }

    /// The builder with this setting.
    pub open spec fn with_headers(self, headers: Vec<SseHeader>) -> Self {
        SseRequestBuilder { headers, ..self }
    }

    /// Replaces the complete ordered request-field template, including the
    /// defaults.
    pub fn headers(self, headers: Vec<SseHeader>) -> (r: Self)
        ensures
            r == self.with_headers(headers),
    {
        SseRequestBuilder { headers, ..self }
    }

    /// The builder with this setting.
    pub open spec fn with_route(self, route: Route) -> Self {
        SseRequestBuilder { route: Some(route), ..self }
    }

    /// Overrides the client's route for every connection attempt.
    pub fn route(self, route: Route) -> (r: Self)
        ensures
            r == self.with_route(route),
    {
        SseRequestBuilder { route: Some(route), ..self }
    }

    /// The builder with this setting.
    pub open spec fn with_request_timeouts(self, timeouts: RequestTimeouts) -> Self {
        SseRequestBuilder { timeouts: Some(timeouts), ..self }
    }

    /// Replaces the client's request timeout policy for every connection
    /// attempt.
    pub fn request_timeouts(self, timeouts: RequestTimeouts) -> (r: Self)
        ensures
            r == self.with_request_timeouts(timeouts),
    {
        SseRequestBuilder { timeouts: Some(timeouts), ..self }
    }

    /// The builder with this setting.
    pub open spec fn with_limits(self, limits: SseLimits) -> Self {
        SseRequestBuilder { limits, ..self }
    }

    /// Sets the event-stream decoding bounds.
    pub fn limits(self, limits: SseLimits) -> (r: Self)
        ensures
            r == self.with_limits(limits),
    {
        SseRequestBuilder { limits, ..self }
    }

    /// The builder with this setting.
    pub open spec fn with_idle_timeout(self, timeout: Duration) -> Self {
        SseRequestBuilder { idle_timeout: Some(timeout), ..self }
    }

    /// Sets the maximum interval without an HTTP DATA frame.
    pub fn idle_timeout(self, timeout: Duration) -> (r: Self)
        ensures
            r == self.with_idle_timeout(timeout),
    {
        SseRequestBuilder { idle_timeout: Some(timeout), ..self }
    }

    /// The builder with this setting.
    pub open spec fn with_initial_retry(self, delay: Duration) -> Self {
        SseRequestBuilder { initial_retry: delay, ..self }
    }

    /// Sets the delay used until the server supplies a valid `retry` field.
    pub fn initial_retry(self, delay: Duration) -> (r: Self)
        ensures
            r == self.with_initial_retry(delay),
    {
        SseRequestBuilder { initial_retry: delay, ..self }
    }

    /// The builder with this setting.
    pub open spec fn with_minimum_retry(self, delay: Duration) -> Self {
        SseRequestBuilder { minimum_retry: Some(delay), ..self }
    }

    /// Sets the shortest delay before a reconnect.
    pub fn minimum_retry(self, delay: Duration) -> (r: Self)
        ensures
            r == self.with_minimum_retry(delay),
    {
        SseRequestBuilder { minimum_retry: Some(delay), ..self }
    }

    /// The builder with this setting.
    pub open spec fn with_max_reconnects(self, maximum: usize) -> Self {
        SseRequestBuilder { max_reconnects: maximum, ..self }
    }

    /// Sets the finite number of requests allowed after the initial attempt.
    pub fn max_reconnects(self, maximum: usize) -> (r: Self)
        ensures
            r == self.with_max_reconnects(maximum),
    {
        SseRequestBuilder { max_reconnects: maximum, ..self }
    }

    /// Checks the builder before any I/O.
    pub fn validate(&self, now: Instant) -> (r: Result<(), SseError>)
        ensures
            outcome(r) == builder_refusal(*self, now),
    {
        match validate_template(&self.headers, self.protocol) {
            Ok(_) => {},
            Err(error) => {
                return Err(error);
            },
        }
        if self.max_reconnects > 0 && now.checked_add(
            effective_retry(self.initial_retry, self.minimum_retry),
        ).is_none() {
            return Err(SseError::invalid_reconnect_delay());
        }
        match self.idle_timeout {
            Some(timeout) => if now.checked_add(timeout).is_none() {
                return Err(SseError::invalid_idle_timeout());
            },
            None => {},
        }
        Ok(())
    }
}

/// What follows a failed initial attempt.
pub enum AfterFailure {
    /// Tries again at this time.
    Retry(Instant),
    Fail(SseErrorView),
}

/// What follows the failure of an initial attempt at `now`, after
/// `reconnects` earlier retries.
pub open spec fn after_failure(
    builder: SseRequestBuilder,
    error: RequestError,
    reconnects: usize,
    now: Instant,
) -> AfterFailure {
    let delay = retry_after(builder.initial_retry, builder.minimum_retry);
    if !reconnectable(error.kind) {
        AfterFailure::Fail(request_failure(error))
    } else if reconnects < builder.max_reconnects {
        if now.reaches(delay) {
            AfterFailure::Retry(now.after(delay))
        } else {
            AfterFailure::Fail(delay_range_failure())
        }
    } else if reconnects == 0 {
        AfterFailure::Fail(request_failure(error))
    } else {
        AfterFailure::Fail(limit_failure(Some(error)))
    }
}

impl SseRequestBuilder {
    /// Returns when to try again after a failed initial attempt, or why not.
    pub fn retry_at(&self, error: RequestError, reconnects: usize, now: Instant) -> (r: Result<
        Instant,
        SseError,
    >)
        ensures
            (match r {
                Ok(at) => AfterFailure::Retry(at),
                Err(error) => AfterFailure::Fail(error@),
            }) == after_failure(*self, error, reconnects, now),
    {
        if !is_reconnectable(&error) {
            return Err(SseError::request(error));
        }
        if reconnects < self.max_reconnects {
            return match now.checked_add(
                effective_retry(self.initial_retry, self.minimum_retry),
            ) {
                Some(at) => Ok(at),
                None => Err(SseError::invalid_reconnect_delay()),
            };
        }
        if reconnects == 0 {
            Err(SseError::request(error))
        } else {
            Err(SseError::reconnect_limit(Some(error)))
        }
    }
}

} // verus!
