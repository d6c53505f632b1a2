//! The options of a client that are not transport.

use vstd::prelude::*;
use crate::alt_svc::policy::AltSvcPolicy;
use crate::cookies::jar::CookieJar;
use crate::error::{BuildError, BuildErrorKind};
use crate::policy::{RedirectPolicy, RetryPolicy};
use crate::time::{Duration, Instant};
use crate::timeout::{representable, RequestTimeouts};

verus! {

pub const DEFAULT_MAX_RETAINED_HTTP1_CONNECTIONS: usize = 32;

pub const DEFAULT_MAX_RETAINED_HTTP2_CONNECTIONS: usize = 32;

pub const DEFAULT_MAX_RETAINED_HTTP3_CONNECTIONS: usize = 32;

pub const DEFAULT_MAX_PENDING_HTTP1_REQUESTS_PER_ORIGIN: usize = 100;

pub const DEFAULT_MAX_CONCURRENT_HTTP2_REQUESTS_PER_ORIGIN: usize = 100;

pub const DEFAULT_MAX_PENDING_HTTP2_REQUESTS_PER_ORIGIN: usize = 100;

pub const DEFAULT_MAX_CONCURRENT_HTTP3_REQUESTS_PER_ORIGIN: usize = 100;

pub const DEFAULT_MAX_PENDING_HTTP3_REQUESTS_PER_ORIGIN: usize = 100;

pub const DEFAULT_MAX_CLIENT_HINT_ORIGINS: usize = 64;

/// The options of a client that are not transport. Every bound is positive.
pub struct ClientOptions {
    pub redirect_policy: RedirectPolicy,
    pub retry_policy: RetryPolicy,
    pub request_timeouts: RequestTimeouts,
    pub max_retained_http1_connections: usize,
    /// Replaces the profile's HTTP/1.1 connection bound when set.
    pub max_concurrent_http1_requests_per_origin: Option<usize>,
    pub max_pending_http1_requests_per_origin: usize,
    pub max_retained_http2_connections: usize,
    pub max_concurrent_http2_requests_per_origin: usize,
    pub max_pending_http2_requests_per_origin: usize,
    /// HTTP/2 connections per pool key, exact and negotiated; 1 as browsers.
    pub max_http2_connections_per_origin: usize,
    /// Longest wait for another request's handshake to a key that selected
    /// HTTP/2 before; `None` waits for it to finish, as Firefox does.
    pub negotiated_setup_wait_limit: Option<Duration>,
    pub max_retained_http3_connections: usize,
    pub max_concurrent_http3_requests_per_origin: usize,
    pub max_pending_http3_requests_per_origin: usize,
    pub max_client_hint_origins: usize,
    pub max_alt_svc_origins: Option<usize>,
    pub alt_svc_policy: AltSvcPolicy,
    /// The caller's HTTP/3 early-data choice; `None` keeps the profile's.
    pub http3_early_data: Option<bool>,
    /// Whether HTTPS DNS records advertise HTTP/3.
    pub https_record_discovery: bool,
    pub cookie_jar: Option<CookieJar>,
}

/// What the transport under a client offers.
#[derive(Clone, Copy, Debug, PartialEq, Eq, Structural)]
pub struct Transport {
    /// The profile negotiates HTTP/1.1 or HTTP/2.
    pub negotiated: bool,
    /// The profile has HTTP/3.
    pub http3: bool,
    /// The profile's HTTP/3 TLS settings enable session tickets.
    pub http3_session_tickets: bool,
    /// A resumed HTTP/3 connection offers early data.
    pub sends_early_data: bool,
    /// The profile's bound on HTTP/1.1 connections of one key.
    pub http1_connections_per_origin: usize,
    /// The profile has client hints.
    pub client_hints: bool,
    /// Resolved host addresses are kept.
    pub caches_addresses: bool,
}

/// One printed option.
#[derive(Clone, Copy, Debug)]
pub struct DebugField {
    pub name: &'static str,
    pub value: DebugValue,
}

/// The value of a printed option.
#[derive(Clone, Copy, Debug, PartialEq, Eq, Structural)]
pub enum DebugValue {
    Redirects(RedirectPolicy),
    Retries(RetryPolicy),
    Timeouts(RequestTimeouts),
    Bound(usize),
    OptionalBound(Option<usize>),
    Limit(Option<Duration>),
    AltSvc(AltSvcPolicy),
    Chosen(Option<bool>),
    Flag(bool),
}

/// A printed option as the contracts speak of it.
pub type FieldView = (Seq<char>, DebugValue);

/// What a list of printed options holds.
pub open spec fn fields_view(fields: Seq<DebugField>) -> Seq<FieldView> {
    fields.map_values(|field: DebugField| (field.name@, field.value))
}

/// Appends a printed option.
pub fn push_field(fields: &mut Vec<DebugField>, name: &'static str, value: DebugValue)
    ensures
        fields_view(final(fields)@) == fields_view(old(fields)@).push((name@, value)),
{
    fields.push(DebugField { name, value });
    assert(fields_view(fields@) =~= fields_view(old(fields)@).push((name@, value)));
}

impl ClientOptions {
    /// The options of a client without any set.
    pub open spec fn defaults() -> ClientOptions {
        ClientOptions {
            redirect_policy: RedirectPolicy { limit: None },
            retry_policy: RetryPolicy { connection_failures: None, retry_after_limit: None },
            request_timeouts: RequestTimeouts::disabled(),
            max_retained_http1_connections: 32,
            max_concurrent_http1_requests_per_origin: None,
            max_pending_http1_requests_per_origin: 100,
            max_retained_http2_connections: 32,
            max_concurrent_http2_requests_per_origin: 100,
            max_pending_http2_requests_per_origin: 100,
            max_http2_connections_per_origin: 1,
            negotiated_setup_wait_limit: None,
            max_retained_http3_connections: 32,
            max_concurrent_http3_requests_per_origin: 100,
            max_pending_http3_requests_per_origin: 100,
            max_client_hint_origins: 64,
            max_alt_svc_origins: None,
            alt_svc_policy: AltSvcPolicy { race: None },
            http3_early_data: None,
            https_record_discovery: false,
            cookie_jar: None,
        }
    }

    /// Every bound is positive, and a cookie jar is consistent.
    pub open spec fn wf(&self) -> bool {
        &&& self.max_retained_http1_connections > 0
        &&& self.max_concurrent_http1_requests_per_origin matches Some(bound) ==> bound > 0
        &&& self.max_pending_http1_requests_per_origin > 0
        &&& self.max_retained_http2_connections > 0
        &&& self.max_concurrent_http2_requests_per_origin > 0
        &&& self.max_pending_http2_requests_per_origin > 0
        &&& self.max_http2_connections_per_origin > 0
        &&& self.max_retained_http3_connections > 0
        &&& self.max_concurrent_http3_requests_per_origin > 0
        &&& self.max_pending_http3_requests_per_origin > 0
        &&& self.max_client_hint_origins > 0
        &&& self.max_alt_svc_origins matches Some(bound) ==> bound > 0
        &&& self.cookie_jar matches Some(jar) ==> jar.wf()
    }

    /// Why the policies cannot be used from `now`.
    pub open spec fn policy_fault(&self, now: Instant) -> Option<Seq<char>> {
        if !self.request_timeouts.valid(now) {
            Some("request timeout exceeds the runtime clock range"@)
        } else if !self.retry_policy.valid(now) {
            Some("retry delay or Retry-After limit exceeds the runtime clock range"@)
        } else {
            None
        }
    }

    /// Why the options cannot be used over a transport from `now`.
    pub open spec fn transport_fault(
        &self,
        negotiated: bool,
        http3: bool,
        http3_session_tickets: bool,
        now: Instant,
    ) -> Option<Seq<char>> {
        if self.http3_early_data == Some(true) && !(http3 && http3_session_tickets) {
            Some("HTTP/3 early data requires HTTP/3 TLS settings with session tickets"@)
        } else if self.max_alt_svc_origins is Some && !(negotiated && http3) {
            Some("Alt-Svc requires negotiated HTTP/1.1+HTTP/2 and HTTP/3 profiles"@)
        } else if self.alt_svc_policy.race is Some && self.max_alt_svc_origins is None {
            Some("Alt-Svc racing requires an Alt-Svc store"@)
        } else if self.https_record_discovery && self.max_alt_svc_origins is None {
            Some("HTTPS record discovery requires an Alt-Svc store"@)
        } else if !representable(self.negotiated_setup_wait_limit, now) {
            Some("negotiated setup wait limit exceeds the runtime clock range"@)
        } else if !self.alt_svc_policy.valid(now) {
            Some("Alt-Svc origin delay is not representable"@)
        } else {
            None
        }
    }

    /// Why the options cannot be used, if they cannot.
    pub open spec fn fault(&self, transport: Transport, now: Instant) -> Option<Seq<char>> {
        match self.policy_fault(now) {
            Some(fault) => Some(fault),
            None => self.transport_fault(
                transport.negotiated,
                transport.http3,
                transport.http3_session_tickets,
                now,
            ),
        }
    }

    /// Checks the options that do not depend on the transport.
    pub fn validate_policies(&self, now: Instant) -> (r: Result<(), BuildError>)
        ensures
            refused(r) == self.policy_fault(now),
    {
        if !self.request_timeouts.validate(now) {
            return Err(BuildError::invalid_policy("request timeout exceeds the runtime clock range"));
        }
        if !self.retry_policy.validate(now) {
            return Err(
                BuildError::invalid_policy(
                    "retry delay or Retry-After limit exceeds the runtime clock range",
                ),
            );
        }
        Ok(())
    }

    /// Checks the options that need a protocol or TLS feature of the
    /// transport.
    pub fn validate_transport(
        &self,
        negotiated: bool,
        http3: bool,
        http3_session_tickets: bool,
        now: Instant,
    ) -> (r: Result<(), BuildError>)
        ensures
            refused(r) == self.transport_fault(negotiated, http3, http3_session_tickets, now),
    {
        let early = match self.http3_early_data {
            Some(enabled) => enabled,
            None => false,
        };
        if early && !(http3 && http3_session_tickets) {
            return Err(
                BuildError::invalid_policy(
                    "HTTP/3 early data requires HTTP/3 TLS settings with session tickets",
                ),
            );
        }
        if self.max_alt_svc_origins.is_some() && !(negotiated && http3) {
            return Err(
                BuildError::invalid_policy(
                    "Alt-Svc requires negotiated HTTP/1.1+HTTP/2 and HTTP/3 profiles",
                ),
            );
        }
        if self.alt_svc_policy.race_settings().is_some() && self.max_alt_svc_origins.is_none() {
            return Err(BuildError::invalid_policy("Alt-Svc racing requires an Alt-Svc store"));
        }
        if self.https_record_discovery && self.max_alt_svc_origins.is_none() {
            return Err(BuildError::invalid_policy("HTTPS record discovery requires an Alt-Svc store"));
        }
        match self.negotiated_setup_wait_limit {
            Some(limit) => {
                if now.checked_add(limit).is_none() {
                    return Err(
                        BuildError::invalid_policy(
                            "negotiated setup wait limit exceeds the runtime clock range",
                        ),
                    );
                }
            },
            None => {},
        }
        self.alt_svc_policy.validate(now)
    }

    /// Checks every option against the transport a client or session uses.
    pub fn validate(&self, transport: Transport, now: Instant) -> (r: Result<(), BuildError>)
        ensures
            refused(r) == self.fault(transport, now),
    {
        match self.validate_policies(now) {
            Err(error) => {
                return Err(error);
            },
            Ok(_) => {},
        }
        self.validate_transport(
            transport.negotiated,
            transport.http3,
            transport.http3_session_tickets,
            now,
        )
    }

    /// Every option as it is printed. Of the cookies only whether there are
    /// any is shown.
    pub open spec fn printed(&self) -> Seq<FieldView> {
        seq![
            ("redirect_policy"@, DebugValue::Redirects(self.redirect_policy)),
            ("retry_policy"@, DebugValue::Retries(self.retry_policy)),
            ("request_timeouts"@, DebugValue::Timeouts(self.request_timeouts)),
            (
                "max_retained_http1_connections"@,
                DebugValue::Bound(self.max_retained_http1_connections),
            ),
            (
                "max_concurrent_http1_requests_per_origin"@,
                DebugValue::OptionalBound(self.max_concurrent_http1_requests_per_origin),
            ),
            (
                "max_pending_http1_requests_per_origin"@,
                DebugValue::Bound(self.max_pending_http1_requests_per_origin),
            ),
            (
                "max_retained_http2_connections"@,
                DebugValue::Bound(self.max_retained_http2_connections),
            ),
            (
                "max_concurrent_http2_requests_per_origin"@,
                DebugValue::Bound(self.max_concurrent_http2_requests_per_origin),
            ),
            (
                "max_pending_http2_requests_per_origin"@,
                DebugValue::Bound(self.max_pending_http2_requests_per_origin),
            ),
            (
                "max_http2_connections_per_origin"@,
                DebugValue::Bound(self.max_http2_connections_per_origin),
            ),
            (
                "negotiated_setup_wait_limit"@,
                DebugValue::Limit(self.negotiated_setup_wait_limit),
            ),
            (
                "max_retained_http3_connections"@,
                DebugValue::Bound(self.max_retained_http3_connections),
            ),
            (
                "max_concurrent_http3_requests_per_origin"@,
                DebugValue::Bound(self.max_concurrent_http3_requests_per_origin),
            ),
            (
                "max_pending_http3_requests_per_origin"@,
                DebugValue::Bound(self.max_pending_http3_requests_per_origin),
            ),
            ("max_client_hint_origins"@, DebugValue::Bound(self.max_client_hint_origins)),
            ("max_alt_svc_origins"@, DebugValue::OptionalBound(self.max_alt_svc_origins)),
            ("alt_svc_policy"@, DebugValue::AltSvc(self.alt_svc_policy)),
            ("http3_early_data"@, DebugValue::Chosen(self.http3_early_data)),
            ("https_record_discovery"@, DebugValue::Flag(self.https_record_discovery)),
            ("cookies_enabled"@, DebugValue::Flag(self.cookie_jar is Some)),
        ]
    }

    /// Returns every option as it is printed.
    pub fn debug_fields(&self) -> (r: Vec<DebugField>)
        ensures
            fields_view(r@) == self.printed(),
    {
        let mut fields: Vec<DebugField> = Vec::new();
        push_field(&mut fields, "redirect_policy", DebugValue::Redirects(self.redirect_policy));
        push_field(&mut fields, "retry_policy", DebugValue::Retries(self.retry_policy));
        push_field(&mut fields, "request_timeouts", DebugValue::Timeouts(self.request_timeouts));
        push_field(
            &mut fields,
            "max_retained_http1_connections",
            DebugValue::Bound(self.max_retained_http1_connections),
        );
        push_field(
            &mut fields,
            "max_concurrent_http1_requests_per_origin",
            DebugValue::OptionalBound(self.max_concurrent_http1_requests_per_origin),
        );
        push_field(
            &mut fields,
            "max_pending_http1_requests_per_origin",
            DebugValue::Bound(self.max_pending_http1_requests_per_origin),
        );
        push_field(
            &mut fields,
            "max_retained_http2_connections",
            DebugValue::Bound(self.max_retained_http2_connections),
        );
        push_field(
            &mut fields,
            "max_concurrent_http2_requests_per_origin",
            DebugValue::Bound(self.max_concurrent_http2_requests_per_origin),
        );
        push_field(
            &mut fields,
            "max_pending_http2_requests_per_origin",
            DebugValue::Bound(self.max_pending_http2_requests_per_origin),
        );
        push_field(
            &mut fields,
            "max_http2_connections_per_origin",
            DebugValue::Bound(self.max_http2_connections_per_origin),
        );
        push_field(
            &mut fields,
            "negotiated_setup_wait_limit",
            DebugValue::Limit(self.negotiated_setup_wait_limit),
        );
        push_field(
            &mut fields,
            "max_retained_http3_connections",
            DebugValue::Bound(self.max_retained_http3_connections),
        );
        push_field(
            &mut fields,
            "max_concurrent_http3_requests_per_origin",
            DebugValue::Bound(self.max_concurrent_http3_requests_per_origin),
        );
        push_field(
            &mut fields,
            "max_pending_http3_requests_per_origin",
            DebugValue::Bound(self.max_pending_http3_requests_per_origin),
        );
        push_field(
            &mut fields,
            "max_client_hint_origins",
            DebugValue::Bound(self.max_client_hint_origins),
        );
        push_field(
            &mut fields,
            "max_alt_svc_origins",
            DebugValue::OptionalBound(self.max_alt_svc_origins),
        );
        push_field(&mut fields, "alt_svc_policy", DebugValue::AltSvc(self.alt_svc_policy));
        push_field(&mut fields, "http3_early_data", DebugValue::Chosen(self.http3_early_data));
        push_field(
            &mut fields,
            "https_record_discovery",
            DebugValue::Flag(self.https_record_discovery),
        );
        push_field(&mut fields, "cookies_enabled", DebugValue::Flag(self.cookie_jar.is_some()));
        assert(fields_view(fields@) =~= self.printed());
        fields
    }
}

/// The reason of a refusal, with the only category there is.
pub open spec fn refused(r: Result<(), BuildError>) -> Option<Seq<char>> {
    match r {
        Ok(_) => None,
        Err(error) => if error.kind == BuildErrorKind::InvalidPolicy {
            Some(error.message@)
        } else {
            None
        },
    }
}

impl Default for ClientOptions {
    fn default() -> (r: Self)
        ensures
            r.wf(),
            r == ClientOptions::defaults(),
    {
        ClientOptions {
            redirect_policy: RedirectPolicy::none(),
            retry_policy: RetryPolicy::none(),
            request_timeouts: RequestTimeouts::new(),
            max_retained_http1_connections: DEFAULT_MAX_RETAINED_HTTP1_CONNECTIONS,
            max_concurrent_http1_requests_per_origin: None,
            max_pending_http1_requests_per_origin: DEFAULT_MAX_PENDING_HTTP1_REQUESTS_PER_ORIGIN,
            max_retained_http2_connections: DEFAULT_MAX_RETAINED_HTTP2_CONNECTIONS,
            max_concurrent_http2_requests_per_origin:
                DEFAULT_MAX_CONCURRENT_HTTP2_REQUESTS_PER_ORIGIN,
            max_pending_http2_requests_per_origin: DEFAULT_MAX_PENDING_HTTP2_REQUESTS_PER_ORIGIN,
            max_http2_connections_per_origin: 1,
            negotiated_setup_wait_limit: None,
            max_retained_http3_connections: DEFAULT_MAX_RETAINED_HTTP3_CONNECTIONS,
            max_concurrent_http3_requests_per_origin:
                DEFAULT_MAX_CONCURRENT_HTTP3_REQUESTS_PER_ORIGIN,
            max_pending_http3_requests_per_origin: DEFAULT_MAX_PENDING_HTTP3_REQUESTS_PER_ORIGIN,
            max_client_hint_origins: DEFAULT_MAX_CLIENT_HINT_ORIGINS,
            max_alt_svc_origins: None,
            alt_svc_policy: AltSvcPolicy::sequential(),
            http3_early_data: None,
            https_record_discovery: false,
            cookie_jar: None,
        }
    }
}

} // verus!
