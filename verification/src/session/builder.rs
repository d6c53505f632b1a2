//! Building an isolated client over an existing transport.

use vstd::prelude::*;
use crate::alt_svc::policy::AltSvcPolicy;
use crate::cookies::jar::CookieJar;
use crate::cookies::model::JarView;
use crate::cookies::types::CookieLimits;
use crate::error::{BuildError, BuildErrorKind};
use crate::policy::{RedirectPolicy, RetryPolicy};
use crate::session::client::Client;
use crate::session::options::{ClientOptions, Transport};
use crate::time::{Duration, Instant};
use crate::timeout::RequestTimeouts;

verus! {

/// Builds an isolated client from existing transport configuration.
///
/// The client shares the parent's transport. Pools, cookies, Alt-Svc and
/// client-hint state start empty. Every option that is not transport is a
/// method here with the same default, except
/// [`SessionBuilder::http3_early_data`]: without it, the session keeps the
/// parent's choice.
pub struct SessionBuilder {
    pub transport: Transport,
    pub options: ClientOptions,
}

impl SessionBuilder {
    /// A session over a client's transport, with no options set.
    pub fn new(client: &Client) -> (r: Self)
        ensures
            r == (SessionBuilder {
                transport: client.transport,
                options: ClientOptions::defaults(),
            }),
            r.options.wf(),
    {
        SessionBuilder { transport: client.transport, options: ClientOptions::default() }
    }

    /// The builder with this option.
    pub open spec fn with_redirect_policy(self, policy: RedirectPolicy) -> Self {
        SessionBuilder {
            options: ClientOptions { redirect_policy: policy, ..self.options },
            ..self
        }
    }

    /// Sets the finite policy for following redirect responses.
    ///
    /// The default returns a 3xx response without following it.
    pub fn redirect_policy(self, policy: RedirectPolicy) -> (r: Self)
        ensures
            r == self.with_redirect_policy(policy),
            self.options.wf() ==> r.options.wf(),
    {
        let options = ClientOptions { redirect_policy: policy, ..self.options };
        SessionBuilder { transport: self.transport, options }
    }

    /// The builder with this option.
    pub open spec fn with_retry_policy(self, policy: RetryPolicy) -> Self {
        SessionBuilder {
            options: ClientOptions { retry_policy: policy, ..self.options },
            ..self
        }
    }

    /// Sets the policy for retrying connection-establishment failures. The
    /// default retries nothing. A delay or `Retry-After` limit that the clock
    /// cannot represent fails [`Self::build`].
    pub fn retry_policy(self, policy: RetryPolicy) -> (r: Self)
        ensures
            r == self.with_retry_policy(policy),
            self.options.wf() ==> r.options.wf(),
    {
        let options = ClientOptions { retry_policy: policy, ..self.options };
        SessionBuilder { transport: self.transport, options }
    }

    /// The builder with this option.
    pub open spec fn with_request_timeouts(self, timeouts: RequestTimeouts) -> Self {
        SessionBuilder {
            options: ClientOptions { request_timeouts: timeouts, ..self.options },
            ..self
        }
    }

    /// Sets the default phase and whole-operation limits for ordinary requests.
    /// The default sets no limit. A duration that the clock cannot represent
    /// fails [`Self::build`].
    pub fn request_timeouts(self, timeouts: RequestTimeouts) -> (r: Self)
        ensures
            r == self.with_request_timeouts(timeouts),
            self.options.wf() ==> r.options.wf(),
    {
        let options = ClientOptions { request_timeouts: timeouts, ..self.options };
        SessionBuilder { transport: self.transport, options }
    }

    /// The builder with this option.
    pub open spec fn with_max_retained_http1_connections(self, maximum: usize) -> Self {
        SessionBuilder {
            options: ClientOptions { max_retained_http1_connections: maximum, ..self.options },
            ..self
        }
    }

    /// Sets the maximum number of HTTP/1.1 pool entries retained for reuse. The
    /// default is 32. The negotiated pool uses the lower of the HTTP/1.1 and
    /// HTTP/2 limits so neither maximum is exceeded.
    pub fn max_retained_http1_connections(self, maximum: usize) -> (r: Self)
        requires
            maximum > 0,
        ensures
            r == self.with_max_retained_http1_connections(maximum),
            self.options.wf() ==> r.options.wf(),
    {
        let options = ClientOptions { max_retained_http1_connections: maximum, ..self.options };
        SessionBuilder { transport: self.transport, options }
    }

    /// The builder with this option.
    pub open spec fn with_max_concurrent_http1_requests_per_origin(self, maximum: usize) -> Self {
        SessionBuilder {
            options: ClientOptions { max_concurrent_http1_requests_per_origin: Some(maximum), ..self.options },
            ..self
        }
    }

    /// Sets the local active-request bound for each HTTP/1.1 pool key, which is
    /// also the most connections open at once to the key. It replaces the
    /// profile's bound.
    pub fn max_concurrent_http1_requests_per_origin(self, maximum: usize) -> (r: Self)
        requires
            maximum > 0,
        ensures
            r == self.with_max_concurrent_http1_requests_per_origin(maximum),
            self.options.wf() ==> r.options.wf(),
    {
        let options = ClientOptions { max_concurrent_http1_requests_per_origin: Some(maximum), ..self.options };
        SessionBuilder { transport: self.transport, options }
    }

    /// The builder with this option.
    pub open spec fn with_max_pending_http1_requests_per_origin(self, maximum: usize) -> Self {
        SessionBuilder {
            options: ClientOptions { max_pending_http1_requests_per_origin: maximum, ..self.options },
            ..self
        }
    }

    /// Sets the number of requests allowed to wait per HTTP/1.1 pool key. The
    /// default is 100.
    pub fn max_pending_http1_requests_per_origin(self, maximum: usize) -> (r: Self)
        requires
            maximum > 0,
        ensures
            r == self.with_max_pending_http1_requests_per_origin(maximum),
            self.options.wf() ==> r.options.wf(),
    {
        let options = ClientOptions { max_pending_http1_requests_per_origin: maximum, ..self.options };
        SessionBuilder { transport: self.transport, options }
    }

    /// The builder with this option.
    pub open spec fn with_max_retained_http2_connections(self, maximum: usize) -> Self {
        SessionBuilder {
            options: ClientOptions { max_retained_http2_connections: maximum, ..self.options },
            ..self
        }
    }

    /// Sets the maximum number of HTTP/2 pool entries retained for reuse. The
    /// default is 32.
    pub fn max_retained_http2_connections(self, maximum: usize) -> (r: Self)
        requires
            maximum > 0,
        ensures
            r == self.with_max_retained_http2_connections(maximum),
            self.options.wf() ==> r.options.wf(),
    {
        let options = ClientOptions { max_retained_http2_connections: maximum, ..self.options };
        SessionBuilder { transport: self.transport, options }
    }

    /// The builder with this option.
    pub open spec fn with_max_concurrent_http2_requests_per_origin(self, maximum: usize) -> Self {
        SessionBuilder {
            options: ClientOptions { max_concurrent_http2_requests_per_origin: maximum, ..self.options },
            ..self
        }
    }

    /// Sets the local active-request bound for each HTTP/2 pool key. The default
    /// is 100. The bound covers all of a pool key's connections.
    pub fn max_concurrent_http2_requests_per_origin(self, maximum: usize) -> (r: Self)
        requires
            maximum > 0,
        ensures
            r == self.with_max_concurrent_http2_requests_per_origin(maximum),
            self.options.wf() ==> r.options.wf(),
    {
        let options = ClientOptions { max_concurrent_http2_requests_per_origin: maximum, ..self.options };
        SessionBuilder { transport: self.transport, options }
    }

    /// The builder with this option.
    pub open spec fn with_max_pending_http2_requests_per_origin(self, maximum: usize) -> Self {
        SessionBuilder {
            options: ClientOptions { max_pending_http2_requests_per_origin: maximum, ..self.options },
            ..self
        }
    }

    /// Sets the number of requests allowed to wait per HTTP/2 pool key. The
    /// default is 100.
    pub fn max_pending_http2_requests_per_origin(self, maximum: usize) -> (r: Self)
        requires
            maximum > 0,
        ensures
            r == self.with_max_pending_http2_requests_per_origin(maximum),
            self.options.wf() ==> r.options.wf(),
    {
        let options = ClientOptions { max_pending_http2_requests_per_origin: maximum, ..self.options };
        SessionBuilder { transport: self.transport, options }
    }

    /// The builder with this option.
    pub open spec fn with_max_http2_connections_per_origin(self, maximum: usize) -> Self {
        SessionBuilder {
            options: ClientOptions { max_http2_connections_per_origin: maximum, ..self.options },
            ..self
        }
    }

    /// Lets each HTTP/2 pool key open up to `maximum` connections. The default
    /// is 1, as browsers keep one HTTP/2 connection per origin.
    pub fn max_http2_connections_per_origin(self, maximum: usize) -> (r: Self)
        requires
            maximum > 0,
        ensures
            r == self.with_max_http2_connections_per_origin(maximum),
            self.options.wf() ==> r.options.wf(),
    {
        let options = ClientOptions { max_http2_connections_per_origin: maximum, ..self.options };
        SessionBuilder { transport: self.transport, options }
    }

    /// The builder with this option.
    pub open spec fn with_negotiated_setup_wait_limit(self, limit: Duration) -> Self {
        SessionBuilder {
            options: ClientOptions { negotiated_setup_wait_limit: Some(limit), ..self.options },
            ..self
        }
    }

    /// Bounds how long a negotiated request waits for another request's TLS
    /// handshake to an origin that selected HTTP/2 before. By default the
    /// request waits until that handshake finishes. A limit that the clock
    /// cannot represent fails [`Self::build`].
    pub fn negotiated_setup_wait_limit(self, limit: Duration) -> (r: Self)
        ensures
            r == self.with_negotiated_setup_wait_limit(limit),
            self.options.wf() ==> r.options.wf(),
    {
        let options = ClientOptions { negotiated_setup_wait_limit: Some(limit), ..self.options };
        SessionBuilder { transport: self.transport, options }
    }

    /// The builder with this option.
    pub open spec fn with_max_retained_http3_connections(self, maximum: usize) -> Self {
        SessionBuilder {
            options: ClientOptions { max_retained_http3_connections: maximum, ..self.options },
            ..self
        }
    }

    /// Sets the maximum number of HTTP/3 pool entries retained for reuse. The
    /// default is 32. One entry keeps connections for up to four transport
    /// locations.
    pub fn max_retained_http3_connections(self, maximum: usize) -> (r: Self)
        requires
            maximum > 0,
        ensures
            r == self.with_max_retained_http3_connections(maximum),
            self.options.wf() ==> r.options.wf(),
    {
        let options = ClientOptions { max_retained_http3_connections: maximum, ..self.options };
        SessionBuilder { transport: self.transport, options }
    }

    /// The builder with this option.
    pub open spec fn with_max_concurrent_http3_requests_per_origin(self, maximum: usize) -> Self {
        SessionBuilder {
            options: ClientOptions { max_concurrent_http3_requests_per_origin: maximum, ..self.options },
            ..self
        }
    }

    /// Sets the local active-request bound for each HTTP/3 pool key. The default
    /// is 100.
    pub fn max_concurrent_http3_requests_per_origin(self, maximum: usize) -> (r: Self)
        requires
            maximum > 0,
        ensures
            r == self.with_max_concurrent_http3_requests_per_origin(maximum),
            self.options.wf() ==> r.options.wf(),
    {
        let options = ClientOptions { max_concurrent_http3_requests_per_origin: maximum, ..self.options };
        SessionBuilder { transport: self.transport, options }
    }

    /// The builder with this option.
    pub open spec fn with_max_pending_http3_requests_per_origin(self, maximum: usize) -> Self {
        SessionBuilder {
            options: ClientOptions { max_pending_http3_requests_per_origin: maximum, ..self.options },
            ..self
        }
    }

    /// Sets the number of requests allowed to wait per HTTP/3 pool key. The
    /// default is 100.
    pub fn max_pending_http3_requests_per_origin(self, maximum: usize) -> (r: Self)
        requires
            maximum > 0,
        ensures
            r == self.with_max_pending_http3_requests_per_origin(maximum),
            self.options.wf() ==> r.options.wf(),
    {
        let options = ClientOptions { max_pending_http3_requests_per_origin: maximum, ..self.options };
        SessionBuilder { transport: self.transport, options }
    }

    /// The builder with this option.
    pub open spec fn with_max_client_hint_origins(self, maximum: usize) -> Self {
        SessionBuilder {
            options: ClientOptions { max_client_hint_origins: maximum, ..self.options },
            ..self
        }
    }

    /// Sets the number of origins that may retain `Accept-CH` state. The default
    /// is 64.
    pub fn max_client_hint_origins(self, maximum: usize) -> (r: Self)
        requires
            maximum > 0,
        ensures
            r == self.with_max_client_hint_origins(maximum),
            self.options.wf() ==> r.options.wf(),
    {
        let options = ClientOptions { max_client_hint_origins: maximum, ..self.options };
        SessionBuilder { transport: self.transport, options }
    }

    /// The builder with this option.
    pub open spec fn with_alt_svc(self, maximum_origins: usize) -> Self {
        SessionBuilder {
            options: ClientOptions { max_alt_svc_origins: Some(maximum_origins), ..self.options },
            ..self
        }
    }

    /// Enables bounded, in-memory Alt-Svc learning for negotiated HTTPS requests.
    /// It is disabled by default. `maximum_origins` bounds stored
    /// origin-and-route pairs.
    pub fn alt_svc(self, maximum_origins: usize) -> (r: Self)
        requires
            maximum_origins > 0,
        ensures
            r == self.with_alt_svc(maximum_origins),
            self.options.wf() ==> r.options.wf(),
    {
        let options = ClientOptions { max_alt_svc_origins: Some(maximum_origins), ..self.options };
        SessionBuilder { transport: self.transport, options }
    }

    /// The builder with this option.
    pub open spec fn with_alt_svc_policy(self, policy: AltSvcPolicy) -> Self {
        SessionBuilder {
            options: ClientOptions { alt_svc_policy: policy, ..self.options },
            ..self
        }
    }

    /// Selects how negotiated requests use a learned HTTP/3 alternative. The
    /// default uses the alternative alone. A racing policy requires
    /// [`Self::alt_svc`].
    pub fn alt_svc_policy(self, policy: AltSvcPolicy) -> (r: Self)
        ensures
            r == self.with_alt_svc_policy(policy),
            self.options.wf() ==> r.options.wf(),
    {
        let options = ClientOptions { alt_svc_policy: policy, ..self.options };
        SessionBuilder { transport: self.transport, options }
    }

    /// The builder with this option.
    pub open spec fn with_http3_early_data(self, enabled: bool) -> Self {
        SessionBuilder {
            options: ClientOptions { http3_early_data: Some(enabled), ..self.options },
            ..self
        }
    }

    /// Sets whether a resumed HTTP/3 connection offers early data, overriding
    /// the profile. Early data is replayable.
    pub fn http3_early_data(self, enabled: bool) -> (r: Self)
        ensures
            r == self.with_http3_early_data(enabled),
            self.options.wf() ==> r.options.wf(),
    {
        let options = ClientOptions { http3_early_data: Some(enabled), ..self.options };
        SessionBuilder { transport: self.transport, options }
    }

    /// The builder with this option.
    pub open spec fn with_https_record_discovery(self) -> Self {
        SessionBuilder {
            options: ClientOptions { https_record_discovery: true, ..self.options },
            ..self
        }
    }

    /// Lets HTTPS DNS records advertise HTTP/3 for negotiated requests, as a
    /// learned Alt-Svc advertisement does. Off by default; it requires
    /// [`Self::alt_svc`].
    pub fn https_record_discovery(self) -> (r: Self)
        ensures
            r == self.with_https_record_discovery(),
            self.options.wf() ==> r.options.wf(),
    {
        let options = ClientOptions { https_record_discovery: true, ..self.options };
        SessionBuilder { transport: self.transport, options }
    }

    /// Enables a bounded in-memory cookie jar owned by the client, with the
    /// default limits. By default the client has no cookie jar.
    pub fn cookies(self) -> (r: Self)
        ensures
            r == (SessionBuilder {
                options: ClientOptions { cookie_jar: r.options.cookie_jar, ..self.options },
                ..self
            }),
            r.options.cookie_jar matches Some(jar) && jar.wf() && jar.limits == (CookieLimits {
                max_cookie_bytes: 4096,
                max_cookies_per_domain: 180,
                max_cookies: 3300,
            }) && jar@ == (JarView { records: Seq::empty(), next_sequence: 0, next_access: 0 }),
            self.options.wf() ==> r.options.wf(),
    {
        let options = ClientOptions { cookie_jar: Some(CookieJar::default()), ..self.options };
        SessionBuilder { transport: self.transport, options }
    }

    /// The builder with this option.
    pub open spec fn with_cookie_jar(self, jar: CookieJar) -> Self {
        SessionBuilder {
            options: ClientOptions { cookie_jar: Some(jar), ..self.options },
            ..self
        }
    }

    /// Enables cookie handling with a caller-created jar.
    pub fn cookie_jar(self, jar: CookieJar) -> (r: Self)
        ensures
            r == self.with_cookie_jar(jar),
            self.options.wf() && jar.wf() ==> r.options.wf(),
    {
        let options = ClientOptions { cookie_jar: Some(jar), ..self.options };
        SessionBuilder { transport: self.transport, options }
    }

    /// Builds the isolated client, or says why an option is invalid or needs
    /// a protocol the transport lacks.
    pub fn build(self, now: Instant) -> (r: Result<Client, BuildError>)
        requires
            self.options.wf(),
            self.transport.http1_connections_per_origin > 0,
        ensures
            match self.options.fault(self.transport, now) {
                Some(fault) => r matches Err(error) && error.kind == BuildErrorKind::InvalidPolicy
                    && error.message@ == fault,
                None => r matches Ok(client) && client.wf() && client.built_from(
                    self.options,
                    self.transport,
                ),
            },
    {
        match self.options.validate(self.transport, now) {
            Err(error) => Err(error),
            Ok(_) => Ok(self.options.into_client(self.transport)),
        }
    }
}

} // verus!
