//! The cookie jar.

use vstd::prelude::*;
use crate::cookies::laws::{
    purging_keeps_within_the_limits, sending_keeps_within_the_limits,
    storing_keeps_within_the_limits,
};
use crate::cookies::model::{refusal_of, within, JarView};
use crate::cookies::rules::{cookie_url, parse_cookie_url};
use crate::cookies::state::JarState;
use crate::cookies::types::{CookieError, CookieLimits};
use crate::endpoint::{headers_view, RequestHeader};
use crate::host::{text_view, url_parts, Url};
use crate::text::{same_text, visible_text};
use crate::time::SystemTime;

verus! {

/// A bounded in-memory cookie jar.
///
/// Every request is treated as a user-initiated top-level navigation to its
/// URL, as if typed into a browser's address bar. That context is same-site
/// for `SameSite` purposes and is its own top-level site for `Partitioned`
/// cookies, so matching cookies of every kind are sent.
///
/// When a new cookie takes a registrable domain or the whole jar past its
/// limit, the least recently used cookies are evicted, those that are not
/// `Secure` first.
pub struct CookieJar {
    pub limits: CookieLimits,
    pub state: JarState,
}

impl CookieJar {
    /// The cookies and counters of the jar.
    pub open spec fn view(&self) -> JarView {
        self.state@
    }

    /// The state is consistent and within the limits, and no limit is zero.
    pub open spec fn wf(&self) -> bool {
        &&& self.limits.wf()
        &&& self.state.wf()
        &&& within(self@.records, self.limits)
    }

    /// Creates an empty jar with caller-supplied bounds.
    pub fn with_limits(limits: CookieLimits) -> (r: Self)
        requires
            limits.wf(),
        ensures
            r.wf(),
            r.limits == limits,
            r@ == (JarView { records: Seq::empty(), next_sequence: 0, next_access: 0 }),
    {
        let jar = CookieJar { limits, state: JarState::new() };
        assert(within(jar@.records, limits));
        jar
    }

    /// Applies one `Set-Cookie` field as if received from `url`.
    pub fn set_cookie(&mut self, url: &str, set_cookie: &str, now: SystemTime) -> (r: Result<
        (),
        CookieError,
    >)
        requires
            old(self).wf(),
        ensures
            final(self).wf(),
            final(self).limits == old(self).limits,
            match cookie_url(url@) {
                Err(error) => refusal_of(r) == Some(error) && final(self)@ == old(self)@,
                Ok(url) => {
                    &&& refusal_of(r) == old(self)@.field_refusal(
                        set_cookie@,
                        url,
                        old(self).limits,
                        now,
                    )
                    &&& final(self)@ == old(self)@.with_field(
                        set_cookie@,
                        url,
                        old(self).limits,
                        now,
                    )
                },
            },
    {
        let url = match parse_cookie_url(url) {
            Ok(url) => url,
            Err(error) => {
                return Err(error);
            },
        };
        proof {
            self.state.lemma_wf();
            storing_keeps_within_the_limits(self@, set_cookie@, url@, self.limits, now);
        }
        self.state.store(set_cookie, &url, self.limits, now)
    }

    /// Returns the exact request `Cookie` field value for `url`.
    ///
    /// Inspecting the jar does not count as a use: unlike a request that
    /// sends the cookies, this call leaves the eviction order unchanged.
    pub fn request_value(&mut self, url: &str, now: SystemTime) -> (r: Result<
        Option<String>,
        CookieError,
    >)
        requires
            old(self).wf(),
        ensures
            final(self).wf(),
            final(self).limits == old(self).limits,
            match cookie_url(url@) {
                Err(error) => {
                    &&& r matches Err(refusal) && refusal@ == error
                    &&& final(self)@ == old(self)@
                },
                Ok(url) => {
                    &&& r matches Ok(value) && text_view(value) == old(self)@.purged(
                        now,
                    ).field_value(url)
                    &&& final(self)@ == old(self)@.purged(now)
                },
            },
    {
        let url = match parse_cookie_url(url) {
            Ok(url) => url,
            Err(error) => {
                return Err(error);
            },
        };
        proof {
            purging_keeps_within_the_limits(self@, self.limits, now);
        }
        match self.state.matching_value(&url, now) {
            Some(found) => Ok(Some(found.0)),
            None => Ok(None),
        }
    }

    /// Removes every cookie from the jar.
    pub fn clear(&mut self)
        requires
            old(self).wf(),
        ensures
            final(self).wf(),
            final(self).limits == old(self).limits,
            final(self)@ == (JarView { records: Seq::empty(), ..old(self)@ }),
    {
        self.state.clear();
        assert(within(self@.records, self.limits));
    }

    /// Returns the number of cookies that have not expired at `now`.
    pub fn len(&mut self, now: SystemTime) -> (r: usize)
        requires
            old(self).wf(),
        ensures
            final(self).wf(),
            final(self).limits == old(self).limits,
            final(self)@ == old(self)@.purged(now),
            r == old(self)@.purged(now).records.len(),
    {
        proof {
            purging_keeps_within_the_limits(self@, self.limits, now);
        }
        self.state.purge_expired(now);
        self.state.len()
    }

    /// Returns whether the jar contains no cookie that has not expired at
    /// `now`.
    pub fn is_empty(&mut self, now: SystemTime) -> (r: bool)
        requires
            old(self).wf(),
        ensures
            final(self).wf(),
            final(self).limits == old(self).limits,
            final(self)@ == old(self)@.purged(now),
            r == (old(self)@.purged(now).records.len() == 0),
    {
        self.len(now) == 0
    }

    /// Returns the `Cookie` field value for a request about to be sent to
    /// `url` and records the sent cookies as used.
    pub fn request_value_for_url(&mut self, url: &Url, now: SystemTime) -> (r: Option<String>)
        requires
            old(self).wf(),
        ensures
            final(self).wf(),
            final(self).limits == old(self).limits,
            text_view(r) == old(self)@.purged(now).field_value(url@),
            final(self)@ == old(self)@.sent_to(url@, now),
    {
        proof {
            sending_keeps_within_the_limits(self@, url@, self.limits, now);
        }
        self.state.send_value(url, now)
    }

    /// Applies the `Set-Cookie` fields of a response from `url`. Fields that
    /// are not text and cookies that are refused are ignored.
    pub fn store_response_headers(
        &mut self,
        url: &Url,
        headers: &Vec<RequestHeader>,
        now: SystemTime,
    )
        requires
            old(self).wf(),
            url.wf(),
            url@.scheme == "http"@ || url@.scheme == "https"@,
        ensures
            final(self).wf(),
            final(self).limits == old(self).limits,
            final(self)@ == old(self)@.with_headers(
                headers_view(headers@),
                url@,
                old(self).limits,
                now,
            ),
    {
        let ghost fields = headers_view(headers@);
        let mut i: usize = 0;
        assert(fields.take(0) =~= Seq::empty());
        while i < headers.len()
            invariant
                i <= headers.len(),
                fields == headers_view(headers@),
                self.wf(),
                url.wf(),
                url@.scheme == "http"@ || url@.scheme == "https"@,
                self.limits == old(self).limits,
                self@ == old(self)@.with_headers(
                    fields.take(i as int),
                    url@,
                    old(self).limits,
                    now,
                ),
            decreases headers.len() - i,
        {
            assert(fields.take(i + 1).drop_last() =~= fields.take(i as int));
            assert(fields.take(i + 1).last() == headers[i as int]@);
            if same_text(headers[i].name.as_str(), "set-cookie") {
                match visible_text(headers[i].value.as_slice()) {
                    Some(field) => {
                        proof {
                            self.state.lemma_wf();
                            storing_keeps_within_the_limits(
                                self@,
                                field@,
                                url@,
                                self.limits,
                                now,
                            );
                        }
                        let _ = self.state.store(field.as_str(), url, self.limits, now);
                    },
                    None => {},
                }
            }
            i += 1;
        }
        assert(fields.take(i as int) =~= fields);
    }
}

impl CookieJar {
    /// Applies the `Set-Cookie` fields of a response from the URL in `url`.
    /// Returns whether the text is a URL of a scheme that cookies go with;
    /// otherwise nothing changes.
    pub fn store_response(&mut self, url: &str, headers: &Vec<RequestHeader>, now: SystemTime) -> (r:
        bool)
        requires
            old(self).wf(),
        ensures
            final(self).wf(),
            final(self).limits == old(self).limits,
            match url_parts(url@) {
                Some(parts) => if parts.scheme == "http"@ || parts.scheme == "https"@ {
                    r && final(self)@ == old(self)@.with_headers(
                        headers_view(headers@),
                        parts,
                        old(self).limits,
                        now,
                    )
                } else {
                    !r && final(self)@ == old(self)@
                },
                None => !r && final(self)@ == old(self)@,
            },
    {
        match Url::parse(url) {
            Some(url) => {
                if same_text(url.scheme.as_str(), "http") || same_text(
                    url.scheme.as_str(),
                    "https",
                ) {
                    self.store_response_headers(&url, headers, now);
                    true
                } else {
                    false
                }
            },
            None => false,
        }
    }
}

impl Default for CookieJar {
    fn default() -> (r: Self)
        ensures
            r.wf(),
            r.limits == CookieLimits::standard(),
            r@ == (JarView { records: Seq::empty(), next_sequence: 0, next_access: 0 }),
    {
        CookieJar::with_limits(CookieLimits::default())
    }
}

} // verus!
