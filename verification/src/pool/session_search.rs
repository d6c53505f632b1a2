//! Finding a pooled HTTP/2 session for a stream, without opening one.

use vstd::prelude::*;
use crate::endpoint::{Route, RouteView};
use crate::error::RequestError;

verus! {

/// A pool that is asked for a reusable HTTP/2 session.
#[derive(Clone, Copy, Debug, PartialEq, Eq, Structural)]
pub enum SessionQuery {
    Negotiated,
    Exact,
}

/// Where a search is.
///
/// A pool is asked without opening a connection, without creating an entry
/// and without changing the order of eviction. A session that it has is
/// looked for again after the stream was admitted, because it may have been
/// retired in between.
#[derive(Clone, Copy, Debug, PartialEq, Eq, Structural)]
pub enum SessionSearch {
    /// Looking for the reusable session of the pool's entry.
    Looking(SessionQuery),
    /// Waiting for the entry's HTTP/2 admission.
    Admission(SessionQuery),
    /// The session takes a stream, which holds the admission.
    Found(SessionQuery, u64),
    /// No pool has a session.
    Missing,
    /// The waiting bound is full.
    Failed(RequestError),
}

/// What happens to a search.
#[derive(Clone, Copy, Debug)]
pub enum SearchEvent {
    /// The session of the pool's entry, if there are both.
    Looked(Option<u64>),
    /// The end of the wait for admission, and the entry's session after it.
    Admitted(Result<Option<u64>, RequestError>),
}

/// The search once a pool has no session.
pub open spec fn next_pool(query: SessionQuery) -> SessionSearch {
    match query {
        SessionQuery::Negotiated => SessionSearch::Looking(SessionQuery::Exact),
        SessionQuery::Exact => SessionSearch::Missing,
    }
}

fn ask_next(query: SessionQuery) -> (r: SessionSearch)
    ensures
        r == next_pool(query),
{
    match query {
        SessionQuery::Negotiated => SessionSearch::Looking(SessionQuery::Exact),
        SessionQuery::Exact => SessionSearch::Missing,
    }
}

impl SessionSearch {
    /// The start of a search over a route. The negotiated pool is asked for
    /// the direct route only: reusing a negotiated session is browser
    /// behavior known for direct connections.
    pub open spec fn over(route: RouteView) -> SessionSearch {
        if route is Direct {
            SessionSearch::Looking(SessionQuery::Negotiated)
        } else {
            SessionSearch::Looking(SessionQuery::Exact)
        }
    }

    /// Whether an event can happen now.
    pub open spec fn expects(self, event: SearchEvent) -> bool {
        match event {
            SearchEvent::Looked(_) => self is Looking,
            SearchEvent::Admitted(_) => self is Admission,
        }
    }

    /// The search after an event.
    pub open spec fn after(self, event: SearchEvent) -> SessionSearch {
        match (self, event) {
            (SessionSearch::Looking(query), SearchEvent::Looked(Some(_))) => {
                SessionSearch::Admission(query)
            },
            (SessionSearch::Looking(query), SearchEvent::Looked(None)) => next_pool(query),
            (SessionSearch::Admission(query), SearchEvent::Admitted(Ok(Some(connection)))) => {
                SessionSearch::Found(query, connection)
            },
            (SessionSearch::Admission(query), SearchEvent::Admitted(Ok(None))) => next_pool(query),
            (SessionSearch::Admission(_), SearchEvent::Admitted(Err(error))) => {
                SessionSearch::Failed(error)
            },
            _ => self,
        }
    }

    /// Starts a search over a route.
    pub fn new(route: &Route) -> (r: Self)
        ensures
            r == Self::over(route@),
    {
        if route.is_direct() {
            SessionSearch::Looking(SessionQuery::Negotiated)
        } else {
            SessionSearch::Looking(SessionQuery::Exact)
        }
    }

    /// Takes the search on after an event.
    pub fn advance(&mut self, event: SearchEvent)
        requires
            old(self).expects(event),
        ensures
            *final(self) == old(self).after(event),
    {
        let next = match (*self, event) {
            (SessionSearch::Looking(query), SearchEvent::Looked(found)) => match found {
                Some(_) => SessionSearch::Admission(query),
                None => ask_next(query),
            },
            (SessionSearch::Admission(query), SearchEvent::Admitted(admitted)) => match admitted {
                Ok(Some(connection)) => SessionSearch::Found(query, connection),
                Ok(None) => ask_next(query),
                Err(error) => SessionSearch::Failed(error),
            },
            _ => *self,
        };
        *self = next;
    }
}

/// A session is handed out only to an admitted stream, and only if it was
/// still there after the admission.
pub proof fn a_session_is_found_after_admission(search: SessionSearch, event: SearchEvent)
    requires
        search.expects(event),
    ensures
        search.after(event) matches SessionSearch::Found(query, connection) ==> search
            == SessionSearch::Admission(query) && event == SearchEvent::Admitted(
            Ok(Some(connection)),
        ),
{
}

/// Over a proxy the negotiated pool is never asked: neither the start of a
/// search nor what follows a pool without a session leads to it.
pub proof fn a_proxied_search_asks_the_exact_pool_only(
    route: RouteView,
    search: SessionSearch,
    event: SearchEvent,
)
    requires
        !(route is Direct),
        search.expects(event),
        search != SessionSearch::Looking(SessionQuery::Negotiated),
        search != SessionSearch::Admission(SessionQuery::Negotiated),
    ensures
        SessionSearch::over(route) == SessionSearch::Looking(SessionQuery::Exact),
        search.after(event) != SessionSearch::Looking(SessionQuery::Negotiated),
        search.after(event) != SessionSearch::Admission(SessionQuery::Negotiated),
{
}

} // verus!
