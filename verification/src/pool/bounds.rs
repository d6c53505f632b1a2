//! How the admission of a key bounds its connections.

use vstd::prelude::*;
use crate::pool::admission::{Admission, Admitted};
use crate::pool::connection_set::{a_checkout_keeps_within_the_bound, ConnectionSetView};
use crate::pool::laws::negotiated_connections_keep_within_the_bounds;
use crate::pool::negotiated::{Acquired, ConnectionsView, Http2Seen};

verus! {

/// What a running request holds of its key's HTTP/1.1 connections.
pub enum Hold {
    Nothing,
    /// The slot of a connection that it sets up.
    Setup,
    /// A connection.
    Lease,
}

/// How many requests hold this.
pub open spec fn holding(requests: Seq<Hold>, hold: Hold) -> nat
    decreases requests.len(),
{
    if requests.len() == 0 {
        0
    } else {
        holding(requests.drop_last(), hold) + (if requests.last() == hold {
            1nat
        } else {
            0nat
        })
    }
}

/// Whether the request at `i` runs and holds this.
pub open spec fn holds(requests: Seq<Hold>, i: int, hold: Hold) -> bool {
    0 <= i < requests.len() && requests[i] == hold
}

proof fn lemma_holding_all(requests: Seq<Hold>)
    ensures
        holding(requests, Hold::Nothing) + holding(requests, Hold::Setup) + holding(
            requests,
            Hold::Lease,
        ) == requests.len(),
    decreases requests.len(),
{
    if requests.len() > 0 {
        lemma_holding_all(requests.drop_last());
    }
}

proof fn lemma_holding_push(requests: Seq<Hold>, added: Hold, hold: Hold)
    ensures
        holding(requests.push(added), hold) == holding(requests, hold) + (if added == hold {
            1nat
        } else {
            0nat
        }),
{
    assert(requests.push(added).drop_last() =~= requests);
}

proof fn lemma_holding_update(requests: Seq<Hold>, i: int, now: Hold, hold: Hold)
    requires
        0 <= i < requests.len(),
    ensures
        holding(requests.update(i, now), hold) + (if requests[i] == hold {
            1nat
        } else {
            0nat
        }) == holding(requests, hold) + (if now == hold {
            1nat
        } else {
            0nat
        }),
    decreases requests.len(),
{
    let after = requests.update(i, now);
    if i < requests.len() - 1 {
        lemma_holding_update(requests.drop_last(), i, now, hold);
        assert(after.drop_last() =~= requests.drop_last().update(i, now));
    } else {
        assert(after.drop_last() =~= requests.drop_last());
    }
}

proof fn lemma_holding_remove(requests: Seq<Hold>, i: int, hold: Hold)
    requires
        0 <= i < requests.len(),
    ensures
        holding(requests.remove(i), hold) + (if requests[i] == hold {
            1nat
        } else {
            0nat
        }) == holding(requests, hold),
    decreases requests.len(),
{
    let after = requests.remove(i);
    if i < requests.len() - 1 {
        lemma_holding_remove(requests.drop_last(), i, hold);
        assert(after.drop_last() =~= requests.drop_last().remove(i));
    } else {
        assert(after =~= requests.drop_last());
    }
}

/// The requests that run after one more was admitted.
pub open spec fn with_request(admission: Admission, requests: Seq<Hold>) -> Seq<Hold> {
    if admission.admitted().1 == Admitted::Granted {
        requests.push(Hold::Nothing)
    } else {
        requests
    }
}

/// The requests that run after one ended: one that waited runs in its place.
pub open spec fn without_request(admission: Admission, requests: Seq<Hold>, i: int) -> Seq<Hold> {
    if admission.released().1 {
        requests.remove(i).push(Hold::Nothing)
    } else {
        requests.remove(i)
    }
}

/// An exact HTTP/1.1 key: its admission, what each running request holds, and
/// its connections.
pub struct Http1Key {
    pub admission: Admission,
    pub requests: Seq<Hold>,
    pub connections: ConnectionSetView,
}

impl Http1Key {
    /// A key without requests and connections.
    pub open spec fn fresh(max_active: usize, max_pending: usize) -> Http1Key {
        Http1Key {
            admission: Admission::fresh(max_active, max_pending),
            requests: Seq::empty(),
            connections: ConnectionSetView { max: max_active, idle: Seq::empty(), leased: 0 },
        }
    }

    /// Both bounds are kept, and what is leased is held by running requests.
    pub open spec fn wf(self) -> bool {
        &&& self.admission.wf()
        &&& self.connections.wf()
        &&& self.connections.max == self.admission.max_active
        &&& self.requests.len() == self.admission.active
        &&& self.connections.leased == holding(self.requests, Hold::Lease)
    }

    /// The key after a request asked to run.
    pub open spec fn admitted(self) -> Http1Key {
        Http1Key {
            admission: self.admission.admitted().0,
            requests: with_request(self.admission, self.requests),
            ..self
        }
    }

    /// The key after a request took a connection or a slot for one.
    pub open spec fn checked_out(self, i: int, force: bool, reusable: Seq<bool>) -> Http1Key {
        Http1Key {
            requests: self.requests.update(i, Hold::Lease),
            connections: self.connections.checked_out(force, reusable).0,
            ..self
        }
    }

    /// The key after a request gave back what it held.
    pub open spec fn given_back(self, i: int, connection: Option<u64>) -> Http1Key {
        Http1Key {
            requests: self.requests.update(i, Hold::Nothing),
            connections: self.connections.released(connection),
            ..self
        }
    }

    /// The key after a request ended.
    pub open spec fn ended(self, i: int) -> Http1Key {
        Http1Key {
            admission: self.admission.released().0,
            requests: without_request(self.admission, self.requests, i),
            ..self
        }
    }
}

proof fn lemma_requests(admission: Admission, requests: Seq<Hold>, i: int)
    requires
        admission.wf(),
        requests.len() == admission.active,
    ensures
        with_request(admission, requests).len() == admission.admitted().0.active,
        holding(with_request(admission, requests), Hold::Lease) == holding(requests, Hold::Lease),
        holding(with_request(admission, requests), Hold::Setup) == holding(requests, Hold::Setup),
        holds(requests, i, Hold::Nothing) ==> {
            let after = without_request(admission, requests, i);
            &&& admission.released().0.wf()
            &&& after.len() == admission.released().0.active
            &&& holding(after, Hold::Lease) == holding(requests, Hold::Lease)
            &&& holding(after, Hold::Setup) == holding(requests, Hold::Setup)
        },
{
    lemma_holding_push(requests, Hold::Nothing, Hold::Lease);
    lemma_holding_push(requests, Hold::Nothing, Hold::Setup);
    if 0 <= i < requests.len() {
        lemma_holding_remove(requests, i, Hold::Lease);
        lemma_holding_remove(requests, i, Hold::Setup);
        lemma_holding_push(requests.remove(i), Hold::Nothing, Hold::Lease);
        lemma_holding_push(requests.remove(i), Hold::Nothing, Hold::Setup);
    }
}

/// A key stays within its bound: a request runs only
/// once it was admitted, takes a connection only while it holds none, and
/// gives back what it holds before it ends. So no key ever has more
/// connections than requests that may run at once.
pub proof fn admission_bounds_the_connections(
    key: Http1Key,
    i: int,
    force: bool,
    reusable: Seq<bool>,
    connection: Option<u64>,
)
    requires
        key.wf(),
        reusable.len() == key.connections.idle.len(),
        connection matches Some(number) ==> !key.connections.idle.contains(number),
    ensures
        key.connections.open_count() <= key.admission.max_active,
        key.admitted().wf(),
        holds(key.requests, i, Hold::Nothing) ==> key.checked_out(i, force, reusable).wf(),
        holds(key.requests, i, Hold::Lease) ==> key.given_back(i, connection).wf(),
        holds(key.requests, i, Hold::Nothing) ==> key.ended(i).wf(),
{
    lemma_holding_all(key.requests);
    lemma_requests(key.admission, key.requests, i);
    if 0 <= i < key.requests.len() {
        lemma_holding_update(key.requests, i, Hold::Lease, Hold::Lease);
        lemma_holding_update(key.requests, i, Hold::Nothing, Hold::Lease);
    }
    if holds(key.requests, i, Hold::Nothing) {
        lemma_holding_update(key.requests, i, Hold::Lease, Hold::Nothing);
        a_checkout_keeps_within_the_bound(key.connections, force, reusable);
    }
}

/// A key without requests and connections is within its bounds.
pub proof fn a_fresh_key_is_within_its_bounds(max_active: usize, max_pending: usize)
    requires
        max_active > 0,
        max_pending > 0,
    ensures
        Http1Key::fresh(max_active, max_pending).wf(),
{
}

/// A negotiated key: its admission to HTTP/1.1 connection slots, what each
/// request with a slot holds, and its connections.
pub struct NegotiatedKey {
    pub admission: Admission,
    pub requests: Seq<Hold>,
    pub connections: ConnectionsView,
}

impl NegotiatedKey {
    /// The bounds are kept, and what is leased or set up is held by requests
    /// with a slot.
    pub open spec fn wf(self) -> bool {
        &&& self.admission.wf()
        &&& self.connections.wf()
        &&& self.connections.max_http1 == self.admission.max_active
        &&& self.requests.len() == self.admission.active
        &&& self.connections.http1_leased == holding(self.requests, Hold::Lease)
        &&& self.connections.connecting == holding(self.requests, Hold::Setup)
    }

    /// The key after a request asked for a slot.
    pub open spec fn admitted(self) -> NegotiatedKey {
        NegotiatedKey {
            admission: self.admission.admitted().0,
            requests: with_request(self.admission, self.requests),
            ..self
        }
    }

    /// The key after a request with a slot took what it found.
    pub open spec fn checked_out(
        self,
        i: int,
        seen: Seq<Http2Seen>,
        reusable: Seq<bool>,
        force: bool,
        expired: bool,
    ) -> NegotiatedKey {
        let (connections, acquired) = self.connections.checked_out(seen, reusable, force, expired);
        NegotiatedKey {
            requests: match acquired {
                Acquired::Http1(_) => self.requests.update(i, Hold::Lease),
                Acquired::Reserved => self.requests.update(i, Hold::Setup),
                _ => self.requests,
            },
            connections,
            ..self
        }
    }

    /// The key after a request's setup selected HTTP/1.1.
    pub open spec fn with_http1(self, i: int) -> NegotiatedKey {
        NegotiatedKey {
            requests: self.requests.update(i, Hold::Lease),
            connections: self.connections.with_http1(),
            ..self
        }
    }

    /// The key after a request's setup selected HTTP/2.
    pub open spec fn with_http2(self, i: int, connection: u64, seen: Seq<Http2Seen>) -> NegotiatedKey {
        NegotiatedKey {
            requests: self.requests.update(i, Hold::Nothing),
            connections: self.connections.with_http2(connection, seen).0,
            ..self
        }
    }

    /// The key after a request's setup failed or was given up.
    pub open spec fn abandoned(self, i: int) -> NegotiatedKey {
        NegotiatedKey {
            requests: self.requests.update(i, Hold::Nothing),
            connections: self.connections.abandoned(),
            ..self
        }
    }

    /// The key after a request gave its HTTP/1.1 connection back.
    pub open spec fn given_back(self, i: int, connection: Option<u64>) -> NegotiatedKey {
        NegotiatedKey {
            requests: self.requests.update(i, Hold::Nothing),
            connections: self.connections.released(connection),
            ..self
        }
    }

    /// The key after a request gave its slot back.
    pub open spec fn ended(self, i: int) -> NegotiatedKey {
        NegotiatedKey {
            admission: self.admission.released().0,
            requests: without_request(self.admission, self.requests, i),
            ..self
        }
    }
}

/// A negotiated key stays within its bounds: a request takes an HTTP/1.1
/// connection or sets one up only with a slot and while it holds nothing
/// else, and gives it back before the slot.
pub proof fn admission_bounds_the_negotiated_connections(
    key: NegotiatedKey,
    i: int,
    seen: Seq<Http2Seen>,
    reusable: Seq<bool>,
    force: bool,
    expired: bool,
    connection: u64,
    returned: Option<u64>,
)
    requires
        key.wf(),
        seen.len() == key.connections.http2.len(),
        reusable.len() == key.connections.http1_idle.len(),
    ensures
        key.connections.open_http1_or_connecting() <= key.admission.max_active,
        key.admitted().wf(),
        holds(key.requests, i, Hold::Nothing) ==> key.checked_out(i, seen, reusable, force, expired).wf(),
        holds(key.requests, i, Hold::Setup) ==> key.with_http1(i).wf(),
        holds(key.requests, i, Hold::Setup) ==> key.with_http2(i, connection, seen).wf(),
        holds(key.requests, i, Hold::Setup) ==> key.abandoned(i).wf(),
        holds(key.requests, i, Hold::Lease) ==> key.given_back(i, returned).wf(),
        holds(key.requests, i, Hold::Nothing) ==> key.ended(i).wf(),
{
    let number = match returned {
        Some(number) => number,
        None => connection,
    };
    negotiated_connections_keep_within_the_bounds(
        key.connections,
        seen,
        reusable,
        force,
        expired,
        connection,
    );
    negotiated_connections_keep_within_the_bounds(
        key.connections,
        seen,
        reusable,
        force,
        expired,
        number,
    );
    lemma_holding_all(key.requests);
    lemma_requests(key.admission, key.requests, i);
    if 0 <= i < key.requests.len() {
        lemma_holding_update(key.requests, i, Hold::Lease, Hold::Lease);
        lemma_holding_update(key.requests, i, Hold::Lease, Hold::Setup);
        lemma_holding_update(key.requests, i, Hold::Lease, Hold::Nothing);
        lemma_holding_update(key.requests, i, Hold::Setup, Hold::Lease);
        lemma_holding_update(key.requests, i, Hold::Setup, Hold::Setup);
        lemma_holding_update(key.requests, i, Hold::Nothing, Hold::Lease);
        lemma_holding_update(key.requests, i, Hold::Nothing, Hold::Setup);
    }
}

} // verus!
