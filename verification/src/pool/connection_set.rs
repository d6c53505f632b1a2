//! The HTTP/1.1 connections of one pool key.

use vstd::prelude::*;

verus! {

/// The connections of one pool key, each named by a number.
///
/// Admission lets at most `max` requests past it, and each holds at most one
/// lease, so a request that finds no idle connection always has room to open
/// one. A lease returns its connection before the request's admission permit
/// is released.
#[derive(Debug)]
pub struct ConnectionSet {
    pub max: usize,
    /// Connections with no request, least recently used first.
    pub idle: Vec<u64>,
    /// Connections leased to a request, and connections being opened.
    pub leased: usize,
}

/// What a [`ConnectionSet`] holds.
pub struct ConnectionSetView {
    pub max: usize,
    pub idle: Seq<u64>,
    pub leased: nat,
}

/// A connection for a request.
#[derive(Clone, Copy, Debug, PartialEq, Eq, Structural)]
pub enum Checkout {
    /// An idle connection that has carried an earlier request.
    Idle(u64),
    /// A slot for a connection the caller opens.
    Reserved,
}

/// The connections that the flags keep, in order.
pub open spec fn retained(connections: Seq<u64>, reusable: Seq<bool>) -> Seq<u64>
    decreases connections.len(),
{
    if connections.len() == 0 || connections.len() != reusable.len() {
        Seq::empty()
    } else {
        let before = retained(connections.drop_last(), reusable.drop_last());
        if reusable.last() {
            before.push(connections.last())
        } else {
            before
        }
    }
}

/// Returns the connections that the flags keep, in order.
pub fn retain(connections: &Vec<u64>, reusable: &Vec<bool>) -> (r: Vec<u64>)
    requires
        connections@.len() == reusable@.len(),
    ensures
        r@ == retained(connections@, reusable@),
        r@.len() <= connections@.len(),
{
    let mut kept: Vec<u64> = Vec::new();
    let mut i: usize = 0;
    while i < connections.len()
        invariant
            i <= connections@.len(),
            connections@.len() == reusable@.len(),
            kept@ == retained(connections@.take(i as int), reusable@.take(i as int)),
            kept@.len() <= i,
        decreases connections@.len() - i,
    {
        assert(connections@.take(i + 1).drop_last() =~= connections@.take(i as int));
        assert(reusable@.take(i + 1).drop_last() =~= reusable@.take(i as int));
        if reusable[i] {
            kept.push(connections[i]);
        }
        i += 1;
    }
    assert(connections@.take(i as int) =~= connections@);
    assert(reusable@.take(i as int) =~= reusable@);
    kept
}

/// What is kept was there, in the same order and no more often.
pub proof fn lemma_retained(connections: Seq<u64>, reusable: Seq<bool>)
    requires
        connections.len() == reusable.len(),
    ensures
        retained(connections, reusable).len() <= connections.len(),
        forall|connection: u64|
            retained(connections, reusable).contains(connection) ==> #[trigger] connections.contains(
                connection,
            ),
        connections.no_duplicates() ==> retained(connections, reusable).no_duplicates(),
    decreases connections.len(),
{
    if connections.len() > 0 {
        let (first, flags) = (connections.drop_last(), reusable.drop_last());
        lemma_retained(first, flags);
        let before = retained(first, flags);
        let all = retained(connections, reusable);
        assert forall|connection: u64| all.contains(connection) implies #[trigger]
            connections.contains(connection) by {
            let i = all.index_of(connection);
            if i < before.len() {
                assert(before[i] == connection);
                assert(before.contains(connection));
                assert(first.contains(connection));
                let k = first.index_of(connection);
                assert(connections[k] == connection);
            } else {
                assert(connections[connections.len() - 1] == connection);
            }
        }
        if connections.no_duplicates() {
            assert(first.no_duplicates()) by {
                assert forall|i: int, j: int|
                    0 <= i < first.len() && 0 <= j < first.len() && i != j implies first[i]
                    != first[j] by {
                    assert(connections[i] != connections[j]);
                }
            }
            assert forall|i: int, j: int|
                0 <= i < all.len() && 0 <= j < all.len() && i != j implies all[i] != all[j] by {
                if i < before.len() && j < before.len() {
                    assert(before[i] != before[j]);
                } else {
                    let k = if i < before.len() { i } else { j };
                    if k < before.len() {
                        assert(before.contains(before[k]));
                        assert(first.contains(before[k]));
                        let m = first.index_of(before[k]);
                        assert(connections[m] != connections[connections.len() - 1]);
                    }
                }
            }
        }
    }
}

/// What a lease gives back: its connection, if it is still reusable and was
/// not retired.
pub open spec fn returned(connection: u64, reusable: bool, retired: bool) -> Option<u64> {
    if reusable && !retired {
        Some(connection)
    } else {
        None
    }
}

impl ConnectionSetView {
    /// How many connections are open or being opened.
    pub open spec fn open_count(self) -> nat {
        self.idle.len() + self.leased
    }

    /// The bound is kept, and no connection is idle twice.
    pub open spec fn wf(self) -> bool {
        &&& self.open_count() <= self.max
        &&& self.idle.no_duplicates()
    }

    /// The set after a request took a connection, and what it took.
    pub open spec fn checked_out(self, force: bool, reusable: Seq<bool>) -> (
        ConnectionSetView,
        Checkout,
    ) {
        let idle = retained(self.idle, reusable);
        if force {
            let rest = if idle.len() + self.leased >= self.max && idle.len() > 0 {
                idle.skip(1)
            } else {
                idle
            };
            (
                ConnectionSetView { idle: rest, leased: self.leased + 1, ..self },
                Checkout::Reserved,
            )
        } else if idle.len() > 0 {
            (
                ConnectionSetView { idle: idle.drop_last(), leased: self.leased + 1, ..self },
                Checkout::Idle(idle.last()),
            )
        } else {
            (ConnectionSetView { idle, leased: self.leased + 1, ..self }, Checkout::Reserved)
        }
    }

    /// The set after a request gave its slot back, with the connection if it
    /// can serve another request.
    pub open spec fn released(self, connection: Option<u64>) -> ConnectionSetView {
        ConnectionSetView {
            idle: match connection {
                Some(connection) => self.idle.push(connection),
                None => self.idle,
            },
            leased: if self.leased > 0 {
                (self.leased - 1) as nat
            } else {
                0
            },
            ..self
        }
    }
}

impl View for ConnectionSet {
    type V = ConnectionSetView;

    open spec fn view(&self) -> ConnectionSetView {
        ConnectionSetView { max: self.max, idle: self.idle@, leased: self.leased as nat }
    }
}

impl ConnectionSet {
    /// No connection; up to `max` are kept.
    pub fn new(max: usize) -> (r: Self)
        requires
            max > 0,
        ensures
            r@ == (ConnectionSetView { max, idle: Seq::empty(), leased: 0 }),
            r@.wf(),
    {
        ConnectionSet { max, idle: Vec::new(), leased: 0 }
    }

    /// Returns how many connections are open or being opened.
    pub fn open(&self) -> (r: usize)
        requires
            self@.wf(),
        ensures
            r == self@.open_count(),
    {
        self.idle.len() + self.leased
    }

    /// Leases the most recently used idle connection, or reserves a slot for a
    /// new connection when none is idle or `force_new_connection` is set.
    ///
    /// A replay needs a connection that has carried no earlier request: at
    /// the bound, the least recently used idle one is closed for it.
    /// `reusable` says of each idle connection whether it still is.
    pub fn checkout(&mut self, force_new_connection: bool, reusable: &Vec<bool>) -> (r: Checkout)
        requires
            reusable@.len() == old(self)@.idle.len(),
            old(self)@.leased < usize::MAX,
        ensures
            (final(self)@, r) == old(self)@.checked_out(force_new_connection, reusable@),
    {
        let mut idle = retain(&self.idle, reusable);
        let mut found: Option<u64> = None;
        let n: usize = idle.len();
        if force_new_connection {
            let full = n > 0 && (self.leased >= self.max || n >= self.max - self.leased);
            if full {
                let _ = idle.remove(0);
                assert(idle@ =~= retained(old(self).idle@, reusable@).skip(1));
            }
        } else if n > 0 {
            found = Some(idle[n - 1]);
            let _ = idle.remove(n - 1);
            assert(idle@ =~= retained(old(self).idle@, reusable@).drop_last());
        }
        self.idle = idle;
        self.leased = self.leased + 1;
        match found {
            Some(connection) => Checkout::Idle(connection),
            None => Checkout::Reserved,
        }
    }

    /// Frees one leased slot and returns its connection to the idle ones,
    /// unless it is no longer reusable or was retired.
    pub fn release(&mut self, connection: u64, reusable: bool, retired: bool)
        ensures
            final(self)@ == old(self)@.released(returned(connection, reusable, retired)),
    {
        self.abandon();
        if reusable && !retired {
            self.idle.push(connection);
        }
    }

    /// Frees one leased slot without a connection: its setup failed or was
    /// given up.
    pub fn abandon(&mut self)
        ensures
            final(self)@ == old(self)@.released(None),
    {
        if self.leased > 0 {
            self.leased = self.leased - 1;
        }
    }
}

/// A request that holds one of `max` admission permits keeps the key within
/// its bound, whatever it takes.
pub proof fn a_checkout_keeps_within_the_bound(
    set: ConnectionSetView,
    force: bool,
    reusable: Seq<bool>,
)
    requires
        set.wf(),
        set.leased < set.max,
        reusable.len() == set.idle.len(),
    ensures
        set.checked_out(force, reusable).0.wf(),
        set.checked_out(force, reusable).0.leased == set.leased + 1,
{
    lemma_retained(set.idle, reusable);
    let idle = retained(set.idle, reusable);
    assert forall|i: int, j: int|
        0 <= i < idle.len() - 1 && 0 <= j < idle.len() - 1 && i != j implies idle.skip(1)[i]
        != idle.skip(1)[j] by {
        assert(idle[i + 1] != idle[j + 1]);
    }
}

/// A leased connection is no longer idle: it is not leased twice.
pub proof fn a_busy_connection_is_not_leased_twice(
    set: ConnectionSetView,
    force: bool,
    reusable: Seq<bool>,
    connection: u64,
)
    requires
        set.wf(),
        reusable.len() == set.idle.len(),
        set.checked_out(force, reusable).1 == Checkout::Idle(connection),
    ensures
        set.idle.contains(connection),
        !set.checked_out(force, reusable).0.idle.contains(connection),
{
    lemma_retained(set.idle, reusable);
    let idle = retained(set.idle, reusable);
    assert(idle[idle.len() - 1] == connection);
    assert(idle.contains(connection));
    if idle.drop_last().contains(connection) {
        let i = idle.drop_last().index_of(connection);
        assert(idle[i] != idle[idle.len() - 1]);
    }
}

/// What a request gives back, the next one finds.
pub proof fn a_released_connection_is_the_next_one_used(
    set: ConnectionSetView,
    connection: u64,
    reusable: Seq<bool>,
)
    requires
        set.leased > 0,
        reusable.len() == set.idle.len(),
    ensures
        set.released(Some(connection)).checked_out(false, reusable.push(true)).1 == Checkout::Idle(
            connection,
        ),
{
    let idle = set.idle.push(connection);
    assert(idle.drop_last() =~= set.idle);
    assert(reusable.push(true).drop_last() =~= reusable);
}

} // verus!
