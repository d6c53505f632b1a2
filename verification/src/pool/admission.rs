//! Bounded admission of requests to a pool key.

use vstd::prelude::*;
use crate::endpoint::HttpProtocol;
use crate::error::{RequestError, RequestErrorKind};
use crate::lru::{
    first_at, lemma_position, lemma_position_is, lemma_position_none, lemma_pushed, lemma_replaced,
    lemma_without, lookup, position, unique_keys, without, Key,
};

verus! {

/// How many requests of one key run, and how many wait.
#[derive(Clone, Copy, Debug, PartialEq, Eq, Structural)]
pub struct Admission {
    pub max_active: usize,
    pub max_pending: usize,
    pub active: usize,
    pub pending: usize,
}

/// What became of a request.
#[derive(Clone, Copy, Debug, PartialEq, Eq, Structural)]
pub enum Admitted {
    /// It runs.
    Granted,
    /// It waits for a running one to end.
    Waiting,
    /// Too many wait already.
    Refused,
}

impl Admission {
    /// The bounds are kept, and none waits while there is room to run.
    pub open spec fn wf(self) -> bool {
        &&& 0 < self.max_active
        &&& 0 < self.max_pending
        &&& self.active <= self.max_active
        &&& self.pending <= self.max_pending
        &&& self.pending > 0 ==> self.active == self.max_active
    }

    /// No request runs or waits.
    pub open spec fn fresh(max_active: usize, max_pending: usize) -> Admission {
        Admission { max_active, max_pending, active: 0, pending: 0 }
    }

    /// The state after a request asked to run, and what became of it.
    pub open spec fn admitted(self) -> (Admission, Admitted) {
        if self.active < self.max_active {
            (Admission { active: (self.active + 1) as usize, ..self }, Admitted::Granted)
        } else if self.pending < self.max_pending {
            (Admission { pending: (self.pending + 1) as usize, ..self }, Admitted::Waiting)
        } else {
            (self, Admitted::Refused)
        }
    }

    /// The state after a request ended, and whether one that waited runs in
    /// its place.
    pub open spec fn released(self) -> (Admission, bool) {
        if self.pending > 0 {
            (Admission { pending: (self.pending - 1) as usize, ..self }, true)
        } else {
            (Admission { active: (self.active - 1) as usize, ..self }, false)
        }
    }

    /// The state after a request stopped waiting.
    pub open spec fn withdrawn(self) -> Admission {
        Admission { pending: (self.pending - 1) as usize, ..self }
    }

    /// An admission that nobody uses.
    pub fn new(max_active: usize, max_pending: usize) -> (r: Self)
        requires
            max_active > 0,
            max_pending > 0,
        ensures
            r.wf(),
            r == Admission::fresh(max_active, max_pending),
    {
        Admission { max_active, max_pending, active: 0, pending: 0 }
    }

    /// Asks for one request to run.
    pub fn acquire(&mut self) -> (r: Admitted)
        requires
            old(self).wf(),
        ensures
            final(self).wf(),
            (*final(self), r) == old(self).admitted(),
    {
        if self.active < self.max_active {
            self.active = self.active + 1;
            Admitted::Granted
        } else if self.pending < self.max_pending {
            self.pending = self.pending + 1;
            Admitted::Waiting
        } else {
            Admitted::Refused
        }
    }

    /// Lets one request run if there is room, and does not wait.
    pub fn try_acquire(&mut self) -> (r: bool)
        requires
            old(self).wf(),
        ensures
            final(self).wf(),
            r == (old(self).active < old(self).max_active),
            r ==> *final(self) == old(self).admitted().0,
            !r ==> *final(self) == *old(self),
    {
        if self.active < self.max_active {
            self.active = self.active + 1;
            true
        } else {
            false
        }
    }

    /// Ends one request. Returns whether one that waited runs in its place.
    pub fn release(&mut self) -> (r: bool)
        requires
            old(self).wf(),
            old(self).active > 0,
        ensures
            final(self).wf(),
            (*final(self), r) == old(self).released(),
    {
        if self.pending > 0 {
            self.pending = self.pending - 1;
            true
        } else {
            self.active = self.active - 1;
            false
        }
    }

    /// Takes one request out of the waiting ones.
    pub fn withdraw(&mut self)
        requires
            old(self).wf(),
            old(self).pending > 0,
        ensures
            final(self).wf(),
            *final(self) == old(self).withdrawn(),
    {
        self.pending = self.pending - 1;
    }

    /// Returns how many more requests could run.
    pub fn available_active(&self) -> (r: usize)
        requires
            self.wf(),
        ensures
            r == self.max_active - self.active,
    {
        self.max_active - self.active
    }
}

/// Why a request was not admitted, if it was not.
pub open spec fn refused_with(admitted: Admitted, protocol: Option<HttpProtocol>) -> Option<
    RequestError,
> {
    if admitted == Admitted::Refused {
        Some(RequestError::of_kind(RequestErrorKind::Capacity, protocol))
    } else {
        None
    }
}

/// Returns why a request was not admitted, if it was not.
pub fn refusal(admitted: Admitted, protocol: Option<HttpProtocol>) -> (r: Option<RequestError>)
    ensures
        r == refused_with(admitted, protocol),
{
    if admitted == Admitted::Refused {
        Some(RequestError::new(RequestErrorKind::Capacity, protocol))
    } else {
        None
    }
}

/// The admissions of every key. They outlive pool entries: a key that is
/// evicted and comes back finds the requests that still run. A key without
/// requests is forgotten.
#[derive(Debug)]
pub struct AdmissionRegistry<K> {
    max_active: usize,
    max_pending: usize,
    entries: Vec<(K, Admission)>,
}

impl<K: Key> AdmissionRegistry<K> {
    spec fn list(&self) -> Seq<(K::V, Admission)> {
        self.entries@.map_values(|entry: (K, Admission)| (entry.0@, entry.1))
    }

    /// The admission of a key; a key that nobody uses has a fresh one.
    pub closed spec fn at(&self, key: K::V) -> Admission {
        match lookup(self.list(), key) {
            Some(admission) => admission,
            None => Admission::fresh(self.max_active, self.max_pending),
        }
    }

    /// The bounds of every key.
    pub closed spec fn bounds(&self) -> (usize, usize) {
        (self.max_active, self.max_pending)
    }

    /// No key occurs twice, and every admission keeps its bounds.
    pub closed spec fn wf(&self) -> bool {
        &&& self.max_active > 0
        &&& self.max_pending > 0
        &&& unique_keys(self.list())
        &&& forall|i: int|
            0 <= i < self.list().len() ==> (#[trigger] self.list()[i]).1.wf() && self.list()[i].1.max_active
                == self.max_active && self.list()[i].1.max_pending == self.max_pending && (
            self.list()[i].1.active > 0 || self.list()[i].1.pending > 0)
    }

    /// Every key keeps the same bounds.
    pub proof fn lemma_at(&self, key: K::V)
        requires
            self.wf(),
        ensures
            self.at(key).wf(),
            (self.at(key).max_active, self.at(key).max_pending) == self.bounds(),
    {
        lemma_position(self.list(), key);
    }

    /// A registry in which no key is used.
    pub fn new(max_active: usize, max_pending: usize) -> (r: Self)
        requires
            max_active > 0,
            max_pending > 0,
        ensures
            r.wf(),
            r.bounds() == (max_active, max_pending),
            forall|key: K::V| #[trigger] r.at(key) == Admission::fresh(max_active, max_pending),
    {
        let r: AdmissionRegistry<K> = AdmissionRegistry {
            max_active,
            max_pending,
            entries: Vec::new(),
        };
        proof {
            assert forall|key: K::V| #[trigger] r.at(key) == Admission::fresh(
                max_active,
                max_pending,
            ) by {
                lemma_position_none(r.list(), key);
            }
        }
        r
    }

    /// Returns whether no request of any key runs or waits.
    pub fn is_empty(&self) -> (r: bool)
        requires
            self.wf(),
        ensures
            r ==> forall|key: K::V|
                #[trigger] self.at(key) == Admission::fresh(self.bounds().0, self.bounds().1),
            !r ==> exists|key: K::V|
                (#[trigger] self.at(key)).active > 0 || self.at(key).pending > 0,
    {
        if self.entries.len() == 0 {
            proof {
                assert forall|key: K::V| #[trigger] self.at(key) == Admission::fresh(
                    self.max_active,
                    self.max_pending,
                ) by {
                    lemma_position_none(self.list(), key);
                }
            }
            return true;
        }
        proof {
            let key = self.list()[0].0;
            assert(self.list()[0].1 == self.entries@[0].1);
            lemma_position_is(self.list(), key, 0);
            assert(self.at(key) == self.list()[0].1);
        }
        false
    }

    fn find(&self, key: &K) -> (r: Option<usize>)
        ensures
            match r {
                Some(i) => i < self.entries@.len() && position(self.list(), key@) == Some(i as int),
                None => position(self.list(), key@) is None,
            },
    {
        let mut i: usize = 0;
        while i < self.entries.len()
            invariant
                i <= self.entries@.len(),
                forall|j: int| 0 <= j < i ==> (#[trigger] self.list()[j]).0 != key@,
            decreases self.entries@.len() - i,
        {
            assert(self.list()[i as int].0 == self.entries@[i as int].0@);
            if self.entries[i].0.same(key) {
                proof {
                    assert(first_at(self.list(), key@, i as int));
                    lemma_position_is(self.list(), key@, i as int);
                }
                return Some(i);
            }
            i += 1;
        }
        proof {
            lemma_position_none(self.list(), key@);
        }
        None
    }

    /// Returns the admission of a key.
    pub fn get(&self, key: &K) -> (r: Admission)
        requires
            self.wf(),
        ensures
            r == self.at(key@),
            r.wf(),
            (r.max_active, r.max_pending) == self.bounds(),
    {
        match self.find(key) {
            Some(i) => {
                assert(self.list()[i as int].1 == self.entries@[i as int].1);
                self.entries[i].1
            },
            None => Admission::new(self.max_active, self.max_pending),
        }
    }

    fn set(&mut self, key: K, admission: Admission)
        requires
            old(self).wf(),
            admission.wf(),
            (admission.max_active, admission.max_pending) == old(self).bounds(),
        ensures
            final(self).wf(),
            final(self).bounds() == old(self).bounds(),
            final(self).at(key@) == admission,
            forall|other: K::V|
                other != key@ ==> #[trigger] final(self).at(other) == old(self).at(other),
    {
        let ghost before = self.list();
        proof {
            lemma_position(before, key@);
            lemma_without(before, key@);
        }
        match self.find(&key) {
            Some(i) => {
                let (held, _) = self.entries.remove(i);
                assert(self.list() =~= without(before, key@));
                if admission.active > 0 || admission.pending > 0 {
                    self.entries.insert(i, (held, admission));
                    assert(self.list() =~= before.update(
                        i as int,
                        (before[i as int].0, admission),
                    ));
                    proof {
                        lemma_replaced(before, i as int, admission);
                    }
                }
            },
            None => {
                if admission.active > 0 || admission.pending > 0 {
                    let ghost added = key@;
                    self.entries.push((key, admission));
                    assert(self.list() =~= before.push((added, admission)));
                    proof {
                        lemma_pushed(before, added, admission);
                    }
                }
            },
        }
    }

    /// Asks for one request of a key to run.
    pub fn acquire(&mut self, key: K) -> (r: Admitted)
        requires
            old(self).wf(),
        ensures
            final(self).wf(),
            final(self).bounds() == old(self).bounds(),
            (final(self).at(key@), r) == old(self).at(key@).admitted(),
            forall|other: K::V|
                other != key@ ==> #[trigger] final(self).at(other) == old(self).at(other),
    {
        let mut admission = self.get(&key);
        let admitted = admission.acquire();
        self.set(key, admission);
        admitted
    }

    /// Ends one request of a key. Returns whether one that waited runs in its
    /// place.
    pub fn release(&mut self, key: K) -> (r: bool)
        requires
            old(self).wf(),
            old(self).at(key@).active > 0,
        ensures
            final(self).wf(),
            final(self).bounds() == old(self).bounds(),
            (final(self).at(key@), r) == old(self).at(key@).released(),
            forall|other: K::V|
                other != key@ ==> #[trigger] final(self).at(other) == old(self).at(other),
    {
        let mut admission = self.get(&key);
        let handed = admission.release();
        self.set(key, admission);
        handed
    }

    /// Takes one request of a key out of the waiting ones.
    pub fn withdraw(&mut self, key: K)
        requires
            old(self).wf(),
            old(self).at(key@).pending > 0,
        ensures
            final(self).wf(),
            final(self).bounds() == old(self).bounds(),
            final(self).at(key@) == old(self).at(key@).withdrawn(),
            forall|other: K::V|
                other != key@ ==> #[trigger] final(self).at(other) == old(self).at(other),
    {
        let mut admission = self.get(&key);
        admission.withdraw();
        self.set(key, admission);
    }
}

} // verus!
