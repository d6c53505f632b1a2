//! The retained entries of a pool, least recently used first.

use vstd::prelude::*;
use crate::lru::{
    lemma_position, lemma_stored, lemma_touched, lookup, position, stored, touched, unique_keys,
    without, LruList,
};
use crate::pool::key::{PoolKey, PoolKeyView};

verus! {

/// An entry that a request found or made.
#[derive(Clone, Copy, Debug, PartialEq, Eq, Structural)]
pub struct Entered {
    /// Which entry it is.
    pub id: u64,
    /// Whether the request made it.
    pub created: bool,
    /// The entry that left to make room for it.
    pub evicted: Option<u64>,
}

/// Keys and the entry that each has now. An entry is a number: every new one
/// has a number of its own, so an entry that left is never mistaken for the
/// one that took its place.
#[derive(Debug)]
pub struct Entries {
    list: LruList<PoolKey, u64>,
    next: u64,
}

/// The keys and entry numbers, least recently used first.
pub type EntryList = Seq<(PoolKeyView, u64)>;

impl Entries {
    /// The keys and entry numbers, least recently used first.
    pub closed spec fn view(&self) -> EntryList {
        self.list@
    }

    /// The most entries kept.
    pub closed spec fn bound(&self) -> nat {
        self.list.bound()
    }

    /// The number of the next new entry.
    pub closed spec fn next(&self) -> u64 {
        self.next
    }

    /// The bound is kept, and neither a key nor a number occurs twice.
    pub open spec fn wf(&self) -> bool {
        &&& self.listed()
        &&& self.bound() > 0
        &&& self@.len() <= self.bound()
        &&& unique_keys(self@)
        &&& unique_numbers(self@)
        &&& forall|i: int| 0 <= i < self@.len() ==> (#[trigger] self@[i]).1 < self.next()
    }

    /// The list itself is consistent.
    pub closed spec fn listed(&self) -> bool {
        self.list.wf()
    }

    /// The entries after a request for a key.
    pub open spec fn after(&self, key: PoolKeyView) -> EntryList {
        match position(self@, key) {
            Some(_) => touched(self@, key),
            None => stored(self@, key, self.next(), self.bound()),
        }
    }

    /// What a request for a key finds.
    pub open spec fn entered(&self, key: PoolKeyView) -> Entered {
        match lookup(self@, key) {
            Some(id) => Entered { id, created: false, evicted: None },
            None => Entered {
                id: self.next(),
                created: true,
                evicted: if self@.len() >= self.bound() {
                    Some(self@[0].1)
                } else {
                    None
                },
            },
        }
    }

    /// No entry; up to `capacity` are kept.
    pub fn new(capacity: usize) -> (r: Self)
        requires
            capacity > 0,
        ensures
            r.wf(),
            r.bound() == capacity,
            r.next() == 0,
            r@ == Seq::<(PoolKeyView, u64)>::empty(),
    {
        Entries { list: LruList::new(capacity), next: 0 }
    }

    /// Returns the most entries kept.
    pub fn capacity(&self) -> (r: usize)
        ensures
            r == self.bound(),
    {
        self.list.capacity()
    }

    /// Returns whether there is a number left for another entry.
    pub fn has_room(&self) -> (r: bool)
        ensures
            r == (self.next() < u64::MAX),
    {
        self.next < u64::MAX
    }

    /// Returns the entry of a key and marks it recently used, making it if
    /// there is none. At the bound, the least recently used entry leaves.
    pub fn enter(&mut self, key: PoolKey) -> (r: Entered)
        requires
            old(self).wf(),
            old(self).next() < u64::MAX,
        ensures
            final(self).wf(),
            final(self).bound() == old(self).bound(),
            final(self)@ == old(self).after(key@),
            r == old(self).entered(key@),
            final(self).next() == old(self).next() + (if r.created {
                1int
            } else {
                0
            }),
    {
        let ghost before = self@;
        proof {
            lemma_position(before, key@);
        }
        match self.list.find(&key) {
            Some(i) => {
                proof {
                    lemma_touched(before, key@);
                }
                let (held, id) = self.list.take(i);
                self.list.push(held, id);
                proof {
                    let after = self@;
                    assert(after =~= touched(before, key@));
                    assert forall|a: int, b: int| 0 <= a < b < after.len() implies (
                    #[trigger] after[a]).1 != (#[trigger] after[b]).1 by {
                        let oa = if a < i { a } else { a + 1 };
                        let ob = if b == after.len() - 1 {
                            i as int
                        } else if b < i {
                            b
                        } else {
                            b + 1
                        };
                        assert(after[a] == before[oa] && after[b] == before[ob]);
                        if oa < ob {
                            assert(before[oa].1 != before[ob].1);
                        } else {
                            assert(before[ob].1 != before[oa].1);
                        }
                    }
                    assert forall|a: int| 0 <= a < after.len() implies (#[trigger] after[a]).1
                        < self.next by {
                        let oa = if a == after.len() - 1 {
                            i as int
                        } else if a < i {
                            a
                        } else {
                            a + 1
                        };
                        assert(after[a] == before[oa]);
                    }
                }
                Entered { id, created: false, evicted: None }
            },
            None => {
                proof {
                    lemma_stored(before, key@, self.next, self.bound());
                }
                let mut evicted: Option<u64> = None;
                if self.list.len() >= self.list.capacity() {
                    let (_, id) = self.list.take(0);
                    evicted = Some(id);
                }
                let id: u64 = self.next;
                let ghost kept = self@;
                proof {
                    let from = if before.len() >= self.bound() { 1int } else { 0 };
                    assert(kept =~= before.skip(from));
                    assert forall|a: int| 0 <= a < kept.len() implies kept[a] == #[trigger] before[a
                        + from] by {}
                    assert forall|a: int, b: int| 0 <= a < b < kept.len() implies (
                    #[trigger] kept[a]).1 != (#[trigger] kept[b]).1 by {
                        assert(before[a + from].1 != before[b + from].1);
                    }
                    assert forall|a: int| 0 <= a < kept.len() implies (#[trigger] kept[a]).1
                        < self.next by {
                        assert(kept[a] == before[a + from]);
                    }
                }
                let ghost added = key@;
                self.list.push(key, id);
                self.next = id + 1;
                proof {
                    assert(without(before, added) =~= before);
                    assert(self@ =~= stored(before, added, id, self.bound()));
                    assert forall|a: int, b: int| 0 <= a < b < self@.len() implies (
                    #[trigger] self@[a]).1 != (#[trigger] self@[b]).1 by {
                        assert(self@[a] == kept[a]);
                        if b < kept.len() {
                            assert(self@[b] == kept[b]);
                        }
                    }
                    assert forall|a: int| 0 <= a < self@.len() implies (#[trigger] self@[a]).1
                        < self.next by {
                        if a < kept.len() {
                            assert(self@[a] == kept[a]);
                        }
                    }
                }
                Entered { id, created: true, evicted }
            },
        }
    }

    /// Returns the entry of a key without marking it recently used.
    pub fn peek(&self, key: &PoolKey) -> (r: Option<u64>)
        ensures
            r == lookup(self@, key@),
    {
        match self.list.find(key) {
            Some(i) => {
                let (_, id) = self.list.entry(i);
                Some(*id)
            },
            None => None,
        }
    }
}

/// No entry number occurs twice.
pub open spec fn unique_numbers(entries: EntryList) -> bool {
    forall|i: int, j: int|
        0 <= i < j < entries.len() ==> (#[trigger] entries[i]).1 != (#[trigger] entries[j]).1
}

/// Keys that differ in origin, route or mode have entries of their own: no
/// connection is shared between them.
pub proof fn different_keys_have_different_entries(
    entries: EntryList,
    one: PoolKeyView,
    other: PoolKeyView,
)
    requires
        unique_keys(entries),
        unique_numbers(entries),
        one != other,
        lookup(entries, one) is Some,
    ensures
        lookup(entries, one) != lookup(entries, other),
{
    lemma_position(entries, one);
    lemma_position(entries, other);
    match (position(entries, one), position(entries, other)) {
        (Some(i), Some(j)) => {
            if i < j {
                assert(entries[i].1 != entries[j].1);
            } else if j < i {
                assert(entries[j].1 != entries[i].1);
            }
        },
        _ => {},
    }
}

} // verus!
