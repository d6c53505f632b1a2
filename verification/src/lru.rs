//! A bounded list of keyed values, least recently used first.

use vstd::prelude::*;

verus! {

/// A value that names an entry of an [`LruList`].
pub trait Key: View + Sized {
    /// Whether both values name the same entry.
    fn same(&self, other: &Self) -> (r: bool)
        ensures
            r == (self@ == other@),
    ;
}

/// Whether `i` is the first position of `key` in `s`.
pub open spec fn first_at<K, T>(s: Seq<(K, T)>, key: K, i: int) -> bool {
    &&& 0 <= i < s.len()
    &&& s[i].0 == key
    &&& forall|j: int| 0 <= j < i ==> (#[trigger] s[j]).0 != key
}

/// The first position of `key` in `s`.
pub open spec fn position<K, T>(s: Seq<(K, T)>, key: K) -> Option<int> {
    if exists|i: int| first_at(s, key, i) {
        Some(choose|i: int| first_at(s, key, i))
    } else {
        None
    }
}

/// The value stored for `key`.
pub open spec fn lookup<K, T>(s: Seq<(K, T)>, key: K) -> Option<T> {
    match position(s, key) {
        Some(i) => Some(s[i].1),
        None => None,
    }
}

/// Whether no key occurs twice.
pub open spec fn unique_keys<K, T>(s: Seq<(K, T)>) -> bool {
    forall|i: int, j: int|
        0 <= i < j < s.len() ==> (#[trigger] s[i]).0 != (#[trigger] s[j]).0
}

/// `s` without the entry of `key`.
pub open spec fn without<K, T>(s: Seq<(K, T)>, key: K) -> Seq<(K, T)> {
    match position(s, key) {
        Some(i) => s.remove(i),
        None => s,
    }
}

/// `s` with the entry of `key` moved to the end, as the most recently used.
pub open spec fn touched<K, T>(s: Seq<(K, T)>, key: K) -> Seq<(K, T)> {
    match position(s, key) {
        Some(i) => s.remove(i).push(s[i]),
        None => s,
    }
}

/// `s` with room for one more entry under `capacity`: at the bound, the
/// least recently used entry leaves.
pub open spec fn with_room<K, T>(s: Seq<(K, T)>, capacity: nat) -> Seq<(K, T)> {
    if s.len() >= capacity {
        s.skip(1)
    } else {
        s
    }
}

/// `s` with `value` stored for `key` as the most recently used entry.
pub open spec fn stored<K, T>(s: Seq<(K, T)>, key: K, value: T, capacity: nat) -> Seq<(K, T)> {
    with_room(without(s, key), capacity).push((key, value))
}

/// A position is the only one when keys are unique.
pub proof fn lemma_position_is<K, T>(s: Seq<(K, T)>, key: K, i: int)
    requires
        first_at(s, key, i),
    ensures
        position(s, key) == Some(i),
{
    let p = choose|j: int| first_at(s, key, j);
    assert(first_at(s, key, p));
    if p < i {
        assert(s[p].0 != key);
    } else if i < p {
        assert(s[i].0 != key);
    }
}

/// A key that no entry has.
pub proof fn lemma_position_none<K, T>(s: Seq<(K, T)>, key: K)
    requires
        forall|j: int| 0 <= j < s.len() ==> (#[trigger] s[j]).0 != key,
    ensures
        position(s, key) is None,
        without(s, key) == s,
        touched(s, key) == s,
{
    assert forall|i: int| !first_at(s, key, i) by {
        if first_at(s, key, i) {
            assert(s[i].0 == key);
        }
    }
}

/// Any occurrence of a unique key is its position.
pub proof fn lemma_position_unique<K, T>(s: Seq<(K, T)>, key: K, i: int)
    requires
        unique_keys(s),
        0 <= i < s.len(),
        s[i].0 == key,
    ensures
        position(s, key) == Some(i),
{
    assert forall|j: int| 0 <= j < i implies (#[trigger] s[j]).0 != key by {
        assert(s[i].0 == key);
    }
    lemma_position_is(s, key, i);
}

/// What a position says, in both cases.
pub proof fn lemma_position<K, T>(s: Seq<(K, T)>, key: K)
    ensures
        match position(s, key) {
            Some(i) => first_at(s, key, i),
            None => forall|j: int| 0 <= j < s.len() ==> (#[trigger] s[j]).0 != key,
        },
{
    if position(s, key) is None {
        assert forall|j: int| 0 <= j < s.len() implies (#[trigger] s[j]).0 != key by {
            if s[j].0 == key {
                lemma_some_first(s, key, j);
            }
        }
    }
}

proof fn lemma_some_first<K, T>(s: Seq<(K, T)>, key: K, j: int)
    requires
        0 <= j < s.len(),
        s[j].0 == key,
    ensures
        exists|i: int| first_at(s, key, i),
    decreases j,
{
    if exists|i: int| 0 <= i < j && (#[trigger] s[i]).0 == key {
        let i = choose|i: int| 0 <= i < j && (#[trigger] s[i]).0 == key;
        lemma_some_first(s, key, i);
    } else {
        assert(first_at(s, key, j));
    }
}

/// Removing an entry keeps keys unique and forgets only that key.
pub proof fn lemma_without<K, T>(s: Seq<(K, T)>, key: K)
    requires
        unique_keys(s),
    ensures
        unique_keys(without(s, key)),
        position(without(s, key), key) is None,
        without(s, key).len() <= s.len(),
        position(s, key) is Some ==> without(s, key).len() == s.len() - 1,
        forall|other: K| other != key ==> #[trigger] lookup(without(s, key), other) == lookup(s, other),
{
    lemma_position(s, key);
    let r = without(s, key);
    match position(s, key) {
        Some(p) => {
            assert forall|j: int| 0 <= j < r.len() implies (#[trigger] r[j]).0 != key by {
                if j < p {
                    assert(r[j] == s[j]);
                } else {
                    assert(r[j] == s[j + 1]);
                    assert(s[p].0 == key);
                }
            }
            lemma_position_none(r, key);
            assert forall|i: int, j: int| 0 <= i < j < r.len() implies (#[trigger] r[i]).0 != (
            #[trigger] r[j]).0 by {
                let a = if i < p { i } else { i + 1 };
                let b = if j < p { j } else { j + 1 };
                assert(r[i] == s[a] && r[j] == s[b]);
            }
            assert forall|other: K| other != key implies #[trigger] lookup(r, other) == lookup(
                s,
                other,
            ) by {
                lemma_position(s, other);
                lemma_position(r, other);
                match position(s, other) {
                    Some(q) => {
                        let m = if q < p { q } else { q - 1 };
                        assert(r[m] == s[q]);
                        lemma_position_unique(r, other, m);
                    },
                    None => {
                        assert forall|j: int| 0 <= j < r.len() implies (#[trigger] r[j]).0 != other by {
                            let b = if j < p { j } else { j + 1 };
                            assert(r[j] == s[b]);
                        }
                        lemma_position_none(r, other);
                    },
                }
            }
        },
        None => {},
    }
}

/// Using an entry keeps every key and value.
pub proof fn lemma_touched<K, T>(s: Seq<(K, T)>, key: K)
    requires
        unique_keys(s),
    ensures
        unique_keys(touched(s, key)),
        touched(s, key).len() == s.len(),
        forall|other: K| #[trigger] lookup(touched(s, key), other) == lookup(s, other),
{
    lemma_position(s, key);
    lemma_without(s, key);
    match position(s, key) {
        Some(p) => {
            let r = s.remove(p);
            lemma_pushed(r, key, s[p].1);
            assert(r.push((key, s[p].1)) == touched(s, key));
        },
        None => {},
    }
}

/// Appending an entry for a new key keeps every other value.
pub proof fn lemma_pushed<K, T>(s: Seq<(K, T)>, key: K, value: T)
    requires
        unique_keys(s),
        position(s, key) is None,
    ensures
        unique_keys(s.push((key, value))),
        lookup(s.push((key, value)), key) == Some(value),
        forall|other: K|
            other != key ==> #[trigger] lookup(s.push((key, value)), other) == lookup(s, other),
{
    let r = s.push((key, value));
    lemma_position(s, key);
    assert forall|i: int, j: int| 0 <= i < j < r.len() implies (#[trigger] r[i]).0 != (
    #[trigger] r[j]).0 by {
        assert(r[i] == s[i]);
        if j < s.len() {
            assert(r[j] == s[j]);
        }
    }
    lemma_position_unique(r, key, s.len() as int);
    assert forall|other: K| other != key implies #[trigger] lookup(r, other) == lookup(s, other) by {
        lemma_position(s, other);
        match position(s, other) {
            Some(q) => {
                assert(r[q] == s[q]);
                lemma_position_unique(r, other, q);
            },
            None => {
                assert forall|j: int| 0 <= j < r.len() implies (#[trigger] r[j]).0 != other by {
                    if j < s.len() {
                        assert(r[j] == s[j]);
                    }
                }
                lemma_position_none(r, other);
            },
        }
    }
}

/// Prepending an entry for a new key keeps every other value.
pub proof fn lemma_prepended<K, T>(s: Seq<(K, T)>, key: K, value: T)
    requires
        unique_keys(s),
        position(s, key) is None,
    ensures
        unique_keys(seq![(key, value)] + s),
        lookup(seq![(key, value)] + s, key) == Some(value),
        forall|other: K|
            other != key ==> #[trigger] lookup(seq![(key, value)] + s, other) == lookup(s, other),
{
    let r = seq![(key, value)] + s;
    lemma_position(s, key);
    assert forall|i: int, j: int| 0 <= i < j < r.len() implies (#[trigger] r[i]).0 != (
    #[trigger] r[j]).0 by {
        assert(r[j] == s[j - 1]);
        if i > 0 {
            assert(r[i] == s[i - 1]);
        }
    }
    assert(r[0] == (key, value));
    lemma_position_unique(r, key, 0);
    assert forall|other: K| other != key implies #[trigger] lookup(r, other) == lookup(s, other) by {
        lemma_position(s, other);
        match position(s, other) {
            Some(q) => {
                assert(r[q + 1] == s[q]);
                lemma_position_unique(r, other, q + 1);
            },
            None => {
                assert forall|j: int| 0 <= j < r.len() implies (#[trigger] r[j]).0 != other by {
                    if j > 0 {
                        assert(r[j] == s[j - 1]);
                    }
                }
                lemma_position_none(r, other);
            },
        }
    }
}

/// Replacing a value in its place keeps keys unique and every other value.
pub proof fn lemma_replaced<K, T>(s: Seq<(K, T)>, i: int, value: T)
    requires
        unique_keys(s),
        0 <= i < s.len(),
    ensures
        unique_keys(s.update(i, (s[i].0, value))),
        lookup(s.update(i, (s[i].0, value)), s[i].0) == Some(value),
        forall|other: K|
            other != s[i].0 ==> #[trigger] lookup(s.update(i, (s[i].0, value)), other) == lookup(
                s,
                other,
            ),
{
    let r = s.update(i, (s[i].0, value));
    assert forall|a: int, b: int| 0 <= a < b < r.len() implies (#[trigger] r[a]).0 != (
    #[trigger] r[b]).0 by {
        assert(r[a].0 == s[a].0 && r[b].0 == s[b].0);
    }
    lemma_position_unique(r, s[i].0, i);
    assert forall|other: K| other != s[i].0 implies #[trigger] lookup(r, other) == lookup(
        s,
        other,
    ) by {
        lemma_position(s, other);
        match position(s, other) {
            Some(q) => {
                lemma_position_unique(r, other, q);
            },
            None => {
                assert forall|j: int| 0 <= j < r.len() implies (#[trigger] r[j]).0 != other by {
                    assert(r[j].0 == s[j].0);
                }
                lemma_position_none(r, other);
            },
        }
    }
}

/// Dropping the least recently used entry keeps keys unique.
pub proof fn lemma_skip_first<K, T>(s: Seq<(K, T)>, key: K)
    requires
        unique_keys(s),
        s.len() > 0,
    ensures
        unique_keys(s.skip(1)),
        position(s, key) is None ==> position(s.skip(1), key) is None,
        s[0].0 != key ==> lookup(s.skip(1), key) == lookup(s, key),
        s[0].0 == key ==> lookup(s.skip(1), key) is None,
{
    let first = s[0].0;
    assert(first_at(s, first, 0));
    lemma_position_is(s, first, 0);
    assert(s.skip(1) =~= without(s, first));
    lemma_without(s, first);
    lemma_position(s, key);
    lemma_position(s.skip(1), key);
    if position(s, key) is None {
        assert forall|j: int| 0 <= j < s.skip(1).len() implies (#[trigger] s.skip(1)[j]).0 != key by {
            assert(s.skip(1)[j] == s[j + 1]);
        }
        lemma_position_none(s.skip(1), key);
    }
    if first == key {
        assert(position(s.skip(1), key) is None);
    } else {
        assert(lookup(without(s, first), key) == lookup(s, key));
    }
}

/// Storing keeps the bound, keeps keys unique and makes the value found.
pub proof fn lemma_stored<K, T>(s: Seq<(K, T)>, key: K, value: T, capacity: nat)
    requires
        unique_keys(s),
        s.len() <= capacity,
        capacity > 0,
    ensures
        unique_keys(stored(s, key, value, capacity)),
        stored(s, key, value, capacity).len() <= capacity,
        stored(s, key, value, capacity).len() > 0,
        stored(s, key, value, capacity).last() == (key, value),
        lookup(stored(s, key, value, capacity), key) == Some(value),
{
    lemma_without(s, key);
    let w = without(s, key);
    let r = with_room(w, capacity);
    if w.len() >= capacity {
        lemma_skip_first(w, key);
    }
    lemma_pushed(r, key, value);
}

/// A bounded list of keyed values, least recently used first.
#[derive(Debug)]
pub struct LruList<K, T> {
    capacity: usize,
    entries: Vec<(K, T)>,
}

impl<K: Key, T: View> View for LruList<K, T> {
    type V = Seq<(K::V, T::V)>;

    closed spec fn view(&self) -> Seq<(K::V, T::V)> {
        self.entries@.map_values(|entry: (K, T)| (entry.0@, entry.1@))
    }
}

impl<K: Key, T: View> LruList<K, T> {
    /// The most entries the list keeps.
    pub closed spec fn bound(&self) -> nat {
        self.capacity as nat
    }

    /// Keys are unique and the bound is kept.
    pub open spec fn wf(&self) -> bool {
        &&& self.bound() > 0
        &&& self@.len() <= self.bound()
        &&& unique_keys(self@)
    }

    /// An empty list that keeps up to `capacity` entries.
    pub fn new(capacity: usize) -> (r: Self)
        requires
            capacity > 0,
        ensures
            r.wf(),
            r.bound() == capacity,
            r@ == Seq::<(K::V, T::V)>::empty(),
    {
        let r = LruList { capacity, entries: Vec::new() };
        assert(r@ =~= Seq::<(K::V, T::V)>::empty());
        r
    }

    /// Returns the most entries the list keeps.
    pub fn capacity(&self) -> (r: usize)
        ensures
            r == self.bound(),
    {
        self.capacity
    }

    /// Returns how many entries the list holds.
    pub fn len(&self) -> (r: usize)
        ensures
            r == self@.len(),
    {
        self.entries.len()
    }

    /// Returns the position of `key`.
    pub fn find(&self, key: &K) -> (r: Option<usize>)
        ensures
            match r {
                Some(i) => i < self@.len() && position(self@, key@) == Some(i as int),
                None => position(self@, key@) is None,
            },
    {
        let mut i: usize = 0;
        while i < self.entries.len()
            invariant
                i <= self.entries@.len(),
                self@.len() == self.entries@.len(),
                forall|j: int| 0 <= j < i ==> (#[trigger] self@[j]).0 != key@,
            decreases self.entries@.len() - i,
        {
            assert(self@[i as int] == (self.entries@[i as int].0@, self.entries@[i as int].1@));
            if self.entries[i].0.same(key) {
                proof {
                    assert(first_at(self@, key@, i as int));
                    lemma_position_is(self@, key@, i as int);
                }
                return Some(i);
            }
            i = i + 1;
        }
        proof {
            lemma_position_none(self@, key@);
        }
        None
    }

    /// Returns the entry at `i`, counted from the least recently used one.
    pub fn entry(&self, i: usize) -> (r: (&K, &T))
        requires
            i < self@.len(),
        ensures
            (r.0@, r.1@) == self@[i as int],
    {
        (&self.entries[i].0, &self.entries[i].1)
    }

    /// Takes the entry at `i` out of the list.
    pub fn take(&mut self, i: usize) -> (r: (K, T))
        requires
            i < old(self)@.len(),
        ensures
            final(self).bound() == old(self).bound(),
            final(self)@ == old(self)@.remove(i as int),
            (r.0@, r.1@) == old(self)@[i as int],
    {
        let r = self.entries.remove(i);
        assert(self@ =~= old(self)@.remove(i as int));
        r
    }

    /// Appends an entry as the most recently used one.
    pub fn push(&mut self, key: K, value: T)
        ensures
            final(self).bound() == old(self).bound(),
            final(self)@ == old(self)@.push((key@, value@)),
    {
        self.entries.push((key, value));
        assert(self@ =~= old(self)@.push((key@, value@)));
    }

    /// Inserts an entry as the least recently used one.
    pub fn push_oldest(&mut self, key: K, value: T)
        ensures
            final(self).bound() == old(self).bound(),
            final(self)@ == seq![(key@, value@)] + old(self)@,
    {
        self.entries.insert(0, (key, value));
        assert(self@ =~= seq![(key@, value@)] + old(self)@);
    }

    /// Replaces the value at `i`, whose key and place stay.
    pub fn replace(&mut self, i: usize, value: T)
        requires
            i < old(self)@.len(),
        ensures
            final(self).bound() == old(self).bound(),
            final(self)@ == old(self)@.update(i as int, (old(self)@[i as int].0, value@)),
    {
        let (key, _) = self.entries.remove(i);
        self.entries.insert(i, (key, value));
        assert(self@ =~= old(self)@.update(i as int, (old(self)@[i as int].0, value@)));
    }

    /// Removes the entry of `key`, if there is one.
    pub fn remove(&mut self, key: &K)
        requires
            old(self).wf(),
        ensures
            final(self).wf(),
            final(self).bound() == old(self).bound(),
            final(self)@ == without(old(self)@, key@),
    {
        proof {
            lemma_without(self@, key@);
        }
        match self.find(key) {
            Some(i) => {
                let _ = self.take(i);
            },
            None => {},
        }
    }

    /// Moves the entry of `key` to the end; returns whether there is one.
    pub fn touch(&mut self, key: &K) -> (r: bool)
        requires
            old(self).wf(),
        ensures
            final(self).wf(),
            final(self).bound() == old(self).bound(),
            final(self)@ == touched(old(self)@, key@),
            r == (position(old(self)@, key@) is Some),
    {
        proof {
            lemma_touched(self@, key@);
        }
        match self.find(key) {
            Some(i) => {
                let (stored_key, value) = self.take(i);
                self.push(stored_key, value);
                true
            },
            None => false,
        }
    }

    /// Makes room for one more entry: at the bound, the least recently used
    /// one leaves.
    pub fn make_room(&mut self)
        requires
            old(self).wf(),
        ensures
            final(self).wf(),
            final(self).bound() == old(self).bound(),
            final(self)@ == with_room(old(self)@, old(self).bound()),
            final(self)@.len() < final(self).bound(),
    {
        if self.entries.len() >= self.capacity {
            proof {
                lemma_skip_first(self@, self@[0].0);
            }
            let _ = self.take(0);
            assert(self@ =~= old(self)@.skip(1));
        }
    }

    /// Stores `value` for `key` as the most recently used entry, replacing
    /// an earlier value or, at the bound, the least recently used entry.
    pub fn store(&mut self, key: K, value: T)
        requires
            old(self).wf(),
        ensures
            final(self).wf(),
            final(self).bound() == old(self).bound(),
            final(self)@ == stored(old(self)@, key@, value@, old(self).bound()),
    {
        proof {
            lemma_stored(self@, key@, value@, self.bound());
            lemma_without(self@, key@);
        }
        self.remove(&key);
        self.make_room();
        self.push(key, value);
    }

    /// Forgets every entry.
    pub fn clear(&mut self)
        ensures
            final(self).bound() == old(self).bound(),
            final(self)@ == Seq::<(K::V, T::V)>::empty(),
    {
        self.entries.clear();
        assert(self@ =~= Seq::<(K::V, T::V)>::empty());
    }
}

} // verus!
