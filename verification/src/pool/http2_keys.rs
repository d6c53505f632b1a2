//! The memory of keys that selected HTTP/2.

use vstd::prelude::*;
use crate::lru::{position, stored, touched, unique_keys, LruList};
use crate::pool::key::{PoolKey, PoolKeyView};

verus! {

/// The most pool keys a client remembers as having selected HTTP/2, as
/// Chromium remembers servers.
pub const MAX_HTTP2_KEYS: usize = 500;

/// Pool keys whose connections have selected HTTP/2, least recently used
/// first.
///
/// The memory outlives pool entries, so an evicted entry does not start over
/// as a first contact. It is keyed by origin and route.
#[derive(Debug)]
pub struct Http2Keys {
    keys: LruList<PoolKey, ()>,
}

impl Http2Keys {
    /// The keys, least recently used first.
    pub closed spec fn view(&self) -> Seq<(PoolKeyView, ())> {
        self.keys@
    }

    /// No key occurs twice, and the bound is kept.
    pub closed spec fn wf(&self) -> bool {
        self.keys.wf() && self.keys.bound() == MAX_HTTP2_KEYS
    }

    /// What the invariant says of the keys.
    pub proof fn lemma_wf(&self)
        requires
            self.wf(),
        ensures
            self@.len() <= MAX_HTTP2_KEYS,
            unique_keys(self@),
    {
    }

    /// No key.
    pub fn new() -> (r: Self)
        ensures
            r.wf(),
            r@ == Seq::<(PoolKeyView, ())>::empty(),
    {
        Http2Keys { keys: LruList::new(MAX_HTTP2_KEYS) }
    }

    /// Returns how many keys are remembered.
    pub fn len(&self) -> (r: usize)
        ensures
            r == self@.len(),
    {
        self.keys.len()
    }

    /// Returns whether `key` selected HTTP/2 before, marking it recently used.
    pub fn contains(&mut self, key: &PoolKey) -> (r: bool)
        requires
            old(self).wf(),
        ensures
            final(self).wf(),
            r == (position(old(self)@, key@) is Some),
            final(self)@ == touched(old(self)@, key@),
    {
        self.keys.touch(key)
    }

    /// Remembers a key as the most recently used one. At the bound, the least
    /// recently used key is forgotten.
    pub fn insert(&mut self, key: &PoolKey)
        requires
            old(self).wf(),
        ensures
            final(self).wf(),
            final(self)@ == stored(old(self)@, key@, (), MAX_HTTP2_KEYS as nat),
    {
        self.keys.store(key.clone(), ());
    }
}

} // verus!
