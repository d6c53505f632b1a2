//! The hints that each origin asked for.

use vstd::prelude::*;
use crate::client_hints::fields::{
    asks, combine, lemma_requested, misses_critical, parse_tokens, requested_indices, retries,
};
use crate::client_hints::types::{texts, ClientHintSettings};
use crate::endpoint::{headers_view, origin_of, Endpoint, OriginKey, OriginView, RequestHeader};
use crate::lru::{lookup, stored, touched, without, LruList};

verus! {

/// The hints that the origins of a store asked for.
pub type Asked = Seq<(OriginView, Seq<usize>)>;

/// The store after an origin asked for hints, in place of what it asked for
/// before. At the bound, the least recently used origin leaves.
pub open spec fn asked_for(
    entries: Asked,
    origin: OriginView,
    asked: Seq<usize>,
    capacity: nat,
) -> Asked {
    if asked.len() == 0 {
        without(entries, origin)
    } else {
        stored(entries, origin, asked, capacity)
    }
}

/// The hints that each origin asked for, bounded, least recently used first.
pub struct ClientHintStore {
    entries: LruList<OriginKey, Vec<usize>>,
}

impl ClientHintStore {
    /// The hints that each origin asked for.
    pub closed spec fn view(&self) -> Asked {
        self.entries@
    }

    /// The most origins the store keeps.
    pub closed spec fn bound(&self) -> nat {
        self.entries.bound()
    }

    /// No origin occurs twice and the bound is kept.
    pub closed spec fn wf(&self) -> bool {
        self.entries.wf()
    }

    /// An empty store for up to `capacity` origins.
    pub fn new(capacity: usize) -> (r: Self)
        requires
            capacity > 0,
        ensures
            r.wf(),
            r.bound() == capacity,
            r@.len() == 0,
    {
        ClientHintStore { entries: LruList::new(capacity) }
    }

    /// Returns the most origins the store keeps.
    pub fn capacity(&self) -> (r: usize)
        ensures
            r == self.bound(),
    {
        self.entries.capacity()
    }

    /// Forgets every origin.
    pub fn clear(&mut self)
        requires
            old(self).wf(),
        ensures
            final(self).wf(),
            final(self).bound() == old(self).bound(),
            final(self)@.len() == 0,
    {
        self.entries.clear();
    }

    /// Learns the hints that a response from `endpoint` asks for. Returns
    /// whether the request has to be sent again with them.
    ///
    /// A response without `Accept-CH`, or with a malformed one, changes
    /// nothing; an empty one forgets what the origin asked for before.
    pub fn learn_and_should_retry(
        &mut self,
        endpoint: &Endpoint,
        settings: &ClientHintSettings,
        response: &Vec<RequestHeader>,
        sent: &Vec<RequestHeader>,
    ) -> (r: bool)
        requires
            old(self).wf(),
        ensures
            final(self).wf(),
            final(self).bound() == old(self).bound(),
            match asks(settings@, headers_view(response@)) {
                None => final(self)@ == old(self)@ && !r,
                Some(found) => {
                    &&& final(self)@ == asked_for(
                        old(self)@,
                        origin_of(endpoint),
                        found.0,
                        old(self).bound(),
                    )
                    &&& r == retries(settings@, found.0, found.1, headers_view(sent@))
                },
            },
    {
        let accept_ch = match combine(response, "accept-ch") {
            Some(bytes) => bytes,
            None => {
                return false;
            },
        };
        let tokens = match parse_tokens(accept_ch.as_slice()) {
            Some(tokens) => tokens,
            None => {
                return false;
            },
        };
        let asked = requested_indices(settings, &tokens);
        let none: Vec<String> = Vec::new();
        assert(texts(none@) =~= Seq::empty());
        let critical = match combine(response, "critical-ch") {
            Some(bytes) => match parse_tokens(bytes.as_slice()) {
                Some(tokens) => tokens,
                None => none,
            },
            None => none,
        };
        let known: usize = settings.hints.len();
        proof {
            assert(settings@.len() == known);
            lemma_requested(settings@, texts(tokens@));
        }
        let retry = misses_critical(settings, &asked, &critical, sent);
        let origin = OriginKey::new(endpoint);
        if asked.len() == 0 {
            self.entries.remove(&origin);
        } else {
            self.entries.store(origin, asked);
        }
        retry
    }

    /// Returns the hints that an origin asked for, and records the use.
    pub fn active_indices(&mut self, origin: &OriginKey) -> (r: Option<Vec<usize>>)
        requires
            old(self).wf(),
        ensures
            final(self).wf(),
            final(self).bound() == old(self).bound(),
            final(self)@ == touched(old(self)@, origin@),
            (match r {
                Some(indices) => Some(indices@),
                None => None,
            }) == lookup(old(self)@, origin@),
    {
        match self.entries.find(origin) {
            Some(i) => {
                let indices = copy_indices(self.entries.entry(i).1);
                self.entries.touch(origin);
                Some(indices)
            },
            None => None,
        }
    }
}

fn copy_indices(indices: &Vec<usize>) -> (r: Vec<usize>)
    ensures
        r@ == indices@,
{
    let mut out: Vec<usize> = Vec::new();
    let mut i: usize = 0;
    while i < indices.len()
        invariant
            i <= indices@.len(),
            out@ == indices@.take(i as int),
        decreases indices@.len() - i,
    {
        out.push(indices[i]);
        assert(out@ =~= indices@.take(i + 1));
        i += 1;
    }
    assert(indices@.take(i as int) =~= indices@);
    out
}

} // verus!
