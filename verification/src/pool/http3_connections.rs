//! Choosing among the HTTP/3 connections to one transport location.
//!
//! Browsers keep one HTTP/3 connection per origin and route. A caller may
//! allow more: a new connection opens only when every existing one has as
//! many streams in flight as it can carry, and a new stream goes to the
//! connection with the fewest.

use vstd::prelude::*;
use crate::pool::spread::{choice, choose_connection, lower, Choice};

verus! {

/// One reusable connection a request could use.
#[derive(Clone, Copy, Debug, PartialEq, Eq, Structural)]
pub struct Candidate {
    /// The server's `initial_max_streams_bidi`, known once the handshake
    /// completed.
    pub peer_limit: Option<u64>,
    /// Streams in flight on the connection.
    pub streams: usize,
}

/// How many streams the HTTP/3 connections to one location may carry.
#[derive(Clone, Copy, Debug, PartialEq, Eq, Structural)]
pub struct Http3Spread {
    pub max_connections: usize,
    pub local_streams: usize,
}

/// A server's limit as it counts here: at least one stream, because the
/// server must grant one before any request can use the connection.
pub open spec fn granted(limit: u64) -> usize {
    if limit == 0 {
        1
    } else if limit > usize::MAX {
        usize::MAX
    } else {
        limit as usize
    }
}

/// The last limit that any connection reported.
pub open spec fn reported(candidates: Seq<Candidate>) -> Option<usize>
    decreases candidates.len(),
{
    if candidates.len() == 0 {
        None
    } else {
        match candidates.last().peer_limit {
            Some(limit) => Some(granted(limit)),
            None => reported(candidates.drop_last()),
        }
    }
}

impl Http3Spread {
    /// How many streams a connection carries.
    pub open spec fn room(self, candidates: Seq<Candidate>, i: int) -> usize {
        let limit = match candidates[i].peer_limit {
            Some(limit) => Some(granted(limit)),
            None => reported(candidates),
        };
        match limit {
            Some(peer) => lower(peer, self.local_streams),
            None => self.local_streams,
        }
    }

    /// The rooms of all connections.
    pub open spec fn rooms(self, candidates: Seq<Candidate>) -> Seq<usize> {
        Seq::new(candidates.len(), |i: int| self.room(candidates, i))
    }

    /// The choice among connections.
    pub open spec fn chosen(self, candidates: Seq<Candidate>) -> Choice {
        choice(
            candidates.map_values(|candidate: Candidate| candidate.streams),
            self.rooms(candidates),
            self.max_connections,
        )
    }

    /// A spread over up to `max_connections` connections with up to
    /// `local_streams` streams each.
    pub fn new(max_connections: usize, local_streams: usize) -> (r: Self)
        requires
            max_connections > 0,
            local_streams > 0,
        ensures
            r == (Http3Spread { max_connections, local_streams }),
    {
        Http3Spread { max_connections, local_streams }
    }

    /// Returns the most connections to one location.
    pub fn max_connections(&self) -> (r: usize)
        ensures
            r == self.max_connections,
    {
        self.max_connections
    }

    /// Chooses the least-loaded connection that has room for another stream.
    ///
    /// A connection's room is the lower of the local active bound and the
    /// server's `initial_max_streams_bidi`, which a server that grants a
    /// stream back as each one closes keeps open at once. A limit of 0 counts
    /// as 1. A connection whose handshake has not completed uses the limit
    /// another connection to the same location reported, or the local bound
    /// when none has. When no connection has room, another opens up to the
    /// limit; at the limit the least-loaded connection takes the stream, and
    /// QUIC holds it until the server grants stream credit. Ties go to the
    /// earliest candidate, so one connection behaves as a browser's does.
    pub fn select(&self, candidates: &Vec<Candidate>) -> (r: Choice)
        ensures
            r == self.chosen(candidates@),
            r matches Choice::Use(i) ==> i < candidates@.len(),
    {
        let known = last_reported(candidates);
        let mut loads: Vec<usize> = Vec::new();
        let mut rooms: Vec<usize> = Vec::new();
        let mut i: usize = 0;
        while i < candidates.len()
            invariant
                i <= candidates@.len(),
                loads@.len() == i,
                rooms@.len() == i,
                known == reported(candidates@),
                forall|j: int| 0 <= j < i ==> #[trigger] loads@[j] == candidates@[j].streams,
                forall|j: int| 0 <= j < i ==> #[trigger] rooms@[j] == self.room(candidates@, j),
            decreases candidates@.len() - i,
        {
            let candidate = candidates[i];
            let limit = match candidate.peer_limit {
                Some(limit) => Some(counted(limit)),
                None => known,
            };
            let room: usize = match limit {
                Some(peer) => if peer < self.local_streams {
                    peer
                } else {
                    self.local_streams
                },
                None => self.local_streams,
            };
            loads.push(candidate.streams);
            rooms.push(room);
            i += 1;
        }
        assert(loads@ =~= candidates@.map_values(|candidate: Candidate| candidate.streams));
        assert(rooms@ =~= self.rooms(candidates@));
        choose_connection(&loads, &rooms, self.max_connections)
    }
}

fn counted(limit: u64) -> (r: usize)
    ensures
        r == granted(limit),
{
    if limit == 0 {
        1
    } else if limit > usize::MAX as u64 {
        usize::MAX
    } else {
        limit as usize
    }
}

fn last_reported(candidates: &Vec<Candidate>) -> (r: Option<usize>)
    ensures
        r == reported(candidates@),
{
    let mut i: usize = candidates.len();
    assert(candidates@.take(i as int) =~= candidates@);
    while i > 0
        invariant
            i <= candidates@.len(),
            reported(candidates@) == reported(candidates@.take(i as int)),
        decreases i,
    {
        assert(candidates@.take(i as int).drop_last() =~= candidates@.take(i - 1));
        match candidates[i - 1].peer_limit {
            Some(limit) => {
                return Some(counted(limit));
            },
            None => {},
        }
        i -= 1;
    }
    None
}

} // verus!
