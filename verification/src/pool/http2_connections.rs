//! Choosing among the HTTP/2 connections of one pool key.
//!
//! Browsers keep one HTTP/2 connection per origin and route. A caller may
//! allow more: a new connection opens only when every existing one has as
//! many streams in flight as it can carry, and a new stream goes to the
//! connection with the fewest.

use vstd::prelude::*;
use crate::pool::spread::{choice, choose_connection, lower, Choice};

verus! {

/// One connection of a key.
#[derive(Clone, Copy, Debug, PartialEq, Eq, Structural)]
pub struct Http2Load {
    /// The peer's `SETTINGS_MAX_CONCURRENT_STREAMS`, once its settings
    /// arrived.
    pub peer_limit: Option<usize>,
    /// Streams in flight on the connection.
    pub streams: usize,
}

/// How many streams one pool key's HTTP/2 connections may carry.
#[derive(Clone, Copy, Debug, PartialEq, Eq, Structural)]
pub struct Http2Spread {
    pub max_connections: usize,
    pub local_streams: usize,
    /// The most recent stream limit a peer of this key advertised, used for a
    /// connection whose SETTINGS have not arrived yet.
    pub learned_peer_limit: Option<usize>,
}

/// The last limit that the first connections reported, or an earlier one.
pub open spec fn learned(connections: Seq<Http2Load>, earlier: Option<usize>) -> Option<usize>
    decreases connections.len(),
{
    if connections.len() == 0 {
        earlier
    } else if connections.last().peer_limit is Some {
        connections.last().peer_limit
    } else {
        learned(connections.drop_last(), earlier)
    }
}

impl Http2Spread {
    /// How many streams a connection carries: the lower of the local bound
    /// and the limit that it or one before it reported.
    pub open spec fn room(self, connections: Seq<Http2Load>, i: int) -> usize {
        match learned(connections.take(i + 1), self.learned_peer_limit) {
            Some(peer) => lower(peer, self.local_streams),
            None => self.local_streams,
        }
    }

    /// The rooms of all connections.
    pub open spec fn rooms(self, connections: Seq<Http2Load>) -> Seq<usize> {
        Seq::new(connections.len(), |i: int| self.room(connections, i))
    }

    /// The choice among connections.
    pub open spec fn chosen(self, connections: Seq<Http2Load>) -> Choice {
        choice(
            connections.map_values(|connection: Http2Load| connection.streams),
            self.rooms(connections),
            self.max_connections,
        )
    }

    /// The state once the connections' limits were seen.
    pub open spec fn after(self, connections: Seq<Http2Load>) -> Http2Spread {
        Http2Spread {
            learned_peer_limit: learned(connections, self.learned_peer_limit),
            ..self
        }
    }

    /// A spread over up to `max_connections` connections with up to
    /// `local_streams` streams each.
    pub fn new(max_connections: usize, local_streams: usize) -> (r: Self)
        requires
            max_connections > 0,
            local_streams > 0,
        ensures
            r == (Http2Spread { max_connections, local_streams, learned_peer_limit: None }),
    {
        Http2Spread { max_connections, local_streams, learned_peer_limit: None }
    }

    /// Chooses the least-loaded connection that has room for another stream.
    ///
    /// A connection's room is the lower of the local active bound and the
    /// peer's `SETTINGS_MAX_CONCURRENT_STREAMS`. When no connection has room,
    /// the key opens another up to its limit; at the limit the least-loaded
    /// connection takes the stream and the HTTP/2 layer queues it until the
    /// peer allows it. Ties go to the oldest connection, so a key with one
    /// connection behaves as a browser does.
    pub fn select(&mut self, connections: &Vec<Http2Load>) -> (r: Choice)
        ensures
            r == old(self).chosen(connections@),
            *final(self) == old(self).after(connections@),
            r matches Choice::Use(i) ==> i < connections@.len(),
    {
        let ghost start = *self;
        let mut loads: Vec<usize> = Vec::new();
        let mut rooms: Vec<usize> = Vec::new();
        let mut i: usize = 0;
        assert(connections@.take(0) =~= Seq::empty());
        while i < connections.len()
            invariant
                i <= connections@.len(),
                loads@.len() == i,
                rooms@.len() == i,
                *self == start.after(connections@.take(i as int)),
                forall|j: int| 0 <= j < i ==> #[trigger] loads@[j] == connections@[j].streams,
                forall|j: int| 0 <= j < i ==> #[trigger] rooms@[j] == start.room(connections@, j),
            decreases connections@.len() - i,
        {
            assert(connections@.take(i + 1).drop_last() =~= connections@.take(i as int));
            let connection = connections[i];
            if connection.peer_limit.is_some() {
                self.learned_peer_limit = connection.peer_limit;
            }
            let room: usize = match self.learned_peer_limit {
                Some(peer) => if peer < self.local_streams {
                    peer
                } else {
                    self.local_streams
                },
                None => self.local_streams,
            };
            loads.push(connection.streams);
            rooms.push(room);
            i += 1;
        }
        assert(connections@.take(i as int) =~= connections@);
        assert(loads@ =~= connections@.map_values(|connection: Http2Load| connection.streams));
        assert(rooms@ =~= start.rooms(connections@));
        choose_connection(&loads, &rooms, self.max_connections)
    }
}

} // verus!
