//! Counting the streams in flight on one pooled multiplexed connection.
//!
//! The HTTP/2 and HTTP/3 pools count a stream from the moment a request
//! leases its connection until the response body ends or is dropped, and
//! compare the count with the peer's stream limit when choosing a
//! connection.

use vstd::prelude::*;

verus! {

/// The streams in flight on one pooled HTTP/2 or HTTP/3 connection.
#[derive(Clone, Copy, Debug, PartialEq, Eq, Structural)]
pub struct StreamCount {
    pub count: usize,
}

impl StreamCount {
    /// No stream.
    pub fn new() -> (r: Self)
        ensures
            r.count == 0,
    {
        StreamCount { count: 0 }
    }

    /// Returns how many streams are in flight.
    pub fn get(&self) -> (r: usize)
        ensures
            r == self.count,
    {
        self.count
    }

    /// Counts one more stream.
    pub fn open(&mut self)
        requires
            old(self).count < usize::MAX,
        ensures
            final(self).count == old(self).count + 1,
    {
        self.count = self.count + 1;
    }

    /// Counts one stream less.
    pub fn end(&mut self)
        requires
            old(self).count > 0,
        ensures
            final(self).count == old(self).count - 1,
    {
        self.count = self.count - 1;
    }
}

} // verus!
