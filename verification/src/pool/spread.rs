//! Choosing among the connections of one key by their load.

use vstd::prelude::*;

verus! {

/// What a request should do with the connections of its key.
#[derive(Clone, Copy, Debug, PartialEq, Eq, Structural)]
pub enum Choice {
    /// Send on the connection at this index.
    Use(usize),
    /// Open another connection: none exists, or every one is full and the
    /// key is below its connection limit.
    Open,
}

/// Whether the connection at `i` has the fewest streams of those that may be
/// chosen, and is the first with so few.
pub open spec fn least(loads: Seq<usize>, rooms: Seq<usize>, full: bool, i: int) -> bool {
    &&& 0 <= i < loads.len()
    &&& full || loads[i] < rooms[i]
    &&& forall|j: int|
        0 <= j < loads.len() && (full || loads[j] < rooms[j]) ==> loads[i] < #[trigger] loads[j] || (
        loads[i] == loads[j] && i <= j)
}

/// The choice among connections with these loads and rooms: the least loaded
/// with room for another stream, else another connection below the limit,
/// else the least loaded.
pub open spec fn choice(loads: Seq<usize>, rooms: Seq<usize>, limit: usize) -> Choice {
    if exists|i: int| least(loads, rooms, false, i) {
        Choice::Use((choose|i: int| least(loads, rooms, false, i)) as usize)
    } else if loads.len() >= limit && loads.len() > 0 {
        Choice::Use((choose|i: int| least(loads, rooms, true, i)) as usize)
    } else {
        Choice::Open
    }
}

/// Only one connection is the least loaded.
pub proof fn lemma_least(loads: Seq<usize>, rooms: Seq<usize>, full: bool, i: int, j: int)
    requires
        least(loads, rooms, full, i),
        least(loads, rooms, full, j),
    ensures
        i == j,
{
    assert(loads[i] <= loads[j] && loads[j] <= loads[i]);
}

fn find_least(loads: &Vec<usize>, rooms: &Vec<usize>, full: bool) -> (r: Option<usize>)
    requires
        loads@.len() == rooms@.len(),
    ensures
        match r {
            Some(i) => least(loads@, rooms@, full, i as int),
            None => forall|i: int| !least(loads@, rooms@, full, i),
        },
        full && loads@.len() > 0 ==> r is Some,
{
    let mut best: Option<usize> = None;
    let mut i: usize = 0;
    while i < loads.len()
        invariant
            i <= loads@.len(),
            loads@.len() == rooms@.len(),
            full && i > 0 ==> best is Some,
            match best {
                Some(b) => b < i && (full || loads@[b as int] < rooms@[b as int]) && forall|j: int|
                    0 <= j < i && (full || loads@[j] < rooms@[j]) ==> loads@[b as int]
                        < #[trigger] loads@[j] || (loads@[b as int] == loads@[j] && b <= j),
                None => forall|j: int|
                    0 <= j < i ==> !(full || #[trigger] loads@[j] < rooms@[j]),
            },
        decreases loads@.len() - i,
    {
        if full || loads[i] < rooms[i] {
            let better = match best {
                Some(b) => loads[i] < loads[b],
                None => true,
            };
            if better {
                best = Some(i);
            }
        }
        i += 1;
    }
    best
}

/// Returns the choice among connections with these loads and rooms.
pub fn choose_connection(loads: &Vec<usize>, rooms: &Vec<usize>, limit: usize) -> (r: Choice)
    requires
        loads@.len() == rooms@.len(),
    ensures
        r == choice(loads@, rooms@, limit),
        r matches Choice::Use(i) ==> i < loads@.len(),
{
    match find_least(loads, rooms, false) {
        Some(i) => {
            proof {
                let k = choose|k: int| least(loads@, rooms@, false, k);
                lemma_least(loads@, rooms@, false, i as int, k);
            }
            return Choice::Use(i);
        },
        None => {},
    }
    if loads.len() >= limit && loads.len() > 0 {
        match find_least(loads, rooms, true) {
            Some(i) => {
                proof {
                    let k = choose|k: int| least(loads@, rooms@, true, k);
                    lemma_least(loads@, rooms@, true, i as int, k);
                }
                return Choice::Use(i);
            },
            None => {},
        }
    }
    Choice::Open
}

/// The lower of two bounds.
pub open spec fn lower(a: usize, b: usize) -> usize {
    if a < b {
        a
    } else {
        b
    }
}

/// A new connection opens only where every existing one is full and the key
/// is below its limit.
pub proof fn a_connection_opens_only_when_needed(
    loads: Seq<usize>,
    rooms: Seq<usize>,
    limit: usize,
)
    requires
        loads.len() == rooms.len(),
        choice(loads, rooms, limit) == Choice::Open,
    ensures
        loads.len() < limit || loads.len() == 0,
        forall|i: int| 0 <= i < loads.len() ==> #[trigger] loads[i] >= rooms[i],
{
    if exists|i: int| 0 <= i < loads.len() && #[trigger] loads[i] < rooms[i] {
        let i = choose|i: int| 0 <= i < loads.len() && #[trigger] loads[i] < rooms[i];
        assert(eligible(loads, rooms, false, i));
        lemma_some_least(loads, rooms, false, loads.len() as int, i);
    }
}

/// Whether the connection at `i` may be chosen.
pub open spec fn eligible(loads: Seq<usize>, rooms: Seq<usize>, full: bool, i: int) -> bool {
    0 <= i < loads.len() && (full || loads[i] < rooms[i])
}

/// Where some connection may be chosen, one is the least loaded.
pub proof fn lemma_some_least(
    loads: Seq<usize>,
    rooms: Seq<usize>,
    full: bool,
    n: int,
    some: int,
)
    requires
        loads.len() == rooms.len(),
        0 <= some < n <= loads.len(),
        eligible(loads, rooms, full, some),
    ensures
        exists|i: int| least(loads.take(n), rooms.take(n), full, i),
        n == loads.len() ==> exists|i: int| least(loads, rooms, full, i),
    decreases n,
{
    let last = n - 1;
    let (l, r) = (loads.take(n), rooms.take(n));
    assert(n == loads.len() ==> l =~= loads && r =~= rooms);
    if exists|i: int| 0 <= i < last && #[trigger] eligible(loads, rooms, full, i) {
        let other = choose|i: int| 0 <= i < last && #[trigger] eligible(loads, rooms, full, i);
        lemma_some_least(loads, rooms, full, last, other);
        let (fl, fr) = (loads.take(last), rooms.take(last));
        let i = choose|i: int| least(fl, fr, full, i);
        assert forall|j: int| 0 <= j < last && (full || l[j] < r[j]) implies l[i] < #[trigger] l[j]
            || (l[i] == l[j] && i <= j) by {
            assert(fl[j] == l[j] && fr[j] == r[j]);
        }
        assert(fl[i] == l[i] && fr[i] == r[i]);
        if (full || l[last] < r[last]) && l[last] < l[i] {
            assert(least(l, r, full, last));
        } else {
            assert(least(l, r, full, i));
        }
    } else {
        assert(some == last);
        assert forall|j: int| 0 <= j < n && (full || l[j] < r[j]) implies l[last] < #[trigger] l[j]
            || (l[last] == l[j] && last <= j) by {
            if j < last {
                assert(eligible(loads, rooms, full, j));
            }
        }
        assert(least(l, r, full, last));
    }
}

/// A connection that is chosen exists.
pub proof fn lemma_choice(loads: Seq<usize>, rooms: Seq<usize>, limit: usize)
    requires
        loads.len() == rooms.len(),
        loads.len() <= usize::MAX,
    ensures
        choice(loads, rooms, limit) matches Choice::Use(i) ==> i < loads.len(),
{
    if loads.len() > 0 {
        assert(eligible(loads, rooms, true, 0));
        lemma_some_least(loads, rooms, true, loads.len() as int, 0);
    }
}

} // verus!
