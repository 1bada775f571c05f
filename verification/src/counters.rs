//! Counters that record how often they were advanced.
//!
//! `CellCounter` keeps a single count; `RefCellCounter` keeps the whole
//! history of counts, so the history is always `1, 2, 3, ...` up to the
//! number of ticks taken.

use vstd::prelude::*;

verus! {

/// A counter holding a single count.
pub struct CellCounter {
    count: u32,
}

impl CellCounter {
    /// A fresh counter starts at zero.
    pub fn new() -> (c: CellCounter)
        ensures
            c.count() == 0,
    {
        CellCounter { count: 0 }
    }

    /// The current count.
    pub closed spec fn count(&self) -> u32 {
        self.count
    }

    /// Advance the counter by one.
    pub fn tick(&mut self)
        requires
            old(self).count() < u32::MAX,
        ensures
            final(self).count() == old(self).count() + 1,
    {
        self.count = self.count + 1;
    }

    /// Read the current count.
    pub fn get(&self) -> (n: u32)
        ensures
            n == self.count(),
    {
        self.count
    }
}

/// The last element of a history, or zero when the history is empty.
pub open spec fn last_count(h: Seq<u32>) -> u32 {
    if h.len() == 0 {
        0u32
    } else {
        h.last()
    }
}

/// A counter that records every count it has reached.
pub struct RefCellCounter {
    history: Vec<u32>,
}

impl RefCellCounter {
    /// The recorded history of counts.
    pub closed spec fn history(&self) -> Seq<u32> {
        self.history@
    }

    /// A fresh counter has an empty history.
    pub fn new() -> (c: RefCellCounter)
        ensures
            c.history() == Seq::<u32>::empty(),
    {
        RefCellCounter { history: Vec::new() }
    }

    /// Advance the counter: record one more than the last recorded count.
    pub fn tick(&mut self)
        requires
            last_count(old(self).history()) < u32::MAX,
        ensures
            final(self).history() == old(self).history().push(
                (last_count(old(self).history()) + 1) as u32,
            ),
    {
        let len = self.history.len();
        let last: u32 = if len == 0 {
            0
        } else {
            self.history[len - 1]
        };
        self.history.push(last + 1);
    }

    /// The last recorded count, or zero when no tick was taken.
    pub fn last(&self) -> (n: u32)
        ensures
            n == last_count(self.history()),
    {
        let len = self.history.len();
        if len == 0 {
            0
        } else {
            self.history[len - 1]
        }
    }

    /// A copy of the whole history.
    pub fn all(&self) -> (h: Vec<u32>)
        ensures
            h@ == self.history(),
    {
        let mut out: Vec<u32> = Vec::new();
        let mut i: usize = 0;
        while i < self.history.len()
            invariant
                i <= self.history.len(),
                out@ == self.history@.take(i as int),
            decreases self.history.len() - i,
        {
            out.push(self.history[i]);
            assert(out@ == self.history@.take(i as int + 1));
            i = i + 1;
        }
        assert(self.history@.take(self.history@.len() as int) == self.history@);
        out
    }
}

/// The identifier after `prev`: identifiers start at one and count up.
pub fn next_id(prev: Option<u64>) -> (r: u64)
    requires
        prev matches Some(p) ==> p < u64::MAX,
    ensures
        prev is None ==> r == 1,
        (prev matches Some(p) ==> r == p + 1),
{
    match prev {
        None => 1,
        Some(p) => p + 1,
    }
}

/// Take a fresh `CellCounter` through two ticks and return the count.
pub fn cell_example() -> (n: u32)
    ensures
        n == 2,
{
    let mut c = CellCounter::new();
    c.tick();
    c.tick();
    c.get()
}

/// Take a fresh `RefCellCounter` through three ticks; return the last
/// count and the history, which is exactly `[1, 2, 3]`.
pub fn refcell_example() -> (r: (u32, Vec<u32>))
    ensures
        r.0 == 3,
        r.1@ == seq![1u32, 2u32, 3u32],
{
    let mut c = RefCellCounter::new();
    c.tick();
    c.tick();
    c.tick();
    let last = c.last();
    let all = c.all();
    assert(c.history() =~= seq![1u32, 2u32, 3u32]);
    (last, all)
}

} // verus!
