//! A hand-written counter that yields the numbers one through five, one at
//! a time, the way a custom iterator's `next` would.

use vstd::prelude::*;

verus! {

/// Yields `1, 2, 3, 4, 5`, then nothing.
pub struct Counter {
    n: u32,
}

impl Counter {
    /// How many values were yielded so far.
    pub closed spec fn value(&self) -> u32 {
        self.n
    }

    /// A fresh counter has yielded nothing.
    pub fn new() -> (c: Counter)
        ensures
            c.value() == 0,
    {
        Counter { n: 0 }
    }

    /// The next value: one more than the last, up to five; after that,
    /// nothing.
    pub fn next(&mut self) -> (r: Option<u32>)
        ensures
            old(self).value() < 5 ==> final(self).value() == old(self).value() + 1 && r == Some(
                (old(self).value() + 1) as u32,
            ),
            old(self).value() >= 5 ==> final(self).value() == old(self).value() && r is None,
    {
        if self.n < 5 {
            self.n = self.n + 1;
            Some(self.n)
        } else {
            None
        }
    }
}

/// Drain a fresh counter: it yields exactly `1, 2, 3, 4, 5`.
pub fn example_custom_iterator() -> (r: Vec<u32>)
    ensures
        r@ == seq![1u32, 2u32, 3u32, 4u32, 5u32],
{
    let mut c = Counter::new();
    let mut out: Vec<u32> = Vec::new();
    loop
        invariant
            c.value() <= 5,
            c.value() == out@.len(),
            forall|k: int| 0 <= k < out@.len() ==> #[trigger] out@[k] == k + 1,
        ensures
            out@.len() == 5,
            forall|k: int| 0 <= k < out@.len() ==> #[trigger] out@[k] == k + 1,
        decreases 5 - c.value(),
    {
        match c.next() {
            Some(v) => out.push(v),
            None => { break ; },
        }
    }
    proof {
        assert(out@ =~= seq![1u32, 2u32, 3u32, 4u32, 5u32]);
    }
    out
}

} // verus!
