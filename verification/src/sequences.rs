//! Sorted, duplicate-free views of integer slices, binary search, and byte
//! sums.
//!
//! `sorted_unique` returns the elements of a slice in strictly increasing
//! order with duplicates removed, and hands back an unchanged copy when the
//! input is already strictly increasing. `binary_search` looks a key up in
//! such a slice. `sum_bytes` adds up a byte slice.

use vstd::prelude::*;
use vstd::slice::slice_to_vec;

verus! {

/// `s` is strictly increasing: smaller indices hold smaller elements.
pub open spec fn strictly_sorted(s: Seq<i64>) -> bool {
    forall|i: int, j: int| 0 <= i < j < s.len() ==> s[i] < s[j]
}

/// When every adjacent pair is increasing, so is every pair.
proof fn lemma_adjacent_pair(s: Seq<i64>, i: int, j: int)
    requires
        forall|k: int| 0 <= k < s.len() - 1 ==> #[trigger] s[k] < s[k + 1],
        0 <= i < j < s.len(),
    ensures
        s[i] < s[j],
    decreases j - i,
{
    if i + 1 < j {
        lemma_adjacent_pair(s, i, j - 1);
    }
}

/// Whether the slice is already strictly increasing (so sorted, and free of
/// duplicates).
pub fn is_sorted_unique(xs: &[i64]) -> (r: bool)
    ensures
        r == strictly_sorted(xs@),
{
    let n = xs.len();
    let mut i: usize = 1;
    while i < n
        invariant
            1 <= i,
            n == xs@.len(),
            forall|k: int| 0 <= k < i - 1 ==> #[trigger] xs@[k] < xs@[k + 1],
        decreases n - i,
    {
        if xs[i - 1] >= xs[i] {
            return false;
        }
        i = i + 1;
    }
    proof {
        assert forall|a: int, b: int| 0 <= a < b < xs@.len() implies xs@[a] < xs@[b] by {
            lemma_adjacent_pair(xs@, a, b);
        }
    }
    true
}

/// Pushing an element extends what a sequence contains by exactly that
/// element.
proof fn lemma_contains_push(s: Seq<i64>, x: i64, y: i64)
    ensures
        s.push(x).contains(y) <==> (s.contains(y) || y == x),
{
    if s.contains(y) {
        let i = choose|i: int| 0 <= i < s.len() && s[i] == y;
        assert(s.push(x)[i] == y);
    }
    if y == x {
        assert(s.push(x)[s.len() as int] == y);
    }
    if s.push(x).contains(y) {
        let i = choose|i: int| 0 <= i < s.push(x).len() && s.push(x)[i] == y;
        if i < s.len() {
            assert(s[i] == y);
        }
    }
}

/// Insert `x` into a strictly increasing vector, keeping it strictly
/// increasing; a value already present is not inserted twice.
fn insert_unique_sorted(out: &mut Vec<i64>, x: i64)
    requires
        strictly_sorted(old(out)@),
    ensures
        strictly_sorted(final(out)@),
        forall|y: i64| final(out)@.contains(y) <==> (old(out)@.contains(y) || y == x),
{
    let ghost s = out@;
    let mut j: usize = 0;
    while j < out.len() && out[j] < x
        invariant
            j <= out@.len(),
            out@ == s,
            forall|k: int| 0 <= k < j ==> out@[k] < x,
        decreases out@.len() - j,
    {
        j = j + 1;
    }
    if j < out.len() && out[j] == x {
        proof {
            assert(old(out)@.contains(x));
        }
        return ;
    }
    out.insert(j, x);
    proof {
        s.insert_ensures(j as int, x);
        assert forall|a: int, b: int| 0 <= a < b < out@.len() implies out@[a] < out@[b] by {
            if b < j {
                assert(out@[a] == s[a] && out@[b] == s[b]);
            } else if a < j && b == j {
                assert(out@[a] == s[a] && out@[b] == x);
            } else if a < j {
                assert(out@[a] == s[a] && out@[b] == s[b - 1]);
                assert(s[j as int] <= s[b - 1]);
            } else if a == j {
                assert(out@[a] == x && out@[b] == s[b - 1]);
                assert(s[j as int] <= s[b - 1]);
            } else {
                assert(out@[a] == s[a - 1] && out@[b] == s[b - 1]);
            }
        }
        assert forall|y: i64| out@.contains(y) <==> (s.contains(y) || y == x) by {
            if out@.contains(y) {
                let i = choose|i: int| 0 <= i < out@.len() && out@[i] == y;
                if i < j {
                    assert(s[i] == y);
                } else if i > j {
                    assert(s[i - 1] == y);
                }
            }
            if s.contains(y) {
                let i = choose|i: int| 0 <= i < s.len() && s[i] == y;
                if i < j {
                    assert(out@[i] == y);
                } else {
                    assert(out@[i + 1] == y);
                }
            }
            if y == x {
                assert(out@[j as int] == y);
            }
        }
    }
}

/// The elements of `xs` in strictly increasing order without duplicates.
/// An input that is already strictly increasing comes back unchanged.
pub fn sorted_unique(xs: &[i64]) -> (r: Vec<i64>)
    ensures
        strictly_sorted(r@),
        forall|y: i64| r@.contains(y) <==> xs@.contains(y),
        strictly_sorted(xs@) ==> r@ == xs@,
{
    if is_sorted_unique(xs) {
        return slice_to_vec(xs);
    }
    let mut out: Vec<i64> = Vec::new();
    let mut i: usize = 0;
    while i < xs.len()
        invariant
            i <= xs@.len(),
            strictly_sorted(out@),
            forall|y: i64| out@.contains(y) <==> xs@.take(i as int).contains(y),
        decreases xs@.len() - i,
    {
        let ghost prefix = xs@.take(i as int);
        insert_unique_sorted(&mut out, xs[i]);
        proof {
            assert(xs@.take(i + 1) =~= prefix.push(xs@[i as int]));
            assert forall|y: i64| out@.contains(y) <==> xs@.take(i + 1).contains(y) by {
                lemma_contains_push(prefix, xs@[i as int], y);
            }
        }
        i = i + 1;
    }
    proof {
        assert(xs@.take(xs@.len() as int) =~= xs@);
    }
    out
}

/// Look for `key` in a strictly increasing slice. Found: the index it sits
/// at. Not found: the index at which inserting it would keep the order.
pub fn binary_search(xs: &[i64], key: i64) -> (r: Result<usize, usize>)
    requires
        strictly_sorted(xs@),
    ensures
        (r matches Ok(i) ==> i < xs@.len() && xs@[i as int] == key),
        (r matches Err(i) ==> i <= xs@.len() && (forall|k: int| 0 <= k < i ==> xs@[k] < key) && (
        forall|k: int| i <= k < xs@.len() ==> xs@[k] > key)),
{
    let n = xs.len();
    let mut lo: usize = 0;
    let mut hi: usize = n;
    while lo < hi
        invariant
            lo <= hi <= n,
            n == xs@.len(),
            strictly_sorted(xs@),
            forall|k: int| 0 <= k < lo ==> xs@[k] < key,
            forall|k: int| hi <= k < n ==> xs@[k] > key,
        decreases hi - lo,
    {
        let mid = lo + (hi - lo) / 2;
        let v = xs[mid];
        if v == key {
            return Ok(mid);
        } else if v < key {
            proof {
                assert forall|k: int| 0 <= k < mid + 1 implies xs@[k] < key by {
                    if k < mid {
                        assert(xs@[k] < xs@[mid as int]);
                    }
                }
            }
            lo = mid + 1;
        } else {
            proof {
                assert forall|k: int| mid <= k < n implies xs@[k] > key by {
                    if k > mid {
                        assert(xs@[mid as int] < xs@[k]);
                    }
                }
            }
            hi = mid;
        }
    }
    Err(lo)
}

/// The sum of the bytes of `s`.
pub open spec fn byte_sum(s: Seq<u8>) -> int
    decreases s.len(),
{
    if s.len() == 0 {
        0
    } else {
        byte_sum(s.drop_last()) + s.last()
    }
}

/// A byte sum never exceeds 255 per byte.
proof fn lemma_byte_sum_bound(s: Seq<u8>)
    ensures
        0 <= byte_sum(s) <= 255 * s.len(),
    decreases s.len(),
{
    if s.len() > 0 {
        lemma_byte_sum_bound(s.drop_last());
    }
}

/// Add up the bytes of `data` as a `u64`.
pub fn sum_bytes(data: &[u8]) -> (r: u64)
    requires
        255 * data@.len() <= u64::MAX,
    ensures
        r as int == byte_sum(data@),
{
    let n = data.len();
    let mut s: u64 = 0;
    let mut i: usize = 0;
    while i < n
        invariant
            i <= n,
            n == data@.len(),
            255 * data@.len() <= u64::MAX,
            s as int == byte_sum(data@.take(i as int)),
        decreases n - i,
    {
        proof {
            lemma_byte_sum_bound(data@.take(i as int));
            assert(data@.take(i + 1).drop_last() =~= data@.take(i as int));
            assert(data@.take(i + 1).last() == data@[i as int]);
        }
        s = s + data[i] as u64;
        i = i + 1;
    }
    proof {
        assert(data@.take(n as int) =~= data@);
    }
    s
}

} // verus!
