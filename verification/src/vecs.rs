//! Vector kernels: summing a slice, bumping every element in place, and
//! keeping only the even elements.

use vstd::prelude::*;

verus! {

/// The sum of the elements of `s`.
pub open spec fn int_sum(s: Seq<i32>) -> int
    decreases s.len(),
{
    if s.len() == 0 {
        0
    } else {
        int_sum(s.drop_last()) + s.last()
    }
}

/// Add up the elements of `xs`. Every partial sum must stay in `i32`
/// range, as the running total is itself an `i32`.
pub fn sum(xs: &[i32]) -> (r: i32)
    requires
        forall|k: int|
            0 <= k <= xs@.len() ==> i32::MIN <= #[trigger] int_sum(xs@.take(k)) <= i32::MAX,
    ensures
        r as int == int_sum(xs@),
{
    let n = xs.len();
    let mut s: i32 = 0;
    let mut i: usize = 0;
    while i < n
        invariant
            i <= n,
            n == xs@.len(),
            forall|k: int|
                0 <= k <= xs@.len() ==> i32::MIN <= #[trigger] int_sum(xs@.take(k)) <= i32::MAX,
            s as int == int_sum(xs@.take(i as int)),
        decreases n - i,
    {
        proof {
            assert(xs@.take(i + 1).drop_last() =~= xs@.take(i as int));
            assert(xs@.take(i + 1).last() == xs@[i as int]);
            assert(int_sum(xs@.take(i + 1)) == int_sum(xs@.take(i as int)) + xs@[i as int]);
        }
        s = s + xs[i];
        i = i + 1;
    }
    proof {
        assert(xs@.take(n as int) =~= xs@);
    }
    s
}

/// Add one to every element, in place.
pub fn bump_all(xs: &mut Vec<i32>)
    requires
        forall|k: int| 0 <= k < old(xs)@.len() ==> #[trigger] old(xs)@[k] < i32::MAX,
    ensures
        final(xs)@.len() == old(xs)@.len(),
        forall|k: int| 0 <= k < old(xs)@.len() ==> #[trigger] final(xs)@[k] == old(xs)@[k] + 1,
{
    let n = xs.len();
    let mut i: usize = 0;
    while i < n
        invariant
            i <= n,
            n == xs@.len(),
            forall|k: int| i <= k < n ==> #[trigger] xs@[k] == old(xs)@[k],
            forall|k: int| 0 <= k < n ==> old(xs)@[k] < i32::MAX,
            forall|k: int| 0 <= k < i ==> #[trigger] xs@[k] == old(xs)@[k] + 1,
        decreases n - i,
    {
        let v = xs[i];
        xs.set(i, v + 1);
        i = i + 1;
    }
}

/// The evenness test applied by `into_even_only`.
pub open spec fn even_pred() -> spec_fn(i32) -> bool {
    |v: i32| v % 2 == 0
}

/// Filtering a sequence extended by one element keeps the filtered prefix
/// and appends the element exactly when it passes the test.
proof fn lemma_filter_push(s: Seq<i32>, x: i32, pred: spec_fn(i32) -> bool)
    ensures
        s.push(x).filter(pred) == if pred(x) {
            s.filter(pred).push(x)
        } else {
            s.filter(pred)
        },
{
    reveal(Seq::filter);
    assert(s.push(x).drop_last() =~= s);
    assert(s.push(x).last() == x);
}

/// Keep only the even elements, in their original order.
pub fn into_even_only(xs: Vec<i32>) -> (r: Vec<i32>)
    ensures
        r@ == xs@.filter(even_pred()),
{
    let n = xs.len();
    let mut out: Vec<i32> = Vec::new();
    let mut i: usize = 0;
    proof {
        reveal(Seq::filter);
        assert(xs@.take(0) =~= Seq::<i32>::empty());
    }
    while i < n
        invariant
            i <= n,
            n == xs@.len(),
            out@ == xs@.take(i as int).filter(even_pred()),
        decreases n - i,
    {
        proof {
            assert(xs@.take(i + 1) =~= xs@.take(i as int).push(xs@[i as int]));
            lemma_filter_push(xs@.take(i as int), xs@[i as int], even_pred());
        }
        let v = xs[i];
        if v % 2 == 0 {
            proof {
                assert(even_pred()(v));
            }
            out.push(v);
        } else {
            proof {
                assert(!even_pred()(v));
            }
        }
        i = i + 1;
    }
    proof {
        assert(xs@.take(n as int) =~= xs@);
    }
    out
}

} // verus!
