//! Building and applying adder closures.

use vstd::prelude::*;

verus! {

/// A closure that adds `n` to its argument. The closure accepts any
/// argument whose sum with `n` stays in range, and returns exactly that
/// sum.
pub fn make_adder(n: i32) -> (f: impl Fn(i32) -> i32)
    ensures
        forall|x: i32|
            i32::MIN <= x + n <= i32::MAX ==> #[trigger] call_requires(f, (x,)),
        forall|x: i32, r: i32| #[trigger] call_ensures(f, (x,), r) ==> r == x + n,
{
    move |x: i32| -> (res: i32)
        requires
            i32::MIN <= x + n <= i32::MAX,
        ensures
            res == x + n,
        {
            x + n
        }
}

/// Build the adder for `n` and apply it to `x`.
pub fn example_returning_closure(n: i32, x: i32) -> (r: i32)
    requires
        i32::MIN <= x + n <= i32::MAX,
    ensures
        r == x + n,
{
    let add_n = make_adder(n);
    add_n(x)
}

} // verus!
