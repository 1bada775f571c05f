//! Arithmetic workloads: running sums of `0..n` with wrapping addition,
//! and the proposal step of an even-only retry loop.
//!
//! The running sum of `0..n` is the triangular number `n * (n - 1) / 2`;
//! with wrapping addition the result is that number reduced modulo `2^64`.

use vstd::prelude::*;
use vstd::arithmetic::div_mod::{lemma_add_mod_noop_right, lemma_mod_multiples_vanish, lemma_small_mod};

verus! {

/// `2^64`, the modulus of wrapping `u64` arithmetic.
pub open spec fn wrap_modulus() -> int {
    0x1_0000_0000_0000_0000
}

/// The sum `0 + 1 + ... + (n - 1)`.
pub open spec fn sum_below(n: int) -> int
    decreases n,
{
    if n <= 0 {
        0
    } else {
        sum_below(n - 1) + (n - 1)
    }
}

/// The running sum of `0..n` is the triangular number: doubled, it is
/// `n * (n - 1)`.
proof fn lemma_sum_below_closed_form(n: int)
    requires
        n >= 0,
    ensures
        2 * sum_below(n) == n * (n - 1),
    decreases n,
{
    if n == 0 {
        assert(n * (n - 1) == 0) by (nonlinear_arith)
            requires
                n == 0,
        ;
    } else {
        lemma_sum_below_closed_form(n - 1);
        let s1 = sum_below(n - 1);
        assert(2 * (s1 + (n - 1)) == n * (n - 1)) by (nonlinear_arith)
            requires
                2 * s1 == (n - 1) * (n - 1 - 1),
        ;
        assert(sum_below(n) == s1 + (n - 1));
    }
}

/// The running sums of `0..n` grow with `n`.
proof fn lemma_sum_below_monotonic(a: int, b: int)
    requires
        0 <= a <= b,
    ensures
        sum_below(a) <= sum_below(b),
    decreases b - a,
{
    if a < b {
        lemma_sum_below_monotonic(a, b - 1);
    }
}

/// Fold `0..n` with wrapping addition: the triangular number
/// `n * (n - 1) / 2`, reduced modulo `2^64`.
pub fn compute(n: u64) -> (r: u64)
    ensures
        r as int == sum_below(n as int) % wrap_modulus(),
{
    let mut s: u64 = 0;
    let mut i: u64 = 0;
    while i < n
        invariant
            i <= n,
            s as int == sum_below(i as int) % wrap_modulus(),
        decreases n - i,
    {
        proof {
            lemma_add_mod_noop_right(i as int, sum_below(i as int), wrap_modulus());
            if s + i <= u64::MAX {
                lemma_small_mod((s + i) as nat, wrap_modulus() as nat);
            } else {
                lemma_mod_multiples_vanish(1, s + i - wrap_modulus(), wrap_modulus());
                lemma_small_mod((s + i - wrap_modulus()) as nat, wrap_modulus() as nat);
            }
        }
        s = s.wrapping_add(i);
        i = i + 1;
    }
    s
}

/// What a compare-and-swap retry loop raising an even counter would
/// propose next: an odd count is left alone; an even one is raised by two.
pub fn propose_even_increment(cur: u64) -> (r: Option<u64>)
    requires
        cur + 2 <= u64::MAX,
    ensures
        cur % 2 == 1 ==> r is None,
        cur % 2 == 0 ==> r == Some((cur + 2) as u64),
{
    if cur % 2 == 1 {
        None
    } else {
        Some(cur + 2)
    }
}

/// A fixed workload: the running sum of `0..50000`, which stays within
/// `u64` range, so wrapping addition never wraps and the result is exactly
/// `49999 * 50000 / 2`.
pub fn heavy() -> (r: u64)
    ensures
        r == 1249975000u64,
{
    let mut s: u64 = 0;
    let mut i: u64 = 0;
    while i < 50000
        invariant
            i <= 50000,
            s as int == sum_below(i as int),
            s <= 1249975000,
        decreases 50000 - i,
    {
        proof {
            lemma_sum_below_monotonic(i as int + 1, 50000int);
            lemma_sum_below_closed_form(50000int);
        }
        s = s.wrapping_add(i);
        i = i + 1;
    }
    proof {
        lemma_sum_below_closed_form(50000int);
    }
    s
}

} // verus!
