//! Classification of integers into named buckets, as a `match` over
//! literals, alternatives, ranges and guards would sort them.

use vstd::prelude::*;

verus! {

/// The label `ex_match_basics` picks for `x`.
pub open spec fn match_label(x: int) -> Seq<char> {
    if x == 0 {
        "zero"@
    } else if x == 1 || x == 2 {
        "one or two"@
    } else if 3 <= x <= 9 {
        "three to nine (inclusive)"@
    } else {
        "something else"@
    }
}

/// Sort `x` into one of four buckets: zero, one-or-two, three-to-nine, or
/// anything else.
pub fn ex_match_basics(x: i32) -> (r: &'static str)
    ensures
        r@ == match_label(x as int),
{
    match x {
        0 => "zero",
        1 | 2 => "one or two",
        3..=9 => "three to nine (inclusive)",
        _ => "something else",
    }
}

/// The label `ex_guards_bindings_ranges` picks for `x`.
pub open spec fn range_label(x: int) -> Seq<char> {
    if -3 <= x <= 3 {
        "small or near zero"@
    } else if x % 2 == 0 {
        "even by guard"@
    } else {
        "other"@
    }
}

/// Sort `x` by nearness to zero first, evenness second.
pub fn ex_guards_bindings_ranges(x: i32) -> (r: &'static str)
    ensures
        r@ == range_label(x as int),
{
    if -3 <= x && x <= 3 {
        "small or near zero"
    } else if x % 2 == 0 {
        "even by guard"
    } else {
        "other"
    }
}

} // verus!
