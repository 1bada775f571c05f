//! Frequency counting: how often each character occurs in a text.
//!
//! The result is an association vector with one entry per distinct
//! character, each carrying that character's exact number of occurrences.

use vstd::prelude::*;
use vstd::string::StrSliceExecFns;

verus! {

/// How many times `c` occurs in `s`.
pub open spec fn count_of(s: Seq<char>, c: char) -> int
    decreases s.len(),
{
    if s.len() == 0 {
        0int
    } else {
        count_of(s.drop_last(), c) + if s.last() == c {
            1int
        } else {
            0int
        }
    }
}

/// Occurrences never outnumber the characters.
proof fn lemma_count_of_bound(s: Seq<char>, c: char)
    ensures
        0 <= count_of(s, c) <= s.len(),
    decreases s.len(),
{
    if s.len() > 0 {
        lemma_count_of_bound(s.drop_last(), c);
    }
}

/// Extending the text by one character raises exactly that character's
/// count by one.
proof fn lemma_count_of_push(s: Seq<char>, x: char, c: char)
    ensures
        count_of(s.push(x), c) == count_of(s, c) + if x == c {
            1int
        } else {
            0int
        },
{
    assert(s.push(x).drop_last() =~= s);
}

/// A character that does not occur has count zero.
proof fn lemma_count_of_absent(s: Seq<char>, c: char)
    requires
        !s.contains(c),
    ensures
        count_of(s, c) == 0,
    decreases s.len(),
{
    if s.len() > 0 {
        assert(forall|i: int| 0 <= i < s.len() - 1 ==> s.drop_last()[i] == s[i]);
        lemma_count_of_absent(s.drop_last(), c);
    }
}

/// Count how often each character occurs in `text`. The entries carry
/// distinct characters, each with its exact count, and every character of
/// the text has an entry.
pub fn char_frequency(text: &str) -> (r: Vec<(char, usize)>)
    ensures
        forall|i: int, j: int| 0 <= i < j < r@.len() ==> (#[trigger] r@[i]).0 != (#[trigger] r@[j]).0,
        forall|i: int|
            0 <= i < r@.len() ==> (#[trigger] r@[i]).1 == count_of(text@, r@[i].0) && text@.contains(
                r@[i].0,
            ),
        forall|c: char| text@.contains(c) ==> exists|i: int| 0 <= i < r@.len() && (#[trigger] r@[i]).0 == c,
{
    let n = text.unicode_len();
    let mut out: Vec<(char, usize)> = Vec::new();
    let mut i: usize = 0;
    proof {
        assert(text@.take(0) =~= Seq::<char>::empty());
    }
    while i < n
        invariant
            i <= n,
            n == text@.len(),
            forall|a: int, b: int|
                0 <= a < b < out@.len() ==> (#[trigger] out@[a]).0 != (#[trigger] out@[b]).0,
            forall|a: int|
                0 <= a < out@.len() ==> (#[trigger] out@[a]).1 == count_of(
                    text@.take(i as int),
                    out@[a].0,
                ) && text@.take(i as int).contains(out@[a].0),
            forall|c: char|
                text@.take(i as int).contains(c) ==> exists|a: int|
                    0 <= a < out@.len() && (#[trigger] out@[a]).0 == c,
        decreases n - i,
    {
        let ghost prefix = text@.take(i as int);
        let c = text.get_char(i);
        proof {
            assert(text@.take(i + 1) =~= prefix.push(c));
            assert forall|d: char| count_of(text@.take(i + 1), d) == count_of(prefix, d) + (if d
                == c {
                1int
            } else {
                0int
            }) by {
                lemma_count_of_push(prefix, c, d);
            }
            assert(text@.take(i + 1)[i as int] == c);
        }
        let mut j: usize = 0;
        let mut found = false;
        while j < out.len() && !found
            invariant
                j <= out@.len(),
                !found ==> forall|a: int| 0 <= a < j ==> (#[trigger] out@[a]).0 != c,
                found ==> j > 0 && j - 1 < out@.len() && out@[j - 1].0 == c,
            decreases out@.len() - j + if found {
                0int
            } else {
                1int
            },
        {
            if out[j].0 == c {
                found = true;
            }
            j = j + 1;
        }
        let ghost old_out = out@;
        if found {
            let entry = out[j - 1];
            proof {
                lemma_count_of_bound(prefix, c);
            }
            out.set(j - 1, (entry.0, entry.1 + 1));
        } else {
            proof {
                if prefix.contains(c) {
                    let a = choose|a: int| 0 <= a < out@.len() && (#[trigger] out@[a]).0 == c;
                    assert(false);
                }
                lemma_count_of_absent(prefix, c);
            }
            out.push((c, 1));
        }
        proof {
            assert forall|d: char| #[trigger] text@.take(i + 1).contains(d) implies exists|a: int|
                0 <= a < out@.len() && (#[trigger] out@[a]).0 == d by {
                let k = choose|k: int|
                    0 <= k < text@.take(i + 1).len() && #[trigger] text@.take(i + 1)[k] == d;
                if k < i {
                    assert(prefix[k] == d);
                    assert(prefix.contains(d));
                    let a = choose|a: int| 0 <= a < old_out.len() && (#[trigger] old_out[a]).0
                        == d;
                    assert(out@[a].0 == d);
                } else {
                    assert(d == c);
                    if found {
                        assert(out@[j - 1].0 == c);
                    } else {
                        assert(out@[out@.len() - 1].0 == c);
                    }
                }
            }
        }
        i = i + 1;
    }
    proof {
        assert(text@.take(n as int) =~= text@);
    }
    out
}

} // verus!
