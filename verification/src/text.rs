//! Text utilities: whitespace normalization, owned-string conversion,
//! greetings, and comma-joining.
//!
//! `normalize_whitespace` rewrites a string only when it contains a tab or a
//! newline; the rewritten form is the string's words joined by single
//! spaces, with leading and trailing whitespace dropped. A string without a
//! tab or newline comes back unchanged, even when it holds repeated spaces.

use vstd::prelude::*;
use vstd::string::StrSliceExecFns;
use vstd::string::StringExecFns;

verus! {

/// The whitespace characters that separate words.
pub open spec fn is_space(c: char) -> bool {
    c == ' ' || c == '\t' || c == '\n' || c == '\r'
}

/// Whether `c` is one of the whitespace characters.
fn space_char(c: char) -> (r: bool)
    ensures
        r == is_space(c),
{
    c == ' ' || c == '\t' || c == '\n' || c == '\r'
}

/// Whether the string holds a tab or a newline.
pub open spec fn has_break(s: Seq<char>) -> bool {
    exists|i: int| 0 <= i < s.len() && (s[i] == '\t' || s[i] == '\n')
}

/// The normalization of the suffix `s`, continuing a scan in which
/// `emitted` says whether a word character was already written and
/// `pending` says whether a space must be written before the next word
/// character.
pub open spec fn normalized_from(s: Seq<char>, emitted: bool, pending: bool) -> Seq<char>
    decreases s.len(),
{
    if s.len() == 0 {
        Seq::empty()
    } else if is_space(s.first()) {
        normalized_from(s.drop_first(), emitted, emitted)
    } else {
        (if pending {
            seq![' ']
        } else {
            Seq::<char>::empty()
        }) + seq![s.first()] + normalized_from(s.drop_first(), true, false)
    }
}

/// The words of `s` joined by single spaces: every run of whitespace
/// collapses to one space, and leading and trailing whitespace disappears.
pub open spec fn normalized(s: Seq<char>) -> Seq<char> {
    normalized_from(s, false, false)
}

/// Whether `input` holds a tab or a newline.
fn has_tab_or_newline(input: &str) -> (r: bool)
    ensures
        r == has_break(input@),
{
    let n = input.unicode_len();
    let mut i: usize = 0;
    while i < n
        invariant
            i <= n,
            n == input@.len(),
            forall|k: int| 0 <= k < i ==> !(#[trigger] input@[k] == '\t' || input@[k] == '\n'),
        decreases n - i,
    {
        let c = input.get_char(i);
        if c == '\t' || c == '\n' {
            return true;
        }
        i = i + 1;
    }
    false
}

/// Relies on `String::push`: it appends exactly the given character.
#[verifier::external_body]
fn push_char(s: &mut String, c: char)
    ensures
        final(s)@ == old(s)@.push(c),
{
    s.push(c);
}

/// Collapse whitespace to single spaces, but only when the input holds a
/// tab or a newline; otherwise hand the input back unchanged.
pub fn normalize_whitespace(input: &str) -> (r: String)
    ensures
        has_break(input@) ==> r@ == normalized(input@),
        !has_break(input@) ==> r@ == input@,
{
    if !has_tab_or_newline(input) {
        return input.to_owned();
    }
    let n = input.unicode_len();
    let mut out = String::new();
    let mut emitted = false;
    let mut pending = false;
    let mut i: usize = 0;
    proof {
        assert(input@.skip(0) =~= input@);
        assert(Seq::<char>::empty() + normalized(input@) =~= normalized(input@));
    }
    while i < n
        invariant
            i <= n,
            n == input@.len(),
            pending ==> emitted,
            normalized(input@) == out@ + normalized_from(
                input@.skip(i as int),
                emitted,
                pending,
            ),
        decreases n - i,
    {
        let ghost suffix = input@.skip(i as int);
        proof {
            assert(suffix.first() == input@[i as int]);
            assert(suffix.drop_first() =~= input@.skip(i + 1));
        }
        let c = input.get_char(i);
        if space_char(c) {
            pending = emitted;
        } else {
            let ghost before = out@;
            if pending {
                push_char(&mut out, ' ');
            }
            push_char(&mut out, c);
            proof {
                if pending {
                    assert(out@ =~= before + seq![' '] + seq![c]);
                    assert(out@ + normalized_from(input@.skip(i + 1), true, false) =~= before
                        + normalized_from(suffix, emitted, pending));
                } else {
                    assert(out@ =~= before + seq![c]);
                    assert(out@ + normalized_from(input@.skip(i + 1), true, false) =~= before
                        + normalized_from(suffix, emitted, pending));
                }
            }
            emitted = true;
            pending = false;
        }
        i = i + 1;
    }
    proof {
        assert(input@.skip(n as int) =~= Seq::<char>::empty());
        assert(out@ + Seq::<char>::empty() =~= out@);
    }
    out
}

/// Take ownership of the text and append an exclamation mark.
pub fn needs_owned(s: &str) -> (r: String)
    ensures
        r@ == s@ + "!"@,
{
    let mut owned = s.to_owned();
    owned.append("!");
    owned
}

/// The greeting a thing called `name` offers: `Hello from {name}!`.
pub fn hello_world(name: &str) -> (r: String)
    ensures
        r@ == "Hello from "@ + name@ + "!"@,
{
    let mut out = "Hello from ".to_owned();
    out.append(name);
    out.append("!");
    out
}

/// The pieces joined with a single comma between neighbours.
pub open spec fn joined_csv(parts: Seq<Seq<char>>) -> Seq<char>
    decreases parts.len(),
{
    if parts.len() == 0 {
        Seq::empty()
    } else if parts.len() == 1 {
        parts[0]
    } else {
        joined_csv(parts.drop_last()) + seq![','] + parts.last()
    }
}

/// Join the pieces with commas: `["a", "1 + 2"]` becomes `"a,1 + 2"`.
pub fn csv(parts: &Vec<String>) -> (r: String)
    ensures
        r@ == joined_csv(parts.deep_view()),
{
    let ghost dv = parts.deep_view();
    proof {
        assert(dv.take(0) =~= Seq::<Seq<char>>::empty());
    }
    let n = parts.len();
    let mut out = String::new();
    let mut i: usize = 0;
    while i < n
        invariant
            i <= n,
            n == parts@.len(),
            dv == parts.deep_view(),
            dv.len() == n,
            forall|k: int| 0 <= k < n ==> #[trigger] dv[k] == parts@[k]@,
            out@ == joined_csv(dv.take(i as int)),
        decreases n - i,
    {
        let ghost before = out@;
        if i > 0 {
            push_char(&mut out, ',');
        }
        out.append(parts[i].as_str());
        proof {
            assert(dv.take(i + 1).drop_last() =~= dv.take(i as int));
            assert(dv.take(i + 1).last() == dv[i as int]);
            if i == 0 {
                assert(out@ =~= dv[0]);
                assert(joined_csv(dv.take(1)) == dv.take(1)[0]);
            } else {
                assert(out@ =~= before + seq![','] + dv[i as int]);
            }
        }
        i = i + 1;
    }
    proof {
        assert(dv.take(n as int) =~= dv);
    }
    out
}

} // verus!
