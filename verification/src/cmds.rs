//! A tiny command list: additions and subtractions folded over an
//! accumulator that starts at zero.

use vstd::prelude::*;

verus! {

/// One command: add or subtract an amount.
#[derive(Clone, Copy)]
pub enum Cmd {
    Add(i64),
    Sub(i64),
}

/// What one command does to the accumulator.
pub open spec fn apply_cmd(acc: int, c: Cmd) -> int {
    match c {
        Cmd::Add(x) => acc + x,
        Cmd::Sub(x) => acc - x,
    }
}

/// The accumulator after running every command in order, starting at `acc`.
pub open spec fn eval_cmds(cmds: Seq<Cmd>, acc: int) -> int
    decreases cmds.len(),
{
    if cmds.len() == 0 {
        acc
    } else {
        eval_cmds(cmds.drop_first(), apply_cmd(acc, cmds.first()))
    }
}

/// Running one more command applies it to the result so far.
proof fn lemma_eval_cmds_push(cmds: Seq<Cmd>, c: Cmd, acc: int)
    ensures
        eval_cmds(cmds.push(c), acc) == apply_cmd(eval_cmds(cmds, acc), c),
    decreases cmds.len(),
{
    if cmds.len() == 0 {
        assert(cmds.push(c).first() == c);
        assert(cmds.push(c).drop_first() =~= Seq::<Cmd>::empty());
        assert(eval_cmds(cmds.push(c), acc) == eval_cmds(
            Seq::<Cmd>::empty(),
            apply_cmd(acc, c),
        ));
        assert(eval_cmds(Seq::<Cmd>::empty(), apply_cmd(acc, c)) == apply_cmd(acc, c));
        assert(eval_cmds(cmds, acc) == acc);
    } else {
        assert(cmds.push(c).first() == cmds.first());
        assert(cmds.push(c).drop_first() =~= cmds.drop_first().push(c));
        lemma_eval_cmds_push(cmds.drop_first(), c, apply_cmd(acc, cmds.first()));
        assert(eval_cmds(cmds.push(c), acc) == eval_cmds(
            cmds.drop_first().push(c),
            apply_cmd(acc, cmds.first()),
        ));
        assert(eval_cmds(cmds, acc) == eval_cmds(
            cmds.drop_first(),
            apply_cmd(acc, cmds.first()),
        ));
    }
}

/// Run the commands over an accumulator that starts at zero. Every
/// intermediate value must stay in `i64` range, as the running
/// accumulator is itself an `i64`.
pub fn run_cmds(cmds: &Vec<Cmd>) -> (r: i64)
    requires
        forall|k: int|
            0 <= k <= cmds@.len() ==> i64::MIN <= #[trigger] eval_cmds(cmds@.take(k), 0)
                <= i64::MAX,
    ensures
        r as int == eval_cmds(cmds@, 0),
{
    let n = cmds.len();
    let mut acc: i64 = 0;
    let mut i: usize = 0;
    proof {
        assert(cmds@.take(0) =~= Seq::<Cmd>::empty());
    }
    while i < n
        invariant
            i <= n,
            n == cmds@.len(),
            forall|k: int|
                0 <= k <= cmds@.len() ==> i64::MIN <= #[trigger] eval_cmds(cmds@.take(k), 0)
                    <= i64::MAX,
            acc as int == eval_cmds(cmds@.take(i as int), 0),
        decreases n - i,
    {
        proof {
            assert(cmds@.take(i + 1) =~= cmds@.take(i as int).push(cmds@[i as int]));
            lemma_eval_cmds_push(cmds@.take(i as int), cmds@[i as int], 0);
        }
        acc = match cmds[i] {
            Cmd::Add(x) => acc + x,
            Cmd::Sub(x) => acc - x,
        };
        i = i + 1;
    }
    proof {
        assert(cmds@.take(n as int) =~= cmds@);
    }
    acc
}

} // verus!
