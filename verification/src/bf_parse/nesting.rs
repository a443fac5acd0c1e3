//! The loops that a stretch of the arena leaves open, and how they relate to
//! the matching of brackets.

use vstd::prelude::*;
use crate::bf_parse::brackets::balance;
use crate::bf_parse::brackets::bracket_weight;
use crate::bf_parse::brackets::matching;
use crate::bf_parse::brackets::well_nested;
use crate::bf_parse::opcode::OpCode;

verus! {

/// The addresses of the `LoopStart` cells in `[0, upto)` that no `LoopEnd`
/// in `[0, upto)` closes, outermost first. A `LoopEnd` that finds no loop
/// open closes none.
pub open spec fn open_loops(mem: Seq<u8>, upto: int) -> Seq<int>
    decreases upto,
{
    if upto <= 0 {
        Seq::empty()
    } else {
        let before = open_loops(mem, upto - 1);
        if bracket_weight(mem[upto - 1]) == 1 {
            before.push(upto - 1)
        } else if bracket_weight(mem[upto - 1]) == -1 && before.len() > 0 {
            before.drop_last()
        } else {
            before
        }
    }
}

/// The greatest number of loops open at once anywhere in `[0, upto)`.
pub open spec fn nesting_depth(mem: Seq<u8>, upto: int) -> nat
    decreases upto,
{
    if upto <= 0 {
        0
    } else {
        let before = nesting_depth(mem, upto - 1);
        if open_loops(mem, upto).len() > before {
            open_loops(mem, upto).len()
        } else {
            before
        }
    }
}

/// The balance of a run is the sum of the balances of its two parts.
pub proof fn lemma_balance_split(mem: Seq<u8>, from: int, mid: int, to: int)
    requires
        from <= mid <= to,
    ensures
        balance(mem, from, to) == balance(mem, from, mid) + balance(mem, mid, to),
    decreases to - mid,
{
    if mid < to {
        lemma_balance_split(mem, from, mid, to - 1);
    }
}

/// Which loops are open depends only on where the brackets stand.
pub proof fn lemma_open_loops_depend_on_brackets(first: Seq<u8>, second: Seq<u8>, upto: int)
    requires
        forall|i: int| 0 <= i < upto ==> bracket_weight(#[trigger] first[i]) == bracket_weight(second[i]),
    ensures
        open_loops(first, upto) == open_loops(second, upto),
    decreases upto,
{
    if upto > 0 {
        lemma_open_loops_depend_on_brackets(first, second, upto - 1);
        assert(bracket_weight(first[upto - 1]) == bracket_weight(second[upto - 1]));
    }
}

/// No more loops are open at any place than the nesting depth says.
pub proof fn lemma_open_loops_within_depth(mem: Seq<u8>, at: int, upto: int)
    requires
        at <= upto,
    ensures
        open_loops(mem, at).len() <= nesting_depth(mem, upto),
    decreases upto,
{
    if upto > 0 && at < upto {
        lemma_open_loops_within_depth(mem, at, upto - 1);
    }
}

/// Over a run in which no prefix closes more loops than it opens, the loops
/// open before the run stay open, and the run's balance is added to them.
pub proof fn lemma_open_loops_grow(mem: Seq<u8>, from: int, to: int)
    requires
        0 <= from <= to,
        forall|t: int| from <= t <= to ==> #[trigger] balance(mem, from, t) >= 0,
    ensures
        open_loops(mem, to).len() == open_loops(mem, from).len() + balance(mem, from, to),
        open_loops(mem, to).subrange(0, open_loops(mem, from).len() as int) == open_loops(
            mem,
            from,
        ),
    decreases to - from,
{
    let base = open_loops(mem, from);
    if from < to {
        lemma_open_loops_grow(mem, from, to - 1);
        assert(balance(mem, from, to - 1) >= 0);
        assert(balance(mem, from, to) >= 0);
        let before = open_loops(mem, to - 1);
        assert(open_loops(mem, to).subrange(0, base.len() as int) =~= before.subrange(
            0,
            base.len() as int,
        ));
    } else {
        assert(base.subrange(0, base.len() as int) =~= base);
    }
}

/// A well-nested run leaves open exactly the loops that were open before it.
pub proof fn lemma_well_nested_keeps_open_loops(mem: Seq<u8>, from: int, to: int)
    requires
        0 <= from <= to,
        well_nested(mem, from, to),
    ensures
        open_loops(mem, to) == open_loops(mem, from),
{
    lemma_open_loops_grow(mem, from, to);
    let base = open_loops(mem, from);
    assert(open_loops(mem, to).subrange(0, base.len() as int) =~= open_loops(mem, to));
}

/// After a `LoopEnd`, the loops open are those that were open before its
/// matching `LoopStart`.
pub proof fn lemma_matching_keeps_open_loops(mem: Seq<u8>, start: int, end: int)
    requires
        matching(mem, start, end),
    ensures
        open_loops(mem, end + 1) == open_loops(mem, start),
        open_loops(mem, end).len() > 0,
        open_loops(mem, end).last() == start,
{
    lemma_well_nested_keeps_open_loops(mem, start + 1, end);
    let outside = open_loops(mem, start);
    assert(open_loops(mem, start + 1) == outside.push(start));
    assert(outside.push(start).drop_last() =~= outside);
}

/// The innermost loop open at `upto` was opened by a `LoopStart`, with the
/// same loops open as at `upto`, and all that follows it up to `upto` is
/// well nested.
pub proof fn lemma_innermost_open_loop(mem: Seq<u8>, upto: int)
    requires
        upto <= mem.len(),
        open_loops(mem, upto).len() > 0,
    ensures
        0 <= open_loops(mem, upto).last() < upto,
        OpCode::spec_decode(mem[open_loops(mem, upto).last()]) == Some(OpCode::LoopStart),
        open_loops(mem, open_loops(mem, upto).last() + 1) == open_loops(mem, upto),
        well_nested(mem, open_loops(mem, upto).last() + 1, upto),
    decreases upto,
{
    let open = open_loops(mem, upto);
    let top = open.last();
    let before = open_loops(mem, upto - 1);
    let weight = bracket_weight(mem[upto - 1]);
    if weight == 1 {
        assert(top == upto - 1);
        assert(balance(mem, upto, upto) == 0);
    } else if weight == -1 && before.len() > 0 {
        lemma_innermost_open_loop(mem, upto - 1);
        let inner = before.last();
        let outside = open_loops(mem, inner);
        assert(before == outside.push(inner));
        assert(outside.push(inner).drop_last() =~= outside);
        assert(open == outside);
        lemma_innermost_open_loop(mem, inner);
        assert(balance(mem, inner, inner) == 0);
        assert(balance(mem, inner, inner + 1) == 1);
        assert(balance(mem, top + 1, inner) == 0);
        assert(balance(mem, inner + 1, upto - 1) == 0);
        assert(balance(mem, inner + 1, upto) == -1);
        assert forall|t: int| top + 1 <= t <= upto implies #[trigger] balance(mem, top + 1, t)
            >= 0 by {
            if t > inner {
                lemma_balance_split(mem, top + 1, inner, t);
                lemma_balance_split(mem, inner, inner + 1, t);
                if t < upto {
                    assert(balance(mem, inner + 1, t) >= 0);
                }
            } else {
                assert(well_nested(mem, top + 1, inner));
            }
        }
        lemma_balance_split(mem, top + 1, inner, upto);
        lemma_balance_split(mem, inner, inner + 1, upto);
    } else {
        assert(open == before);
        lemma_innermost_open_loop(mem, upto - 1);
        assert(weight == 0);
        assert forall|t: int| top + 1 <= t <= upto implies #[trigger] balance(mem, top + 1, t)
            >= 0 by {
            if t == upto {
                assert(balance(mem, top + 1, upto - 1) >= 0);
            }
        }
    }
}

} // verus!
