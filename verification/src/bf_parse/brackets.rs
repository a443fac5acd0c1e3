//! Bracket structure of an arena: which `LoopEnd` closes which `LoopStart`,
//! and where a forward scan for the closing bracket comes to rest.

use vstd::prelude::*;
use crate::bf_parse::model::ARENA_SIZE;
use crate::bf_parse::opcode::OpCode;

verus! {

/// What a cell adds to the nesting depth: one for a `LoopStart`, minus one for
/// a `LoopEnd`, nothing for any other cell.
pub open spec fn bracket_weight(cell: u8) -> int {
    match OpCode::spec_decode(cell) {
        Some(OpCode::LoopStart) => 1,
        Some(OpCode::LoopEnd) => -1,
        _ => 0,
    }
}

/// Loops opened minus loops closed by the cells in `[from, to)`.
pub open spec fn balance(mem: Seq<u8>, from: int, to: int) -> int
    decreases to - from,
{
    if to <= from {
        0
    } else {
        balance(mem, from, to - 1) + bracket_weight(mem[to - 1])
    }
}

/// The cells in `[from, to)` form a well-nested run of brackets: no prefix
/// closes more loops than it opens, and the whole run closes every loop it opens.
pub open spec fn well_nested(mem: Seq<u8>, from: int, to: int) -> bool {
    &&& balance(mem, from, to) == 0
    &&& forall|t: int| from <= t <= to ==> #[trigger] balance(mem, from, t) >= 0
}

/// The cell at `end` is the `LoopEnd` that closes the `LoopStart` at `start`:
/// everything between the two is well nested.
pub open spec fn matching(mem: Seq<u8>, start: int, end: int) -> bool {
    &&& 0 <= start < end < mem.len()
    &&& OpCode::spec_decode(mem[start]) == Some(OpCode::LoopStart)
    &&& OpCode::spec_decode(mem[end]) == Some(OpCode::LoopEnd)
    &&& well_nested(mem, start + 1, end)
}

/// Every cell in `[from, to)` decodes to an operation.
pub open spec fn decodable(mem: Seq<u8>, from: int, to: int) -> bool {
    forall|i: int| from <= i < to ==> (#[trigger] OpCode::spec_decode(mem[i])) is Some
}

/// A forward scan that left `start` stops at `t`: the arena ends there, or the
/// cell cannot be decoded, or it is a `LoopEnd` met with every loop opened
/// since `start` already closed.
pub open spec fn scan_stops_at(mem: Seq<u8>, start: int, t: int) -> bool {
    ||| t == mem.len()
    ||| OpCode::spec_decode(mem[t]) is None
    ||| (OpCode::spec_decode(mem[t]) == Some(OpCode::LoopEnd) && balance(mem, start + 1, t) == 0)
}

/// `t` is the first place after `start` at which the scan stops.
pub open spec fn first_stop(mem: Seq<u8>, start: int, t: int) -> bool {
    &&& start < t <= mem.len()
    &&& scan_stops_at(mem, start, t)
    &&& forall|u: int| start < u < t ==> !#[trigger] scan_stops_at(mem, start, u)
}

/// Where the scan that skips the loop opened at `start` comes to rest.
pub open spec fn scan_stop(mem: Seq<u8>, start: int) -> int {
    choose|t: int| first_stop(mem, start, t)
}

/// With no stop in `(start, u)`, the scan's resting place is at `u` or beyond.
proof fn lemma_stop_from(mem: Seq<u8>, start: int, u: int) -> (t: int)
    requires
        start < u <= mem.len(),
        forall|v: int| start < v < u ==> !#[trigger] scan_stops_at(mem, start, v),
    ensures
        first_stop(mem, start, t),
    decreases mem.len() - u,
{
    if scan_stops_at(mem, start, u) {
        u
    } else {
        lemma_stop_from(mem, start, u + 1)
    }
}

/// A scan that starts inside the arena comes to rest somewhere.
pub proof fn lemma_scan_stop_exists(mem: Seq<u8>, start: int)
    requires
        start < mem.len(),
    ensures
        first_stop(mem, start, scan_stop(mem, start)),
{
    let t = lemma_stop_from(mem, start, start + 1);
}

/// The scan has exactly one resting place.
pub proof fn lemma_first_stop_unique(mem: Seq<u8>, start: int, t: int)
    requires
        first_stop(mem, start, t),
    ensures
        scan_stop(mem, start) == t,
{
    let c = scan_stop(mem, start);
    assert(first_stop(mem, start, c));
    if c < t {
        assert(!scan_stops_at(mem, start, c));
    } else if t < c {
        assert(!scan_stops_at(mem, start, t));
    }
}

/// Extending a run by one cell adds that cell's weight.
pub proof fn lemma_balance_step(mem: Seq<u8>, from: int, to: int)
    requires
        from <= to,
    ensures
        balance(mem, from, to + 1) == balance(mem, from, to) + bracket_weight(mem[to]),
{
}

/// Before the scan stops, no prefix has closed more loops than it opened,
/// and every cell passed can be decoded.
pub proof fn lemma_before_stop(mem: Seq<u8>, start: int, t: int, u: int)
    requires
        0 <= start,
        first_stop(mem, start, t),
        start < u <= t,
    ensures
        balance(mem, start + 1, u) >= 0,
        decodable(mem, start + 1, u),
    decreases u - start,
{
    if u > start + 1 {
        lemma_before_stop(mem, start, t, u - 1);
        assert(!scan_stops_at(mem, start, u - 1));
        lemma_balance_step(mem, start + 1, u - 1);
        assert forall|i: int| start + 1 <= i < u implies (#[trigger] OpCode::spec_decode(
            mem[i],
        )) is Some by {
            if i < u - 1 {
                assert(decodable(mem, start + 1, u - 1));
            }
        }
    }
}

/// A scan from a `LoopStart` stops first at the `LoopEnd` that matches it,
/// however deeply loops are nested in between, provided that every cell up to
/// there can be decoded.
pub proof fn lemma_scan_stops_at_matching(mem: Seq<u8>, start: int, end: int)
    requires
        matching(mem, start, end),
        decodable(mem, start + 1, end),
    ensures
        scan_stop(mem, start) == end,
{
    assert forall|u: int| start < u < end implies !#[trigger] scan_stops_at(mem, start, u) by {
        assert(OpCode::spec_decode(mem[u]) is Some);
        if OpCode::spec_decode(mem[u]) == Some(OpCode::LoopEnd) {
            lemma_balance_step(mem, start + 1, u);
            assert(balance(mem, start + 1, u + 1) >= 0);
        }
    }
    lemma_first_stop_unique(mem, start, end);
}

/// Where the scan stops at a `LoopEnd`, that `LoopEnd` matches the
/// `LoopStart` the scan left.
pub proof fn lemma_stop_is_matching(mem: Seq<u8>, start: int, t: int)
    requires
        0 <= start,
        OpCode::spec_decode(mem[start]) == Some(OpCode::LoopStart),
        first_stop(mem, start, t),
        t < mem.len(),
        OpCode::spec_decode(mem[t]) is Some,
    ensures
        matching(mem, start, t),
        decodable(mem, start + 1, t),
{
    lemma_before_stop(mem, start, t, t);
    assert forall|u: int| start + 1 <= u <= t implies #[trigger] balance(mem, start + 1, u)
        >= 0 by {
        lemma_before_stop(mem, start, t, u);
    }
}

/// Scans forward from the cell after `start` to where the scan comes to rest:
/// the `LoopEnd` that closes the loop opened at `start`, or the first cell on
/// the way that cannot be decoded, or the end of the arena.
pub fn scan_forward(mem: &[u8; ARENA_SIZE], start: usize) -> (stop: usize)
    requires
        start < ARENA_SIZE,
    ensures
        start < stop <= ARENA_SIZE,
        first_stop(mem@, start as int, stop as int),
        stop == scan_stop(mem@, start as int),
{
    let mut pos: usize = start + 1;
    let mut open: usize = 0;
    while pos < ARENA_SIZE
        invariant
            start < pos <= ARENA_SIZE,
            mem@.len() == ARENA_SIZE,
            open == balance(mem@, start + 1, pos as int),
            open < pos - start,
            forall|u: int| start < u < pos ==> !#[trigger] scan_stops_at(mem@, start as int, u),
        ensures
            scan_stops_at(mem@, start as int, pos as int),
        decreases ARENA_SIZE - pos,
    {
        proof {
            lemma_balance_step(mem@, start + 1, pos as int);
        }
        match OpCode::decode(mem[pos]) {
            None => {
                break;
            },
            Some(OpCode::LoopStart) => {
                open += 1;
            },
            Some(OpCode::LoopEnd) => {
                if open == 0 {
                    break;
                }
                open -= 1;
            },
            Some(_) => {},
        }
        pos += 1;
    }
    proof {
        lemma_first_stop_unique(mem@, start as int, pos as int);
    }
    pos
}

} // verus!
