//! What holds of every step and of every run, stated over the model.

use vstd::prelude::*;
use crate::bf_parse::brackets::bracket_weight;
use crate::bf_parse::brackets::decodable;
use crate::bf_parse::brackets::lemma_scan_stop_exists;
use crate::bf_parse::brackets::lemma_scan_stops_at_matching;
use crate::bf_parse::brackets::lemma_stop_is_matching;
use crate::bf_parse::brackets::matching;
use crate::bf_parse::brackets::scan_stop;
use crate::bf_parse::machine::loaded;
use crate::bf_parse::model::Machine;
use crate::bf_parse::model::StepError;
use crate::bf_parse::model::ARENA_SIZE;
use crate::bf_parse::nesting::lemma_innermost_open_loop;
use crate::bf_parse::nesting::lemma_matching_keeps_open_loops;
use crate::bf_parse::nesting::lemma_open_loops_depend_on_brackets;
use crate::bf_parse::nesting::lemma_open_loops_within_depth;
use crate::bf_parse::nesting::nesting_depth;
use crate::bf_parse::opcode::OpCode;
use crate::bf_parse::opcode::Operation;

verus! {

/// `Plus` counts modulo 256: it turns 255 into 0 and every other value into
/// the next one, touches no other cell, and moves on by one instruction.
pub proof fn lemma_plus_wraps(m: Machine)
    requires
        m.wf(),
        m.opcode() == Some(OpCode::Plus),
        m.ip + 1 < ARENA_SIZE,
    ensures
        m.step() == Ok::<(Machine, Operation), StepError>(
            (
                Machine {
                    ip: m.ip + 1,
                    ..m.store(
                        if m.cell() == 255 {
                            0u8
                        } else {
                            (m.cell() + 1) as u8
                        },
                    )
                },
                Operation::Plus(),
            ),
        ),
{
}

/// `Minus` counts modulo 256: it turns 0 into 255 and every other value into
/// the one before, touches no other cell, and moves on by one instruction.
pub proof fn lemma_minus_wraps(m: Machine)
    requires
        m.wf(),
        m.opcode() == Some(OpCode::Minus),
        m.ip + 1 < ARENA_SIZE,
    ensures
        m.step() == Ok::<(Machine, Operation), StepError>(
            (
                Machine {
                    ip: m.ip + 1,
                    ..m.store(
                        if m.cell() == 0 {
                            255u8
                        } else {
                            (m.cell() - 1) as u8
                        },
                    )
                },
                Operation::Minus(),
            ),
        ),
{
}

/// A `LoopStart` that finds zero under the data pointer sends control to the
/// cell after its matching `LoopEnd`, however deeply loops are nested in
/// between, and changes nothing else.
pub proof fn lemma_skip_lands_past_matching_end(m: Machine, end: int)
    requires
        m.wf(),
        m.cell() == 0,
        matching(m.mem, m.ip, end),
        decodable(m.mem, m.ip + 1, end),
        end + 1 < ARENA_SIZE,
    ensures
        m.step() == Ok::<(Machine, Operation), StepError>(
            (Machine { ip: end + 1, ..m }, Operation::LoopStart()),
        ),
{
    lemma_scan_stops_at_matching(m.mem, m.ip, end);
}

/// Wherever a `LoopStart` that finds zero under the data pointer sends
/// control, the cell before is its matching `LoopEnd`.
pub proof fn lemma_skip_lands_nowhere_else(m: Machine)
    requires
        m.wf(),
        m.opcode() == Some(OpCode::LoopStart),
        m.cell() == 0,
        m.step() is Ok,
    ensures
        m.step() matches Ok((after, event)) && {
            &&& event == Operation::LoopStart()
            &&& after == (Machine { ip: after.ip, ..m })
            &&& matching(m.mem, m.ip, after.ip - 1)
            &&& decodable(m.mem, m.ip + 1, after.ip)
        },
{
    lemma_scan_stop_exists(m.mem, m.ip);
    let stop = scan_stop(m.mem, m.ip);
    lemma_stop_is_matching(m.mem, m.ip, stop);
    assert forall|i: int| m.ip + 1 <= i < stop + 1 implies (#[trigger] OpCode::spec_decode(
        m.mem[i],
    )) is Some by {
        if i < stop {
            assert(decodable(m.mem, m.ip + 1, stop));
        }
    }
}

/// A `LoopEnd` that finds a value other than zero under the data pointer
/// sends control to the cell after the innermost loop's recorded
/// `LoopStart`, and changes nothing else: the loop stays entered.
pub proof fn lemma_loop_end_repeats(m: Machine)
    requires
        m.wf(),
        m.opcode() == Some(OpCode::LoopEnd),
        m.cell() != 0,
        m.stack.len() > 0,
    ensures
        m.step() == Ok::<(Machine, Operation), StepError>(
            (Machine { ip: m.stack.last() + 1, ..m }, Operation::LoopEnd()),
        ),
{
}

/// A machine as loaded has no loop entered, as its instruction pointer has
/// no cell before it.
pub proof fn lemma_loaded_tracks_loops(text: Seq<char>)
    ensures
        loaded(text).tracks_loops(),
{
}

/// A step keeps the recorded loop addresses in line with the brackets before
/// the instruction pointer, as long as it is no exchange of the pointers and
/// rewrites no bracket before the instruction pointer's new place.
pub proof fn lemma_step_keeps_track(m: Machine, after: Machine, event: Operation)
    requires
        m.wf(),
        m.tracks_loops(),
        m.step() == Ok::<(Machine, Operation), StepError>((after, event)),
        event != Operation::SwapPointer(),
        forall|i: int|
            0 <= i < after.ip ==> bracket_weight(#[trigger] after.mem[i]) == bracket_weight(
                m.mem[i],
            ),
    ensures
        after.tracks_loops(),
{
    lemma_open_loops_depend_on_brackets(after.mem, m.mem, after.ip);
    match m.opcode() {
        Some(OpCode::LoopStart) => {
            if m.cell() == 0 {
                lemma_skip_lands_nowhere_else(m);
                lemma_matching_keeps_open_loops(m.mem, m.ip, after.ip - 1);
            }
        },
        Some(OpCode::LoopEnd) => {
            if m.cell() != 0 {
                lemma_innermost_open_loop(m.mem, m.ip);
            } else {
                assert(bracket_weight(m.mem[m.ip]) == -1);
            }
        },
        _ => {
            if after.ip == m.ip + 1 {
                assert(bracket_weight(m.mem[m.ip]) == 0);
            }
        },
    }
}

/// Where the recorded loop addresses are in line with the brackets, a
/// `LoopEnd` that finds a value other than zero under the data pointer sends
/// control to the cell after its matching `LoopStart`.
pub proof fn lemma_loop_end_returns_behind_matching_start(m: Machine)
    requires
        m.wf(),
        m.tracks_loops(),
        m.opcode() == Some(OpCode::LoopEnd),
        m.cell() != 0,
        m.stack.len() > 0,
    ensures
        matching(m.mem, m.stack.last(), m.ip),
        m.step() == Ok::<(Machine, Operation), StepError>(
            (Machine { ip: m.stack.last() + 1, ..m }, Operation::LoopEnd()),
        ),
{
    lemma_innermost_open_loop(m.mem, m.ip);
}

/// Where the recorded loop addresses are in line with the brackets, no more
/// loops are entered than the arena's brackets nest.
pub proof fn lemma_stack_within_nesting_depth(m: Machine)
    requires
        m.wf(),
        m.tracks_loops(),
    ensures
        m.stack.len() <= nesting_depth(m.mem, ARENA_SIZE as int),
{
    lemma_open_loops_within_depth(m.mem, m.ip, ARENA_SIZE as int);
}

/// A `LoopEnd` met with no loop entered is an error, whatever else holds,
/// and no other step fails with that error.
pub proof fn lemma_unmatched_loop_end(m: Machine)
    requires
        m.wf(),
    ensures
        m.step() == Err::<(Machine, Operation), StepError>(StepError::UnmatchedLoopEnd) <==> (
        m.opcode() == Some(OpCode::LoopEnd) && m.stack.len() == 0),
{
    if m.opcode() == Some(OpCode::LoopStart) && m.cell() == 0 {
        lemma_scan_stop_exists(m.mem, m.ip);
    }
}

/// A step reports `Return` exactly when the machine stands on a `Return`,
/// and then it changes nothing.
pub proof fn lemma_return_changes_nothing(m: Machine)
    requires
        m.wf(),
    ensures
        (m.step() matches Ok((_, event)) && event == Operation::Return()) <==> m.halted(),
        m.halted() ==> m.step() == Ok::<(Machine, Operation), StepError>((m, Operation::Return())),
        m.pull().1 is None <==> m.halted(),
        m.pull().1 != Some(Ok::<Operation, StepError>(Operation::Return())),
{
    if m.opcode() == Some(OpCode::LoopStart) && m.cell() == 0 {
        lemma_scan_stop_exists(m.mem, m.ip);
    }
}

/// `Return` ends the sequence of events for good: once a pull has yielded
/// nothing, the machine stays as it is and every later pull yields nothing.
pub proof fn lemma_nothing_follows_return(m: Machine, count: nat)
    requires
        m.wf(),
        m.pull().1 is None,
    ensures
        m.after_pulls(count) == m,
        m.after_pulls(count).pull().1 is None,
    decreases count,
{
    lemma_return_changes_nothing(m);
    if count > 0 {
        lemma_nothing_follows_return(m, (count - 1) as nat);
    }
}

/// A step that fails leaves no trace, so pulling again fails the same way.
pub proof fn lemma_failure_repeats(m: Machine, count: nat)
    requires
        m.pull().1 matches Some(Err(_)),
    ensures
        m.after_pulls(count) == m,
    decreases count,
{
    if count > 0 {
        lemma_failure_repeats(m, (count - 1) as nat);
    }
}

} // verus!
