//! The mathematical model of the machine: its state, and what one step does.

use vstd::prelude::*;
use crate::bf_parse::brackets::lemma_scan_stop_exists;
use crate::bf_parse::brackets::scan_stop;
use crate::bf_parse::nesting::open_loops;
use crate::bf_parse::opcode::OpCode;
use crate::bf_parse::opcode::Operation;

verus! {

/// Number of cells in the arena that holds both program and data.
pub const ARENA_SIZE: usize = 30_000;

/// Why a source text was not loaded.
#[derive(Clone, Copy, Debug, PartialEq, Eq, Structural)]
pub enum BuildError {
    /// The text holds a character that is not one of `> < + - . , [ ] ?`.
    UnsupportedSymbol,
    /// The text leaves no arena cell free for the data pointer.
    ProgramTooLarge,
}

/// Why a step could not be taken. A step that fails leaves the machine as it was.
#[derive(Clone, Copy, Debug, PartialEq, Eq, Structural)]
pub enum StepError {
    /// A cell that had to be decoded holds fifteen in its low four bits.
    UnknownInstruction,
    /// A `LoopEnd` was met with no loop entered.
    UnmatchedLoopEnd,
    /// A `Get` was met with no input byte waiting.
    InputExhausted,
    /// A pointer would have left the arena.
    OutOfBounds,
}

/// The state of a machine.
pub struct Machine {
    /// The arena's cells.
    pub mem: Seq<u8>,
    /// Instruction pointer.
    pub ip: int,
    /// Data pointer.
    pub dp: int,
    /// Addresses of the loops entered and not yet left, innermost last.
    pub stack: Seq<int>,
    /// Input bytes waiting to be read, the next one first.
    pub input: Seq<u8>,
}

impl Machine {
    /// Both pointers lie in the arena, and so does the cell after every
    /// recorded loop address.
    pub open spec fn wf(self) -> bool {
        &&& self.mem.len() == ARENA_SIZE
        &&& 0 <= self.ip < ARENA_SIZE
        &&& 0 <= self.dp < ARENA_SIZE
        &&& forall|i: int|
            0 <= i < self.stack.len() ==> 0 <= #[trigger] self.stack[i] < ARENA_SIZE - 1
    }

    /// The operation under the instruction pointer.
    pub open spec fn opcode(self) -> Option<OpCode> {
        OpCode::spec_decode(self.mem[self.ip])
    }

    /// The byte under the data pointer.
    pub open spec fn cell(self) -> u8 {
        self.mem[self.dp]
    }

    /// The same machine with `value` under the data pointer.
    pub open spec fn store(self, value: u8) -> Machine {
        Machine { mem: self.mem.update(self.dp, value), ..self }
    }

    /// Moves on to the next instruction and reports `event`, unless the
    /// instruction pointer stands on the arena's last cell.
    pub open spec fn advance(self, event: Operation) -> Result<(Machine, Operation), StepError> {
        if self.ip + 1 < ARENA_SIZE {
            Ok((Machine { ip: self.ip + 1, ..self }, event))
        } else {
            Err(StepError::OutOfBounds)
        }
    }

    /// Leaves the loop that opens under the instruction pointer without
    /// entering it: control goes to the cell after the `LoopEnd` at which the
    /// forward scan stops.
    pub open spec fn skip_loop(self) -> Result<(Machine, Operation), StepError> {
        let stop = scan_stop(self.mem, self.ip);
        if stop >= ARENA_SIZE {
            Err(StepError::OutOfBounds)
        } else if OpCode::spec_decode(self.mem[stop]) is None {
            Err(StepError::UnknownInstruction)
        } else if stop + 1 >= ARENA_SIZE {
            Err(StepError::OutOfBounds)
        } else {
            Ok((Machine { ip: stop + 1, ..self }, Operation::LoopStart()))
        }
    }

    /// One step: the state that follows and the event reported, or the reason
    /// why there is none.
    pub open spec fn step(self) -> Result<(Machine, Operation), StepError> {
        match self.opcode() {
            None => Err(StepError::UnknownInstruction),
            Some(OpCode::Right) => if self.dp + 1 < ARENA_SIZE {
                Machine { dp: self.dp + 1, ..self }.advance(Operation::Right())
            } else {
                Err(StepError::OutOfBounds)
            },
            Some(OpCode::Left) => if self.dp >= 1 {
                Machine { dp: self.dp - 1, ..self }.advance(Operation::Left())
            } else {
                Err(StepError::OutOfBounds)
            },
            Some(OpCode::Plus) => self.store(((self.cell() + 1) % 256) as u8).advance(
                Operation::Plus(),
            ),
            Some(OpCode::Minus) => self.store(((self.cell() - 1) % 256) as u8).advance(
                Operation::Minus(),
            ),
            Some(OpCode::Put) => self.advance(Operation::Put(self.cell())),
            Some(OpCode::Get) => if self.input.len() > 0 {
                Machine { input: self.input.drop_first(), ..self.store(self.input[0]) }.advance(
                    Operation::Get(),
                )
            } else {
                Err(StepError::InputExhausted)
            },
            Some(OpCode::LoopStart) => if self.cell() == 0 {
                self.skip_loop()
            } else {
                Machine { stack: self.stack.push(self.ip), ..self }.advance(Operation::LoopStart())
            },
            Some(OpCode::LoopEnd) => if self.stack.len() == 0 {
                Err(StepError::UnmatchedLoopEnd)
            } else if self.cell() != 0 {
                Ok((Machine { ip: self.stack.last() + 1, ..self }, Operation::LoopEnd()))
            } else {
                Machine { stack: self.stack.drop_last(), ..self }.advance(Operation::LoopEnd())
            },
            Some(OpCode::SwapData) => Ok(
                (
                    Machine {
                        mem: self.mem.update(self.dp, self.mem[self.ip]).update(
                            self.ip,
                            self.mem[self.dp],
                        ),
                        ..self
                    },
                    Operation::SwapData(),
                ),
            ),
            Some(OpCode::SwapPointer) => Ok(
                (Machine { ip: self.dp, dp: self.ip, ..self }, Operation::SwapPointer()),
            ),
            Some(OpCode::JumpForwardByte) => Ok((self, Operation::JumpForwardByte())),
            Some(OpCode::JumpForwardWord) => Ok((self, Operation::JumpForwardWord())),
            Some(OpCode::JumpAbsoluteByte) => Ok((self, Operation::JumpAbsoluteByte())),
            Some(OpCode::JumpAbsoluteWord) => Ok((self, Operation::JumpAbsoluteWord())),
            Some(OpCode::Return) => Ok((self, Operation::Return())),
        }
    }
}

impl Machine {
    /// The machine stands on a `Return`.
    pub open spec fn halted(self) -> bool {
        self.opcode() == Some(OpCode::Return)
    }

    /// One pull on the sequence of events: the state that follows, and the
    /// event yielded. `Return` is not yielded: it ends the sequence. A step
    /// that fails is yielded as its error and leaves the state as it was.
    pub open spec fn pull(self) -> (Machine, Option<Result<Operation, StepError>>) {
        match self.step() {
            Ok((after, event)) => (
                after,
                if event == Operation::Return() {
                    None
                } else {
                    Some(Ok(event))
                },
            ),
            Err(error) => (self, Some(Err(error))),
        }
    }

    /// The recorded loop addresses are exactly the loops that the cells
    /// before the instruction pointer leave open.
    pub open spec fn tracks_loops(self) -> bool {
        self.stack == open_loops(self.mem, self.ip)
    }

    /// The state after `count` pulls.
    pub open spec fn after_pulls(self, count: nat) -> Machine
        decreases count,
    {
        if count == 0 {
            self
        } else {
            self.pull().0.after_pulls((count - 1) as nat)
        }
    }
}

/// A step keeps a well-formed machine well formed.
pub proof fn lemma_step_keeps_wf(m: Machine)
    requires
        m.wf(),
    ensures
        m.step() matches Ok((after, _)) ==> after.wf(),
{
    if m.opcode() == Some(OpCode::LoopStart) && m.cell() == 0 {
        lemma_scan_stop_exists(m.mem, m.ip);
    }
}

} // verus!
