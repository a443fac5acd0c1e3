//! The executable machine: loading a source text and stepping through it.

use std::collections::VecDeque;
use vstd::prelude::*;
use crate::bf_parse::brackets::scan_forward;
use crate::bf_parse::model::BuildError;
use crate::bf_parse::model::lemma_step_keeps_wf;
use crate::bf_parse::model::Machine;
use crate::bf_parse::model::StepError;
use crate::bf_parse::model::ARENA_SIZE;
use crate::bf_parse::opcode::OpCode;
use crate::bf_parse::opcode::Operation;

verus! {

/// Every character of `text` can be loaded.
pub open spec fn supported(text: Seq<char>) -> bool {
    forall|i: int| 0 <= i < text.len() ==> (#[trigger] OpCode::spec_from_symbol(text[i])) is Some
}

/// The arena as the loader leaves it: the codes of the text's symbols from
/// cell zero on, and zero in every cell after them.
pub open spec fn loaded_arena(text: Seq<char>) -> Seq<u8> {
    Seq::new(
        ARENA_SIZE as nat,
        |i: int|
            if i < text.len() {
                OpCode::spec_from_symbol(text[i])->0.spec_code()
            } else {
                0u8
            },
    )
}

/// The machine that loading `text` gives: the instruction pointer on the
/// first symbol, the data pointer on the first cell after the last, no loop
/// entered and no input waiting.
pub open spec fn loaded(text: Seq<char>) -> Machine {
    Machine {
        mem: loaded_arena(text),
        ip: 0,
        dp: text.len() as int,
        stack: Seq::empty(),
        input: Seq::empty(),
    }
}

/// A machine over one arena of `ARENA_SIZE` bytes that holds program and data alike.
pub struct BfInterpret {
    data: [u8; ARENA_SIZE],
    ip: u16,
    jump_back: Vec<u16>,
    dp: u16,
    input: VecDeque<u8>,
}

impl View for BfInterpret {
    type V = Machine;

    closed spec fn view(&self) -> Machine {
        Machine {
            mem: self.data@,
            ip: self.ip as int,
            dp: self.dp as int,
            stack: Seq::new(self.jump_back@.len(), |i: int| self.jump_back@[i] as int),
            input: self.input@,
        }
    }
}

impl BfInterpret {
    /// Both pointers lie in the arena, and so does the cell after every
    /// recorded loop address.
    #[verifier::type_invariant]
    pub open spec fn inv(&self) -> bool {
        self@.wf()
    }

    /// Loads a source text. It is refused if it holds an unsupported
    /// character, wherever that stands; otherwise if it fills the whole arena
    /// or more, so that no cell is left for the data pointer.
    pub fn new(code: String) -> (res: Result<BfInterpret, BuildError>)
        ensures
            res is Ok <==> supported(code@) && code@.len() < ARENA_SIZE,
            res matches Ok(vm) ==> vm@ == loaded(code@) && vm@.wf() && vm@.dp == code@.len(),
            res matches Err(error) ==> (error == BuildError::UnsupportedSymbol <==> !supported(
                code@,
            )),
            res matches Err(error) ==> (error == BuildError::ProgramTooLarge <==> supported(code@)
                && code@.len() >= ARENA_SIZE),
    {
        let mut data = [0u8; ARENA_SIZE];
        let mut used: usize = 0;
        for symbol in it: code.as_str().chars()
            invariant
                it.seq() == code@,
                used == if it.index() < ARENA_SIZE {
                    it.index()
                } else {
                    ARENA_SIZE as int
                },
                forall|i: int|
                    0 <= i < it.index() ==> (#[trigger] OpCode::spec_from_symbol(code@[i])) is Some,
                forall|i: int| 0 <= i < used ==> data@[i] == loaded_arena(code@)[i],
                forall|i: int| used <= i < ARENA_SIZE ==> data@[i] == 0,
        {
            match OpCode::from_symbol(symbol) {
                None => {
                    return Err(BuildError::UnsupportedSymbol);
                },
                Some(op) => {
                    if used < ARENA_SIZE {
                        data[used] = op.code();
                        used += 1;
                    }
                },
            }
        }
        if used >= ARENA_SIZE {
            return Err(BuildError::ProgramTooLarge);
        }
        assert(data@ =~= loaded_arena(code@));
        let vm = BfInterpret {
            data,
            ip: 0,
            jump_back: Vec::new(),
            dp: used as u16,
            input: VecDeque::new(),
        };
        assert(vm@.stack =~= Seq::empty());
        Ok(vm)
    }

    /// Records the instruction pointer as the innermost loop entered. The
    /// stack is taken out of the machine while it grows, so that the machine
    /// is well formed at every moment.
    fn enter_loop(&mut self)
        requires
            old(self)@.ip + 1 < ARENA_SIZE,
        ensures
            final(self)@ == (Machine { stack: old(self)@.stack.push(old(self)@.ip), ..old(self)@ }),
    {
        proof {
            use_type_invariant(&*self);
        }
        let mut stack = Vec::new();
        core::mem::swap(&mut self.jump_back, &mut stack);
        stack.push(self.ip);
        assert forall|i: int| 0 <= i < stack@.len() implies (#[trigger] stack@[i]) < ARENA_SIZE
            - 1 by {
            if i < stack@.len() - 1 {
                assert(old(self)@.stack[i] < ARENA_SIZE - 1);
            }
        }
        core::mem::swap(&mut self.jump_back, &mut stack);
        assert(self@.stack =~= old(self)@.stack.push(old(self)@.ip));
    }

    /// Forgets the innermost loop entered, if there is one.
    fn leave_loop(&mut self)
        ensures
            final(self)@ == (Machine {
                stack: if old(self)@.stack.len() > 0 {
                    old(self)@.stack.drop_last()
                } else {
                    old(self)@.stack
                },
                ..old(self)@
            }),
    {
        proof {
            use_type_invariant(&*self);
        }
        let mut stack = Vec::new();
        core::mem::swap(&mut self.jump_back, &mut stack);
        stack.pop();
        assert forall|i: int| 0 <= i < stack@.len() implies (#[trigger] stack@[i]) < ARENA_SIZE
            - 1 by {
            assert(old(self)@.stack[i] < ARENA_SIZE - 1);
        }
        core::mem::swap(&mut self.jump_back, &mut stack);
        assert(self@.stack =~= if old(self)@.stack.len() > 0 {
            old(self)@.stack.drop_last()
        } else {
            old(self)@.stack
        });
    }

    /// Takes the next input byte out of the queue, if one waits.
    fn take_input(&mut self) -> (byte: Option<u8>)
        ensures
            byte == if old(self)@.input.len() > 0 {
                Some(old(self)@.input[0])
            } else {
                None
            },
            final(self)@ == (Machine {
                input: if old(self)@.input.len() > 0 {
                    old(self)@.input.drop_first()
                } else {
                    old(self)@.input
                },
                ..old(self)@
            }),
    {
        proof {
            use_type_invariant(&*self);
        }
        let mut input = VecDeque::new();
        core::mem::swap(&mut self.input, &mut input);
        let byte = input.pop_front();
        core::mem::swap(&mut self.input, &mut input);
        byte
    }

    /// Takes one step: decodes the cell under the instruction pointer and
    /// applies it. The swaps and the reserved jumps leave the instruction
    /// pointer where it is, and so does `Return`. A step that fails changes
    /// nothing.
    pub fn step(&mut self) -> (res: Result<Operation, StepError>)
        ensures
            old(self)@.wf(),
            final(self)@.wf(),
            match old(self)@.step() {
                Ok((after, event)) => res == Ok::<Operation, StepError>(event) && final(self)@
                    == after,
                Err(error) => res == Err::<Operation, StepError>(error) && final(self)@ == old(
                    self,
                )@,
            },
    {
        proof {
            use_type_invariant(&*self);
            lemma_step_keeps_wf(self@);
        }
        let ip = self.ip as usize;
        let dp = self.dp as usize;
        let op = match OpCode::decode(self.data[ip]) {
            None => {
                return Err(StepError::UnknownInstruction);
            },
            Some(op) => op,
        };
        let last = ip + 1 >= ARENA_SIZE;
        match op {
            OpCode::Right => {
                if dp + 1 >= ARENA_SIZE || last {
                    return Err(StepError::OutOfBounds);
                }
                self.dp += 1;
                self.ip += 1;
                Ok(Operation::Right())
            },
            OpCode::Left => {
                if dp == 0 || last {
                    return Err(StepError::OutOfBounds);
                }
                self.dp -= 1;
                self.ip += 1;
                Ok(Operation::Left())
            },
            OpCode::Plus => {
                if last {
                    return Err(StepError::OutOfBounds);
                }
                self.data[dp] = self.data[dp].wrapping_add(1);
                self.ip += 1;
                Ok(Operation::Plus())
            },
            OpCode::Minus => {
                if last {
                    return Err(StepError::OutOfBounds);
                }
                self.data[dp] = self.data[dp].wrapping_sub(1);
                self.ip += 1;
                Ok(Operation::Minus())
            },
            OpCode::Put => {
                if last {
                    return Err(StepError::OutOfBounds);
                }
                let data = self.data[dp];
                self.ip += 1;
                Ok(Operation::Put(data))
            },
            OpCode::Get => {
                if self.input.len() == 0 {
                    return Err(StepError::InputExhausted);
                }
                if last {
                    return Err(StepError::OutOfBounds);
                }
                match self.take_input() {
                    Some(byte) => {
                        self.data[dp] = byte;
                    },
                    None => {},
                }
                self.ip += 1;
                Ok(Operation::Get())
            },
            OpCode::LoopStart => {
                if self.data[dp] == 0 {
                    let stop = scan_forward(&self.data, ip);
                    if stop >= ARENA_SIZE {
                        return Err(StepError::OutOfBounds);
                    }
                    if OpCode::decode(self.data[stop]).is_none() {
                        return Err(StepError::UnknownInstruction);
                    }
                    if stop + 1 >= ARENA_SIZE {
                        return Err(StepError::OutOfBounds);
                    }
                    self.ip = (stop + 1) as u16;
                } else {
                    if last {
                        return Err(StepError::OutOfBounds);
                    }
                    self.enter_loop();
                    self.ip += 1;
                }
                Ok(Operation::LoopStart())
            },
            OpCode::LoopEnd => {
                let depth = self.jump_back.len();
                if depth == 0 {
                    return Err(StepError::UnmatchedLoopEnd);
                }
                if self.data[dp] != 0 {
                    self.ip = self.jump_back[depth - 1] + 1;
                } else {
                    if last {
                        return Err(StepError::OutOfBounds);
                    }
                    self.leave_loop();
                    self.ip += 1;
                }
                Ok(Operation::LoopEnd())
            },
            OpCode::SwapData => {
                let data = self.data[dp];
                self.data[dp] = self.data[ip];
                self.data[ip] = data;
                Ok(Operation::SwapData())
            },
            OpCode::SwapPointer => {
                let dp = self.dp;
                self.dp = self.ip;
                self.ip = dp;
                Ok(Operation::SwapPointer())
            },
            OpCode::JumpForwardByte => Ok(Operation::JumpForwardByte()),
            OpCode::JumpForwardWord => Ok(Operation::JumpForwardWord()),
            OpCode::JumpAbsoluteByte => Ok(Operation::JumpAbsoluteByte()),
            OpCode::JumpAbsoluteWord => Ok(Operation::JumpAbsoluteWord()),
            OpCode::Return => Ok(Operation::Return()),
        }
    }

    /// Pulls the next event of the run. `None` says that the machine stands
    /// on `Return`: the run is over, and every later pull says so again.
    pub fn next(&mut self) -> (res: Option<Result<Operation, StepError>>)
        ensures
            old(self)@.wf(),
            final(self)@.wf(),
            final(self)@ == old(self)@.pull().0,
            res == old(self)@.pull().1,
            res is None <==> old(self)@.halted(),
            res is None ==> final(self)@ == old(self)@,
    {
        match self.step() {
            Ok(Operation::Return()) => None,
            Ok(event) => Some(Ok(event)),
            Err(error) => Some(Err(error)),
        }
    }

    /// The event on which every complete run ends. The machine is not advanced.
    #[allow(non_snake_case)]
    pub fn runAll(&mut self) -> (event: Operation)
        ensures
            event == Operation::Return(),
            *final(self) == *old(self),
    {
        Operation::Return()
    }

    /// Hands the machine one more input byte, to be read after those that
    /// already wait.
    pub fn feed(&mut self, byte: u8)
        ensures
            final(self)@ == (Machine { input: old(self)@.input.push(byte), ..old(self)@ }),
    {
        proof {
            use_type_invariant(&*self);
        }
        let mut input = VecDeque::new();
        core::mem::swap(&mut self.input, &mut input);
        input.push_back(byte);
        core::mem::swap(&mut self.input, &mut input);
    }

    /// Whether the next step is a `Get` that finds no input byte waiting.
    pub fn awaits_input(&self) -> (waiting: bool)
        ensures
            self@.wf(),
            waiting == (self@.opcode() == Some(OpCode::Get) && self@.input.len() == 0),
            waiting == (self@.step() == Err::<(Machine, Operation), StepError>(
                StepError::InputExhausted,
            )),
    {
        proof {
            use_type_invariant(self);
        }
        match OpCode::decode(self.data[self.ip as usize]) {
            Some(OpCode::Get) => self.input.len() == 0,
            _ => false,
        }
    }

    /// The byte in the cell at `address`, if the arena has such a cell.
    pub fn peek(&self, address: u16) -> (cell: Option<u8>)
        ensures
            cell == if address < ARENA_SIZE {
                Some(self@.mem[address as int])
            } else {
                None
            },
    {
        if (address as usize) < ARENA_SIZE {
            Some(self.data[address as usize])
        } else {
            None
        }
    }

    /// The addresses of the loops entered and not yet left, innermost last.
    pub fn jump_back(&self) -> (stack: &Vec<u16>)
        ensures
            stack@.len() == self@.stack.len(),
            forall|i: int| 0 <= i < stack@.len() ==> stack@[i] as int == self@.stack[i],
    {
        &self.jump_back
    }

    /// The arena's cells.
    pub fn arena(&self) -> (cells: &[u8; ARENA_SIZE])
        ensures
            cells@ == self@.mem,
    {
        &self.data
    }

    /// The instruction pointer.
    pub fn ip(&self) -> (ip: u16)
        ensures
            ip == self@.ip,
            ip < ARENA_SIZE,
    {
        proof {
            use_type_invariant(self);
        }
        self.ip
    }

    /// The data pointer.
    pub fn dp(&self) -> (dp: u16)
        ensures
            dp == self@.dp,
            dp < ARENA_SIZE,
    {
        proof {
            use_type_invariant(self);
        }
        self.dp
    }
}

} // verus!
