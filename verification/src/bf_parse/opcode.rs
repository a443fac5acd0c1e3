//! The instruction set: the tags an arena cell can decode to, and the events
//! a step of the machine reports.

use vstd::prelude::*;

verus! {

/// The operation tags. A cell stands for the tag whose code equals the value
/// of the cell's low four bits; the upper four bits are reserved.
#[derive(Clone, Copy, Debug, PartialEq, Eq, Structural)]
pub enum OpCode {
    Right,
    Left,
    Plus,
    Minus,
    Put,
    Get,
    LoopStart,
    LoopEnd,
    /// Exchanges the cells under the two pointers.
    SwapData,
    /// Exchanges the two pointers.
    SwapPointer,
    JumpForwardByte,
    JumpForwardWord,
    JumpAbsoluteByte,
    JumpAbsoluteWord,
    Return,
}

/// What one step of the machine did. `Put` carries the byte under the data
/// pointer at that moment, for the caller to write out.
#[derive(Clone, Copy, Debug, PartialEq, Eq, Structural)]
pub enum Operation {
    Right(),
    Left(),
    Plus(),
    Minus(),
    Put(u8),
    Get(),
    LoopStart(),
    LoopEnd(),
    SwapData(),
    SwapPointer(),
    JumpForwardByte(),
    JumpForwardWord(),
    JumpAbsoluteByte(),
    JumpAbsoluteWord(),
    Return(),
}

impl OpCode {
    /// The number that stands for this tag in an arena cell.
    pub open spec fn spec_code(self) -> u8 {
        match self {
            OpCode::Right => 0,
            OpCode::Left => 1,
            OpCode::Plus => 2,
            OpCode::Minus => 3,
            OpCode::Put => 4,
            OpCode::Get => 5,
            OpCode::LoopStart => 6,
            OpCode::LoopEnd => 7,
            OpCode::SwapData => 8,
            OpCode::SwapPointer => 9,
            OpCode::JumpForwardByte => 10,
            OpCode::JumpForwardWord => 11,
            OpCode::JumpAbsoluteByte => 12,
            OpCode::JumpAbsoluteWord => 13,
            OpCode::Return => 14,
        }
    }

    /// The tag whose code is `n`, if there is one.
    pub open spec fn spec_from_u8(n: u8) -> Option<OpCode> {
        if n == 0 {
            Some(OpCode::Right)
        } else if n == 1 {
            Some(OpCode::Left)
        } else if n == 2 {
            Some(OpCode::Plus)
        } else if n == 3 {
            Some(OpCode::Minus)
        } else if n == 4 {
            Some(OpCode::Put)
        } else if n == 5 {
            Some(OpCode::Get)
        } else if n == 6 {
            Some(OpCode::LoopStart)
        } else if n == 7 {
            Some(OpCode::LoopEnd)
        } else if n == 8 {
            Some(OpCode::SwapData)
        } else if n == 9 {
            Some(OpCode::SwapPointer)
        } else if n == 10 {
            Some(OpCode::JumpForwardByte)
        } else if n == 11 {
            Some(OpCode::JumpForwardWord)
        } else if n == 12 {
            Some(OpCode::JumpAbsoluteByte)
        } else if n == 13 {
            Some(OpCode::JumpAbsoluteWord)
        } else if n == 14 {
            Some(OpCode::Return)
        } else {
            None
        }
    }

    /// The tag a cell decodes to: the one whose code is the value of the
    /// cell's low four bits. Only the value fifteen decodes to nothing.
    pub open spec fn spec_decode(cell: u8) -> Option<OpCode> {
        Self::spec_from_u8((cell % 16) as u8)
    }

    /// The tag that a character of a source text is loaded as. Only the eight
    /// classic symbols and `?` for `Return` can be written in a source text.
    pub open spec fn spec_from_symbol(symbol: char) -> Option<OpCode> {
        if symbol == '>' {
            Some(OpCode::Right)
        } else if symbol == '<' {
            Some(OpCode::Left)
        } else if symbol == '+' {
            Some(OpCode::Plus)
        } else if symbol == '-' {
            Some(OpCode::Minus)
        } else if symbol == '.' {
            Some(OpCode::Put)
        } else if symbol == ',' {
            Some(OpCode::Get)
        } else if symbol == '[' {
            Some(OpCode::LoopStart)
        } else if symbol == ']' {
            Some(OpCode::LoopEnd)
        } else if symbol == '?' {
            Some(OpCode::Return)
        } else {
            None
        }
    }

    /// The tag that `symbol` is loaded as, if it can be written in a source text.
    pub fn from_symbol(symbol: char) -> (op: Option<OpCode>)
        ensures
            op == Self::spec_from_symbol(symbol),
            op matches Some(tag) ==> tag.spec_symbol() == symbol,
    {
        match symbol {
            '>' => Some(OpCode::Right),
            '<' => Some(OpCode::Left),
            '+' => Some(OpCode::Plus),
            '-' => Some(OpCode::Minus),
            '.' => Some(OpCode::Put),
            ',' => Some(OpCode::Get),
            '[' => Some(OpCode::LoopStart),
            ']' => Some(OpCode::LoopEnd),
            '?' => Some(OpCode::Return),
            _ => None,
        }
    }

    /// The number that stands for this tag in an arena cell: below fifteen,
    /// and decoded back to this tag.
    pub fn code(&self) -> (n: u8)
        ensures
            n == self.spec_code(),
            n < 15,
            Self::spec_from_u8(n) == Some(*self),
    {
        match self {
            OpCode::Right => 0,
            OpCode::Left => 1,
            OpCode::Plus => 2,
            OpCode::Minus => 3,
            OpCode::Put => 4,
            OpCode::Get => 5,
            OpCode::LoopStart => 6,
            OpCode::LoopEnd => 7,
            OpCode::SwapData => 8,
            OpCode::SwapPointer => 9,
            OpCode::JumpForwardByte => 10,
            OpCode::JumpForwardWord => 11,
            OpCode::JumpAbsoluteByte => 12,
            OpCode::JumpAbsoluteWord => 13,
            OpCode::Return => 14,
        }
    }

    /// The tag whose code is `n`: there is one for each number below fifteen.
    pub fn from_u8(n: u8) -> (op: Option<OpCode>)
        ensures
            op == Self::spec_from_u8(n),
            op is Some <==> n < 15,
            op matches Some(o) ==> o.spec_code() == n,
    {
        match n {
            0 => Some(OpCode::Right),
            1 => Some(OpCode::Left),
            2 => Some(OpCode::Plus),
            3 => Some(OpCode::Minus),
            4 => Some(OpCode::Put),
            5 => Some(OpCode::Get),
            6 => Some(OpCode::LoopStart),
            7 => Some(OpCode::LoopEnd),
            8 => Some(OpCode::SwapData),
            9 => Some(OpCode::SwapPointer),
            10 => Some(OpCode::JumpForwardByte),
            11 => Some(OpCode::JumpForwardWord),
            12 => Some(OpCode::JumpAbsoluteByte),
            13 => Some(OpCode::JumpAbsoluteWord),
            14 => Some(OpCode::Return),
            _ => None,
        }
    }

    /// The character that shows this tag. The four reserved jumps are shown
    /// like `Right`.
    pub open spec fn spec_symbol(self) -> char {
        match self {
            OpCode::Right => '>',
            OpCode::Left => '<',
            OpCode::Plus => '+',
            OpCode::Minus => '-',
            OpCode::Put => '.',
            OpCode::Get => ',',
            OpCode::LoopStart => '[',
            OpCode::LoopEnd => ']',
            OpCode::SwapData => '$',
            OpCode::SwapPointer => '!',
            OpCode::JumpForwardByte => '>',
            OpCode::JumpForwardWord => '>',
            OpCode::JumpAbsoluteByte => '>',
            OpCode::JumpAbsoluteWord => '>',
            OpCode::Return => '?',
        }
    }

    /// The character that shows this tag.
    pub fn symbol(&self) -> (symbol: char)
        ensures
            symbol == self.spec_symbol(),
    {
        match self {
            OpCode::Right => '>',
            OpCode::Left => '<',
            OpCode::Plus => '+',
            OpCode::Minus => '-',
            OpCode::Put => '.',
            OpCode::Get => ',',
            OpCode::LoopStart => '[',
            OpCode::LoopEnd => ']',
            OpCode::SwapData => '$',
            OpCode::SwapPointer => '!',
            OpCode::JumpForwardByte => '>',
            OpCode::JumpForwardWord => '>',
            OpCode::JumpAbsoluteByte => '>',
            OpCode::JumpAbsoluteWord => '>',
            OpCode::Return => '?',
        }
    }

    /// This tag as text: its one symbol.
    pub fn to_string(&self) -> (text: String)
        ensures
            text@ == seq![self.spec_symbol()],
    {
        let mut text = String::new();
        text.push(self.symbol());
        text
    }

    /// Decodes an arena cell by its low four bits, whatever the upper four hold.
    pub fn decode(cell: u8) -> (op: Option<OpCode>)
        ensures
            op == Self::spec_decode(cell),
            op is None <==> cell % 16 == 15,
    {
        assert(cell & 15 == cell % 16) by (bit_vector);
        Self::from_u8(cell & 15)
    }
}

impl Operation {
    /// The character that shows this event: for `Put` the character whose
    /// code is the byte put out, for any other event a fixed symbol.
    pub open spec fn spec_symbol(self) -> char {
        match self {
            Operation::Right() => '>',
            Operation::Left() => '<',
            Operation::Plus() => '+',
            Operation::Minus() => '-',
            Operation::Put(byte) => byte as char,
            Operation::Get() => ',',
            Operation::LoopStart() => '[',
            Operation::LoopEnd() => ']',
            Operation::SwapData() => '!',
            Operation::SwapPointer() => '$',
            Operation::JumpForwardByte() => '>',
            Operation::JumpForwardWord() => '>',
            Operation::JumpAbsoluteByte() => '>',
            Operation::JumpAbsoluteWord() => '>',
            Operation::Return() => '?',
        }
    }

    /// The character that shows this event.
    pub fn symbol(&self) -> (symbol: char)
        ensures
            symbol == self.spec_symbol(),
    {
        match self {
            Operation::Right() => '>',
            Operation::Left() => '<',
            Operation::Plus() => '+',
            Operation::Minus() => '-',
            Operation::Put(byte) => *byte as char,
            Operation::Get() => ',',
            Operation::LoopStart() => '[',
            Operation::LoopEnd() => ']',
            Operation::SwapData() => '!',
            Operation::SwapPointer() => '$',
            Operation::JumpForwardByte() => '>',
            Operation::JumpForwardWord() => '>',
            Operation::JumpAbsoluteByte() => '>',
            Operation::JumpAbsoluteWord() => '>',
            Operation::Return() => '?',
        }
    }

    /// This event as text: its one symbol.
    pub fn to_string(&self) -> (text: String)
        ensures
            text@ == seq![self.spec_symbol()],
    {
        let mut text = String::new();
        text.push(self.symbol());
        text
    }
}

} // verus!
