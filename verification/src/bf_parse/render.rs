//! The machine shown as text: a window of the arena around each pointer,
//! with the cell under the pointer set off in colour.

use termion::color;
use vstd::prelude::*;
use vstd::string::StringExecFns;
use crate::bf_parse::machine::BfInterpret;
use crate::bf_parse::model::Machine;
use crate::bf_parse::model::ARENA_SIZE;
use crate::bf_parse::opcode::OpCode;
use crate::bf_parse::text::decimal;
use crate::bf_parse::text::listed;
use crate::bf_parse::text::padded3;
use crate::bf_parse::text::padded5;
use crate::bf_parse::text::push_decimal;
use crate::bf_parse::text::push_padded3;
use crate::bf_parse::text::push_padded5;

verus! {

/// Number of cells shown before a pointer, and of cells shown from it on.
pub const WINDOW: usize = 20;

/// The escape sequence that sets the foreground to red.
pub open spec fn red_sequence() -> Seq<char> {
    "\x1b[38;5;1m"@
}

/// The escape sequence that sets the foreground to blue.
pub open spec fn blue_sequence() -> Seq<char> {
    "\x1b[38;5;4m"@
}

/// The escape sequence that sets the foreground back to the terminal's own.
pub open spec fn reset_sequence() -> Seq<char> {
    "\x1b[39m"@
}

/// What termion writes for a colour whose escape sequence is `sequence`:
/// that sequence, or nothing where the environment asks for no colour.
pub open spec fn colour_or_nothing(written: Seq<char>, sequence: Seq<char>) -> bool {
    written == sequence || written.len() == 0
}

/// The `Display` of `termion::color::Fg` around `termion::color::Red`, taken as a
/// string. termion writes the escape sequence for a red foreground, unless
/// the environment variable `NO_COLOR` holds a value: then it writes nothing.
#[verifier::external_body]
fn fg_red() -> (written: String)
    ensures
        colour_or_nothing(written@, red_sequence()),
{
    format!("{}", color::Fg(color::Red))
}

/// The `Display` of `termion::color::Fg` around `termion::color::Blue`, taken as a
/// string. termion writes the escape sequence for a blue foreground, unless
/// the environment variable `NO_COLOR` holds a value: then it writes nothing.
#[verifier::external_body]
fn fg_blue() -> (written: String)
    ensures
        colour_or_nothing(written@, blue_sequence()),
{
    format!("{}", color::Fg(color::Blue))
}

/// The `Display` of `termion::color::Fg` around `termion::color::Reset`, taken as
/// a string. termion writes the escape sequence that resets the foreground,
/// whatever the environment holds.
#[verifier::external_body]
fn fg_reset() -> (written: String)
    ensures
        written@ == reset_sequence(),
{
    format!("{}", color::Fg(color::Reset))
}

/// First cell of the window around the pointer `at`.
pub open spec fn window_start(at: int) -> int {
    if at >= WINDOW {
        at - WINDOW
    } else {
        0
    }
}

/// The cell after the last one of the window around the pointer `at`.
pub open spec fn window_end(at: int) -> int {
    if at + WINDOW <= ARENA_SIZE {
        at + WINDOW
    } else {
        ARENA_SIZE as int
    }
}

/// How the cell at `i` is shown as an instruction: by the symbol of the tag
/// it decodes to, between `mark` and `unmark` where the instruction pointer
/// stands on it; a cell that decodes to nothing is not shown.
pub open spec fn shown_code(
    mem: Seq<u8>,
    ip: int,
    i: int,
    mark: Seq<char>,
    unmark: Seq<char>,
) -> Seq<char> {
    match OpCode::spec_decode(mem[i]) {
        Some(tag) => if i == ip {
            mark + seq![tag.spec_symbol()] + unmark
        } else {
            seq![tag.spec_symbol()]
        },
        None => Seq::empty(),
    }
}

/// The cells in `[from, to)` shown as instructions, one after the other.
pub open spec fn code_row(
    mem: Seq<u8>,
    ip: int,
    from: int,
    to: int,
    mark: Seq<char>,
    unmark: Seq<char>,
) -> Seq<char>
    decreases to - from,
{
    if to <= from {
        Seq::empty()
    } else {
        code_row(mem, ip, from, to - 1, mark, unmark) + shown_code(mem, ip, to - 1, mark, unmark)
    }
}

/// How the cell at `i` is shown as data: its value in three digits and a
/// comma, between `mark` and `unmark` where the data pointer stands on it.
pub open spec fn shown_data(
    mem: Seq<u8>,
    dp: int,
    i: int,
    mark: Seq<char>,
    unmark: Seq<char>,
) -> Seq<char> {
    if i == dp {
        mark + padded3(mem[i] as int) + seq![','] + unmark
    } else {
        padded3(mem[i] as int) + seq![',']
    }
}

/// The cells in `[from, to)` shown as data, one after the other.
pub open spec fn data_row(
    mem: Seq<u8>,
    dp: int,
    from: int,
    to: int,
    mark: Seq<char>,
    unmark: Seq<char>,
) -> Seq<char>
    decreases to - from,
{
    if to <= from {
        Seq::empty()
    } else {
        data_row(mem, dp, from, to - 1, mark, unmark) + shown_data(mem, dp, to - 1, mark, unmark)
    }
}

/// The machine as two lines: the instruction pointer in five digits and the
/// instructions around it, then the data around the data pointer. `red`
/// marks the instruction under the instruction pointer, `blue` the cell
/// under the data pointer, and `reset` ends either mark.
pub open spec fn rendering(m: Machine, red: Seq<char>, blue: Seq<char>, reset: Seq<char>) -> Seq<
    char,
> {
    padded5(m.ip) + code_row(m.mem, m.ip, window_start(m.ip), window_end(m.ip), red, reset)
        + seq!['\n'] + data_row(m.mem, m.dp, window_start(m.dp), window_end(m.dp), blue, reset)
}

/// The pointers and the recorded loop addresses in one line.
pub open spec fn summary_line(m: Machine) -> Seq<char> {
    "ip: "@ + decimal(m.ip as nat) + ", dp: "@ + decimal(m.dp as nat) + ", jb: ["@ + listed(
        m.stack,
    ) + "] "@
}

/// `shown` is the machine as termion's colours let it be shown: with each
/// of red and blue written out or left away.
pub open spec fn shows(m: Machine, shown: Seq<char>) -> bool {
    exists|red: Seq<char>, blue: Seq<char>|
        colour_or_nothing(red, red_sequence()) && colour_or_nothing(blue, blue_sequence())
            && shown == #[trigger] rendering(m, red, blue, reset_sequence())
}

impl BfInterpret {
    /// The machine as text, with the given strings for the marks.
    pub fn render(&self, red: &str, blue: &str, reset: &str) -> (text: String)
        ensures
            text@ == rendering(self@, red@, blue@, reset@),
    {
        proof {
            use_type_invariant(self);
        }
        let mem = self.arena();
        let ip = self.ip() as usize;
        let dp = self.dp() as usize;
        let mut text = String::new();
        push_padded5(&mut text, self.ip());
        let from = if ip >= WINDOW {
            ip - WINDOW
        } else {
            0
        };
        let to = if ip + WINDOW <= ARENA_SIZE {
            ip + WINDOW
        } else {
            ARENA_SIZE
        };
        let ghost head = text@;
        let mut i = from;
        while i < to
            invariant
                from <= i <= to <= ARENA_SIZE,
                mem@.len() == ARENA_SIZE,
                text@ == head + code_row(mem@, ip as int, from as int, i as int, red@, reset@),
            decreases to - i,
        {
            let ghost before = text@;
            match OpCode::decode(mem[i]) {
                Some(tag) => {
                    if i == ip {
                        text.append(red);
                        text.push(tag.symbol());
                        text.append(reset);
                    } else {
                        text.push(tag.symbol());
                    }
                },
                None => {},
            }
            assert(text@ =~= before + shown_code(mem@, ip as int, i as int, red@, reset@));
            i += 1;
            assert(text@ =~= head + code_row(mem@, ip as int, from as int, i as int, red@, reset@));
        }
        text.push('\n');
        let from = if dp >= WINDOW {
            dp - WINDOW
        } else {
            0
        };
        let to = if dp + WINDOW <= ARENA_SIZE {
            dp + WINDOW
        } else {
            ARENA_SIZE
        };
        let ghost head = text@;
        let mut i = from;
        while i < to
            invariant
                from <= i <= to <= ARENA_SIZE,
                mem@.len() == ARENA_SIZE,
                text@ == head + data_row(mem@, dp as int, from as int, i as int, blue@, reset@),
            decreases to - i,
        {
            let ghost before = text@;
            if i == dp {
                text.append(blue);
            }
            push_padded3(&mut text, mem[i]);
            text.push(',');
            if i == dp {
                text.append(reset);
            }
            assert(text@ =~= before + shown_data(mem@, dp as int, i as int, blue@, reset@));
            i += 1;
            assert(text@ =~= head + data_row(mem@, dp as int, from as int, i as int, blue@, reset@));
        }
        assert(text@ =~= rendering(self@, red@, blue@, reset@));
        text
    }

    /// The machine as text, in the colours that termion writes: red for the
    /// instruction under the instruction pointer and blue for the cell under
    /// the data pointer, or neither where colours are switched off.
    pub fn to_string(&self) -> (text: String)
        ensures
            shows(self@, text@),
    {
        let red = fg_red();
        let blue = fg_blue();
        let reset = fg_reset();
        self.render(red.as_str(), blue.as_str(), reset.as_str())
    }

    /// The pointers and the recorded loop addresses in one line, as
    /// `ip: 0, dp: 63, jb: [1, 3] `.
    pub fn summary(&self) -> (text: String)
        ensures
            text@ == summary_line(self@),
    {
        let stack = self.jump_back();
        let mut text = String::new();
        text.append("ip: ");
        push_decimal(&mut text, self.ip());
        text.append(", dp: ");
        push_decimal(&mut text, self.dp());
        text.append(", jb: [");
        let ghost head = text@;
        let mut i: usize = 0;
        while i < stack.len()
            invariant
                i <= stack@.len(),
                stack@.len() == self@.stack.len(),
                forall|k: int| 0 <= k < stack@.len() ==> stack@[k] as int == self@.stack[k],
                text@ == head + listed(self@.stack.take(i as int)),
            decreases stack.len() - i,
        {
            let ghost before = text@;
            if i > 0 {
                text.append(", ");
            }
            push_decimal(&mut text, stack[i]);
            proof {
                let sofar = self@.stack.take(i + 1);
                assert(sofar.drop_last() =~= self@.stack.take(i as int));
                assert(sofar.last() == stack@[i as int] as int);
                if i == 0 {
                    assert(listed(self@.stack.take(0)) =~= Seq::<char>::empty());
                    assert(sofar[0] == sofar.last());
                    assert(text@ =~= before + decimal(sofar[0] as nat));
                } else {
                    assert(text@ =~= before + ", "@ + decimal(sofar.last() as nat));
                }
                assert(text@ =~= head + listed(sofar));
            }
            i += 1;
        }
        assert(self@.stack.take(i as int) =~= self@.stack);
        text.append("] ");
        text
    }

    /// The summary line, and under it the machine as `to_string` shows it.
    pub fn debug_string(&self) -> (text: String)
        ensures
            exists|shown: Seq<char>| #[trigger]
                shows(self@, shown) && text@ == summary_line(self@) + seq!['\n'] + shown,
    {
        let mut text = self.summary();
        text.push('\n');
        let shown = self.to_string();
        text.append(shown.as_str());
        text
    }
}

} // verus!
