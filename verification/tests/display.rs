use brain_frick::bf_parse::OpCode;
use brain_frick::bf_parse::Operation;
use brain_frick::BfInterpret;

const RED: &str = "\u{1b}[38;5;1m";
const BLUE: &str = "\u{1b}[38;5;4m";
const RESET: &str = "\u{1b}[39m";

fn load(source: &str) -> BfInterpret {
    BfInterpret::new(source.to_string()).unwrap()
}

#[test]
fn tags_show_as_their_symbols() {
    assert_eq!(OpCode::Right.to_string(), ">");
    assert_eq!(OpCode::Left.to_string(), "<");
    assert_eq!(OpCode::Plus.to_string(), "+");
    assert_eq!(OpCode::Minus.to_string(), "-");
    assert_eq!(OpCode::Put.to_string(), ".");
    assert_eq!(OpCode::Get.to_string(), ",");
    assert_eq!(OpCode::LoopStart.to_string(), "[");
    assert_eq!(OpCode::LoopEnd.to_string(), "]");
    assert_eq!(OpCode::SwapData.to_string(), "$");
    assert_eq!(OpCode::SwapPointer.to_string(), "!");
    assert_eq!(OpCode::JumpForwardByte.to_string(), ">");
    assert_eq!(OpCode::JumpForwardWord.to_string(), ">");
    assert_eq!(OpCode::JumpAbsoluteByte.to_string(), ">");
    assert_eq!(OpCode::JumpAbsoluteWord.to_string(), ">");
    assert_eq!(OpCode::Return.to_string(), "?");
    assert_eq!(OpCode::LoopStart.symbol(), '[');
}

#[test]
fn events_show_as_their_symbols() {
    assert_eq!(Operation::Right().to_string(), ">");
    assert_eq!(Operation::Left().to_string(), "<");
    assert_eq!(Operation::Plus().to_string(), "+");
    assert_eq!(Operation::Minus().to_string(), "-");
    assert_eq!(Operation::Get().to_string(), ",");
    assert_eq!(Operation::LoopStart().to_string(), "[");
    assert_eq!(Operation::LoopEnd().to_string(), "]");
    assert_eq!(Operation::SwapData().to_string(), "!");
    assert_eq!(Operation::SwapPointer().to_string(), "$");
    assert_eq!(Operation::JumpForwardByte().to_string(), ">");
    assert_eq!(Operation::JumpForwardWord().to_string(), ">");
    assert_eq!(Operation::JumpAbsoluteByte().to_string(), ">");
    assert_eq!(Operation::JumpAbsoluteWord().to_string(), ">");
    assert_eq!(Operation::Return().to_string(), "?");
}

#[test]
fn put_shows_as_the_character_with_that_code() {
    assert_eq!(Operation::Put(104).to_string(), "h");
    assert_eq!(Operation::Put(32).to_string(), " ");
    assert_eq!(Operation::Put(0).to_string(), "\0");
    assert_eq!(Operation::Put(233).to_string(), "é");
    assert_eq!(Operation::Put(255).symbol(), 'ÿ');
}

#[test]
fn fresh_machine_renders_both_windows_from_cell_zero() {
    let vm = load("+.");
    let expected = format!(
        "00000R+X.{}\n002,004,B000,X{}",
        ">".repeat(18),
        "000,".repeat(19)
    );
    assert_eq!(vm.render("R", "B", "X"), expected);
}

#[test]
fn windows_follow_the_pointers() {
    let mut source = "+".repeat(30);
    source.push('?');
    let mut vm = load(&source);
    for _ in 0..25 {
        vm.step().unwrap();
    }
    assert_eq!((vm.ip(), vm.dp()), (25, 31));
    assert_eq!(vm.peek(31), Some(25));
    let expected = format!(
        "00025{}<+|{}?!{}\n{}014,(025,|{}",
        "+".repeat(20),
        "+".repeat(4),
        ">".repeat(13),
        "002,".repeat(19),
        "000,".repeat(19)
    );
    assert_eq!(vm.render("<", "(", "|"), expected);
}

#[test]
fn window_stops_at_the_end_of_the_arena() {
    let mut vm = load("");
    for _ in 0..29_990 {
        vm.step().unwrap();
    }
    assert_eq!((vm.ip(), vm.dp()), (29_990, 29_990));
    let expected = format!(
        "29990{}ab>cd{}\n{}e000,cd{}",
        ">".repeat(20),
        ">".repeat(9),
        "000,".repeat(20),
        "000,".repeat(9)
    );
    assert_eq!(vm.render("ab", "e", "cd"), expected);
}

#[test]
fn cell_that_decodes_to_nothing_is_left_out_of_the_code_row() {
    let mut vm = load("-?");
    vm.step().unwrap();
    assert_eq!(vm.peek(2), Some(255));
    let expected = format!(
        "00001-[?]{}\n003,014,(255,]{}",
        ">".repeat(18),
        "000,".repeat(19)
    );
    assert_eq!(vm.render("[", "(", "]"), expected);
}

#[test]
fn marks_may_be_empty() {
    let vm = load("?");
    let expected = format!("00000?{}\n014,{}", ">".repeat(19), "000,".repeat(20));
    assert_eq!(vm.render("", "", ""), expected);
}

#[test]
fn to_string_marks_with_the_terminal_colours() {
    let mut vm = load("+[-]?");
    vm.step().unwrap();
    let shown = vm.to_string();
    let coloured = vm.render(RED, BLUE, RESET);
    let plain = vm.render("", "", RESET);
    assert!(shown == coloured || shown == plain);
    assert!(shown.starts_with("00001"));
    assert_eq!(shown.matches(RESET).count(), 2);
    assert_ne!(shown, vm.render("", "", ""));
}

#[test]
fn summary_lists_pointers_and_loop_addresses() {
    let mut vm = load("+[[[-]]]?");
    assert_eq!(vm.summary(), "ip: 0, dp: 9, jb: [] ");
    vm.step().unwrap();
    vm.step().unwrap();
    assert_eq!(vm.summary(), "ip: 2, dp: 9, jb: [1] ");
    vm.step().unwrap();
    vm.step().unwrap();
    assert_eq!(vm.summary(), "ip: 4, dp: 9, jb: [1, 2, 3] ");
}

#[test]
fn summary_writes_numbers_without_padding() {
    let mut source = "+".repeat(12_345);
    source.push_str("[[");
    let mut vm = load(&source);
    assert_eq!(vm.summary(), "ip: 0, dp: 12347, jb: [] ");
    for _ in 0..12_347 {
        vm.step().unwrap();
    }
    assert_eq!(vm.summary(), "ip: 12347, dp: 12347, jb: [12345, 12346] ");
}

#[test]
fn debug_string_is_summary_and_rendering() {
    let mut vm = load("+[-]?");
    vm.step().unwrap();
    vm.step().unwrap();
    let text = vm.debug_string();
    let head = "ip: 2, dp: 5, jb: [1] \n";
    assert!(text.starts_with(head));
    assert_eq!(&text[head.len()..], vm.to_string());
}
