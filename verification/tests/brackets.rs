use brain_frick::bf_parse::brackets::scan_forward;
use brain_frick::bf_parse::model::ARENA_SIZE;
use brain_frick::bf_parse::OpCode;

fn arena(source: &str) -> [u8; ARENA_SIZE] {
    let mut mem = [0u8; ARENA_SIZE];
    for (i, symbol) in source.chars().enumerate() {
        mem[i] = OpCode::from_symbol(symbol).unwrap().code();
    }
    mem
}

#[test]
fn arena_has_thirty_thousand_cells() {
    assert_eq!(ARENA_SIZE, 30_000);
}

#[test]
fn scan_stops_at_the_matching_end() {
    assert_eq!(scan_forward(&arena("[]"), 0), 1);
    assert_eq!(scan_forward(&arena("[+-><.,]"), 0), 7);
    assert_eq!(scan_forward(&arena("++[>]"), 2), 4);
}

#[test]
fn scan_passes_nested_loops() {
    let mem = arena("[[][[]]][]");
    assert_eq!(scan_forward(&mem, 0), 7);
    assert_eq!(scan_forward(&mem, 1), 2);
    assert_eq!(scan_forward(&mem, 3), 6);
    assert_eq!(scan_forward(&mem, 4), 5);
    assert_eq!(scan_forward(&mem, 8), 9);
}

#[test]
fn scan_passes_deep_nesting() {
    let depth: usize = 5_000;
    let mut source = "[".repeat(depth);
    source.push_str(&"]".repeat(depth));
    let mem = arena(&source);
    assert_eq!(scan_forward(&mem, 0), 2 * depth - 1);
    assert_eq!(scan_forward(&mem, depth - 1), depth);
    assert_eq!(scan_forward(&mem, 17), 2 * depth - 18);
}

#[test]
fn scan_from_any_cell_stops_at_the_next_unopened_end() {
    let mem = arena("+]]");
    assert_eq!(scan_forward(&mem, 0), 1);
    assert_eq!(scan_forward(&mem, 1), 2);
}

#[test]
fn scan_without_an_end_stops_at_the_end_of_the_arena() {
    assert_eq!(scan_forward(&arena("["), 0), ARENA_SIZE);
    assert_eq!(scan_forward(&arena("[[]"), 0), ARENA_SIZE);
    assert_eq!(scan_forward(&arena(""), 29_999), ARENA_SIZE);
}

#[test]
fn scan_finds_an_end_in_the_last_cell() {
    let mut mem = arena("[");
    mem[ARENA_SIZE - 1] = OpCode::LoopEnd.code();
    assert_eq!(scan_forward(&mem, 0), ARENA_SIZE - 1);
}

#[test]
fn scan_stops_at_a_cell_that_cannot_be_decoded() {
    let mut mem = arena("[+++]");
    mem[2] = 15;
    assert_eq!(scan_forward(&mem, 0), 2);
    mem[2] = 0xff;
    assert_eq!(scan_forward(&mem, 0), 2);
    mem[2] = 0x1f;
    assert_eq!(scan_forward(&mem, 0), 2);
}

#[test]
fn scan_reads_brackets_by_the_low_four_bits() {
    let mut mem = arena("[+++]+]");
    mem[1] = 0x36;
    assert_eq!(scan_forward(&mem, 0), 6);
    mem[1] = 0x47;
    assert_eq!(scan_forward(&mem, 0), 1);
}
