use brain_frick::bf_parse::BuildError;
use brain_frick::bf_parse::OpCode;
use brain_frick::BfInterpret;

#[test]
fn loads_each_symbol_as_its_code() {
    let vm = BfInterpret::new("><+-.,[]?".to_string()).unwrap();
    assert_eq!(vm.ip(), 0);
    assert_eq!(vm.dp(), 9);
    let expected: [u8; 9] = [0, 1, 2, 3, 4, 5, 6, 7, 14];
    for (i, code) in expected.iter().enumerate() {
        assert_eq!(vm.peek(i as u16), Some(*code));
    }
    assert_eq!(vm.peek(9), Some(0));
    assert_eq!(vm.peek(29_999), Some(0));
    assert!(vm.jump_back().is_empty());
}

#[test]
fn data_pointer_starts_after_the_program() {
    for len in [0usize, 1, 2, 63, 1000, 29_999] {
        let source = "+".repeat(len);
        let vm = BfInterpret::new(source).unwrap();
        assert_eq!(vm.dp() as usize, len);
        assert_eq!(vm.ip(), 0);
    }
}

#[test]
fn empty_source_loads() {
    let vm = BfInterpret::new(String::new()).unwrap();
    assert_eq!(vm.dp(), 0);
    assert_eq!(vm.peek(0), Some(0));
}

#[test]
fn unsupported_symbol_is_refused() {
    assert_eq!(BfInterpret::new("+a".to_string()).err(), Some(BuildError::UnsupportedSymbol));
    assert_eq!(BfInterpret::new(" ".to_string()).err(), Some(BuildError::UnsupportedSymbol));
    assert_eq!(BfInterpret::new("+\n".to_string()).err(), Some(BuildError::UnsupportedSymbol));
    assert_eq!(BfInterpret::new("$".to_string()).err(), Some(BuildError::UnsupportedSymbol));
    assert_eq!(BfInterpret::new("!".to_string()).err(), Some(BuildError::UnsupportedSymbol));
    assert_eq!(BfInterpret::new("é".to_string()).err(), Some(BuildError::UnsupportedSymbol));
}

#[test]
fn unsupported_symbol_wins_over_length() {
    let mut source = "+".repeat(40_000);
    source.push('x');
    assert_eq!(BfInterpret::new(source).err(), Some(BuildError::UnsupportedSymbol));
    let mut source = "x".to_string();
    source.push_str(&"+".repeat(40_000));
    assert_eq!(BfInterpret::new(source).err(), Some(BuildError::UnsupportedSymbol));
}

#[test]
fn program_that_fills_the_arena_is_too_large() {
    assert_eq!(
        BfInterpret::new("+".repeat(30_000)).err(),
        Some(BuildError::ProgramTooLarge)
    );
    assert_eq!(
        BfInterpret::new("+".repeat(30_001)).err(),
        Some(BuildError::ProgramTooLarge)
    );
    assert_eq!(
        BfInterpret::new("?".repeat(100_000)).err(),
        Some(BuildError::ProgramTooLarge)
    );
    assert!(BfInterpret::new("+".repeat(29_999)).is_ok());
}

#[test]
fn codes_and_tags_correspond() {
    let tags = [
        OpCode::Right,
        OpCode::Left,
        OpCode::Plus,
        OpCode::Minus,
        OpCode::Put,
        OpCode::Get,
        OpCode::LoopStart,
        OpCode::LoopEnd,
        OpCode::SwapData,
        OpCode::SwapPointer,
        OpCode::JumpForwardByte,
        OpCode::JumpForwardWord,
        OpCode::JumpAbsoluteByte,
        OpCode::JumpAbsoluteWord,
        OpCode::Return,
    ];
    for (n, tag) in tags.iter().enumerate() {
        assert_eq!(tag.code(), n as u8);
        assert_eq!(OpCode::from_u8(n as u8), Some(*tag));
    }
    for n in 15u8..=255 {
        assert_eq!(OpCode::from_u8(n), None);
    }
}

#[test]
fn decoding_reads_the_low_four_bits_only() {
    for cell in 0u8..=255 {
        assert_eq!(OpCode::decode(cell), OpCode::from_u8(cell & 15));
    }
    assert_eq!(OpCode::decode(0x16), Some(OpCode::LoopStart));
    assert_eq!(OpCode::decode(0xf7), Some(OpCode::LoopEnd));
    assert_eq!(OpCode::decode(0x0f), None);
    assert_eq!(OpCode::decode(0xff), None);
}

#[test]
fn symbols_load_as_their_tags() {
    assert_eq!(OpCode::from_symbol('>'), Some(OpCode::Right));
    assert_eq!(OpCode::from_symbol('<'), Some(OpCode::Left));
    assert_eq!(OpCode::from_symbol('+'), Some(OpCode::Plus));
    assert_eq!(OpCode::from_symbol('-'), Some(OpCode::Minus));
    assert_eq!(OpCode::from_symbol('.'), Some(OpCode::Put));
    assert_eq!(OpCode::from_symbol(','), Some(OpCode::Get));
    assert_eq!(OpCode::from_symbol('['), Some(OpCode::LoopStart));
    assert_eq!(OpCode::from_symbol(']'), Some(OpCode::LoopEnd));
    assert_eq!(OpCode::from_symbol('?'), Some(OpCode::Return));
    assert_eq!(OpCode::from_symbol('$'), None);
    assert_eq!(OpCode::from_symbol('!'), None);
    assert_eq!(OpCode::from_symbol('a'), None);
}
