use wordvm::isa::{add_words, nor_words, offset_memory, Instruction};

/// Assemble an instruction word: 3-bit opcode in bits 24-22, register fields
/// in bits 21-19 and 18-16, and the low 16 bits (immediate or destination
/// register).
fn word(op: u32, reg_a: u32, reg_b: u32, low: u32) -> u32 {
    (op << 22) | (reg_a << 19) | (reg_b << 16) | (low & 0xFFFF)
}

#[test]
fn decodes_add() {
    assert_eq!(
        Instruction::new(word(0, 1, 2, 3)),
        Instruction::Add { reg_a: 1, reg_b: 2, dst_reg: 3 }
    );
}

#[test]
fn decodes_nor() {
    assert_eq!(
        Instruction::new(word(1, 7, 0, 5)),
        Instruction::Nor { reg_a: 7, reg_b: 0, dst_reg: 5 }
    );
}

#[test]
fn decodes_lw_positive_offset() {
    assert_eq!(
        Instruction::new(word(2, 3, 4, 100)),
        Instruction::Lw { reg_a: 3, reg_b: 4, offset_field: 100 }
    );
}

#[test]
fn decodes_lw_negative_offset() {
    assert_eq!(
        Instruction::new(word(2, 1, 0, 0xFFFF)),
        Instruction::Lw { reg_a: 1, reg_b: 0, offset_field: -1 }
    );
    assert_eq!(
        Instruction::new(word(2, 1, 0, 0x8000)),
        Instruction::Lw { reg_a: 1, reg_b: 0, offset_field: -32768 }
    );
}

#[test]
fn decodes_sw() {
    assert_eq!(
        Instruction::new(word(3, 6, 5, 0x7FFF)),
        Instruction::Sw { reg_a: 6, reg_b: 5, offset_field: 32767 }
    );
}

#[test]
fn decodes_beq() {
    assert_eq!(
        Instruction::new(word(4, 2, 2, 0xFFFD)),
        Instruction::Beq { reg_a: 2, reg_b: 2, offset_field: -3 }
    );
}

#[test]
fn decodes_jalr() {
    assert_eq!(
        Instruction::new(word(5, 4, 7, 0)),
        Instruction::Jalr { reg_a: 4, reg_b: 7 }
    );
}

#[test]
fn decodes_halt_and_noop() {
    assert_eq!(Instruction::new(word(6, 0, 0, 0)), Instruction::Halt);
    assert_eq!(Instruction::new(word(7, 0, 0, 0)), Instruction::Noop);
}

#[test]
fn decode_is_total_over_all_opcodes() {
    // Every opcode maps to one of the eight forms, whatever the other bits
    // hold; the high bits above the opcode are ignored.
    for op in 0u32..8 {
        let code = word(op, 5, 6, 0x1234) | 0xFE00_0000;
        let decoded = Instruction::new(code);
        let expected_tag = match decoded {
            Instruction::Add { .. } => 0,
            Instruction::Nor { .. } => 1,
            Instruction::Lw { .. } => 2,
            Instruction::Sw { .. } => 3,
            Instruction::Beq { .. } => 4,
            Instruction::Jalr { .. } => 5,
            Instruction::Halt => 6,
            Instruction::Noop => 7,
        };
        assert_eq!(expected_tag, op);
    }
}

#[test]
fn decode_is_deterministic() {
    let code = word(2, 1, 0, 0x8001);
    assert_eq!(Instruction::new(code), Instruction::new(code));
}

#[test]
fn add_words_wraps() {
    assert_eq!(add_words(0xFFFF_FFFF, 1), 0);
    assert_eq!(add_words(0xFFFF_FFFF, 0xFFFF_FFFF), 0xFFFF_FFFE);
    assert_eq!(add_words(2, 3), 5);
    assert_eq!(add_words(2, 3), add_words(3, 2));
}

#[test]
fn nor_words_matches_de_morgan() {
    let samples = [
        (0u32, 0u32),
        (0xFFFF_FFFF, 0),
        (0xDEAD_BEEF, 0x1234_5678),
        (0xAAAA_AAAA, 0x5555_5555),
        (1, 0x8000_0000),
    ];
    for (a, b) in samples {
        assert_eq!(nor_words(a, b), !a & !b);
        assert_eq!(nor_words(a, b), !(a | b));
    }
}

#[test]
fn offset_memory_applies_signed_offsets() {
    assert_eq!(offset_memory(10, 5), 15);
    assert_eq!(offset_memory(10, -5), 5);
    assert_eq!(offset_memory(0, -1), 0xFFFF_FFFF);
    assert_eq!(offset_memory(0xFFFF_FFFF, 1), 0);
    assert_eq!(offset_memory(0xFFFF_FFFF, 32767), 32766);
    assert_eq!(offset_memory(5, -32768), 0xFFFF_8005);
}
