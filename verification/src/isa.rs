//! Instruction encoding: how a 32-bit word decodes into one of the eight
//! instruction forms, and the wrapping word arithmetic the forms use.

use vstd::prelude::*;

verus! {

/// Number of 32-bit words in the machine's memory.
pub const MEMORY_SIZE: usize = 65536;

/// Number of general-purpose registers.
pub const REGISTER_COUNT: usize = 8;

/// A decoded instruction. Register operands are 3-bit indices (always below
/// `REGISTER_COUNT`); offsets are signed 16-bit two's-complement fields.
#[derive(Clone, Copy, Debug, PartialEq, Eq, Structural)]
pub enum Instruction {
    /// `dst_reg <- reg_a + reg_b` (wrapping 32-bit addition).
    Add { reg_a: u8, reg_b: u8, dst_reg: u8 },
    /// `dst_reg <- !(reg_a | reg_b)` (bitwise NOR).
    Nor { reg_a: u8, reg_b: u8, dst_reg: u8 },
    /// `reg_b <- memory[reg_a + offset_field]`.
    Lw { reg_a: u8, reg_b: u8, offset_field: i16 },
    /// `memory[reg_a + offset_field] <- reg_b`.
    Sw { reg_a: u8, reg_b: u8, offset_field: i16 },
    /// If `reg_a == reg_b`, `pc <- pc + offset_field`; else sequential.
    Beq { reg_a: u8, reg_b: u8, offset_field: i16 },
    /// `reg_b <- pc + 1`, then `pc <- reg_a` (link written before the jump
    /// target is read, so `reg_a == reg_b` jumps to the link value).
    Jalr { reg_a: u8, reg_b: u8 },
    /// Stop the machine.
    Halt,
    /// No state change besides the pc advance.
    Noop,
}

/// The 3-bit opcode field of an instruction word.
pub open spec fn spec_opcode(code: u32) -> u32 {
    (code >> 22) & 0x7
}

/// The first register field, bits 21-19.
pub open spec fn spec_reg_a(code: u32) -> u8 {
    ((code >> 19) & 0x7) as u8
}

/// The second register field, bits 18-16.
pub open spec fn spec_reg_b(code: u32) -> u8 {
    ((code >> 16) & 0x7) as u8
}

/// The destination register field, bits 2-0.
pub open spec fn spec_dst_reg(code: u32) -> u8 {
    (code & 0x7) as u8
}

/// The 16-bit immediate field, bits 15-0, read as a signed two's-complement
/// value.
pub open spec fn spec_offset(code: u32) -> i16 {
    if (code & 0xFFFF) < 0x8000 {
        (code & 0xFFFF) as i16
    } else {
        ((code & 0xFFFF) - 0x10000) as i16
    }
}

/// What a 32-bit word means: the decoder is a total function over all
/// instruction words, selected by the 3-bit opcode.
pub open spec fn decode(code: u32) -> Instruction {
    let op = spec_opcode(code);
    if op == 0 {
        Instruction::Add {
            reg_a: spec_reg_a(code),
            reg_b: spec_reg_b(code),
            dst_reg: spec_dst_reg(code),
        }
    } else if op == 1 {
        Instruction::Nor {
            reg_a: spec_reg_a(code),
            reg_b: spec_reg_b(code),
            dst_reg: spec_dst_reg(code),
        }
    } else if op == 2 {
        Instruction::Lw {
            reg_a: spec_reg_a(code),
            reg_b: spec_reg_b(code),
            offset_field: spec_offset(code),
        }
    } else if op == 3 {
        Instruction::Sw {
            reg_a: spec_reg_a(code),
            reg_b: spec_reg_b(code),
            offset_field: spec_offset(code),
        }
    } else if op == 4 {
        Instruction::Beq {
            reg_a: spec_reg_a(code),
            reg_b: spec_reg_b(code),
            offset_field: spec_offset(code),
        }
    } else if op == 5 {
        Instruction::Jalr { reg_a: spec_reg_a(code), reg_b: spec_reg_b(code) }
    } else if op == 6 {
        Instruction::Halt
    } else {
        Instruction::Noop
    }
}

impl Instruction {
    /// Every register operand is a valid register index.
    pub open spec fn wf(self) -> bool {
        match self {
            Instruction::Add { reg_a, reg_b, dst_reg } => {
                reg_a < REGISTER_COUNT && reg_b < REGISTER_COUNT && dst_reg < REGISTER_COUNT
            },
            Instruction::Nor { reg_a, reg_b, dst_reg } => {
                reg_a < REGISTER_COUNT && reg_b < REGISTER_COUNT && dst_reg < REGISTER_COUNT
            },
            Instruction::Lw { reg_a, reg_b, .. } => {
                reg_a < REGISTER_COUNT && reg_b < REGISTER_COUNT
            },
            Instruction::Sw { reg_a, reg_b, .. } => {
                reg_a < REGISTER_COUNT && reg_b < REGISTER_COUNT
            },
            Instruction::Beq { reg_a, reg_b, .. } => {
                reg_a < REGISTER_COUNT && reg_b < REGISTER_COUNT
            },
            Instruction::Jalr { reg_a, reg_b } => {
                reg_a < REGISTER_COUNT && reg_b < REGISTER_COUNT
            },
            Instruction::Halt => true,
            Instruction::Noop => true,
        }
    }

    /// Decode an instruction word.
    pub fn new(code: u32) -> (instruction: Instruction)
        ensures
            instruction == decode(code),
    {
        proof {
            lemma_field_bounds(code);
        }
        let op: u32 = (code >> 22) & 0x7;
        if op == 0 {
            let (reg_a, reg_b, dst_reg) = Instruction::parse_r(code);
            Instruction::Add { reg_a, reg_b, dst_reg }
        } else if op == 1 {
            let (reg_a, reg_b, dst_reg) = Instruction::parse_r(code);
            Instruction::Nor { reg_a, reg_b, dst_reg }
        } else if op == 2 {
            let (reg_a, reg_b, offset_field) = Instruction::parse_i(code);
            Instruction::Lw { reg_a, reg_b, offset_field }
        } else if op == 3 {
            let (reg_a, reg_b, offset_field) = Instruction::parse_i(code);
            Instruction::Sw { reg_a, reg_b, offset_field }
        } else if op == 4 {
            let (reg_a, reg_b, offset_field) = Instruction::parse_i(code);
            Instruction::Beq { reg_a, reg_b, offset_field }
        } else if op == 5 {
            let (reg_a, reg_b) = Instruction::parse_j(code);
            Instruction::Jalr { reg_a, reg_b }
        } else if op == 6 {
            Instruction::Halt
        } else {
            Instruction::Noop
        }
    }

    /// Operand fields of a register-register form: both sources and the
    /// destination register.
    fn parse_r(code: u32) -> (fields: (u8, u8, u8))
        ensures
            fields == (spec_reg_a(code), spec_reg_b(code), spec_dst_reg(code)),
    {
        proof {
            lemma_field_bounds(code);
        }
        (((code >> 19) & 0x7) as u8, ((code >> 16) & 0x7) as u8, (code & 0x7) as u8)
    }

    /// Operand fields of a register-immediate form: two registers and the
    /// signed 16-bit offset.
    fn parse_i(code: u32) -> (fields: (u8, u8, i16))
        ensures
            fields == (spec_reg_a(code), spec_reg_b(code), spec_offset(code)),
    {
        proof {
            lemma_field_bounds(code);
        }
        let low: u32 = code & 0xFFFF;
        let offset_field: i16 = if low < 0x8000 {
            low as i16
        } else {
            ((low as i32) - 0x10000) as i16
        };
        (((code >> 19) & 0x7) as u8, ((code >> 16) & 0x7) as u8, offset_field)
    }

    /// Operand fields of the jump-and-link form: the two registers.
    fn parse_j(code: u32) -> (fields: (u8, u8))
        ensures
            fields == (spec_reg_a(code), spec_reg_b(code)),
    {
        proof {
            lemma_field_bounds(code);
        }
        (((code >> 19) & 0x7) as u8, ((code >> 16) & 0x7) as u8)
    }
}

/// The masked operand fields of any word are in range: registers below 8,
/// the immediate below 2^16, the opcode below 8.
pub proof fn lemma_field_bounds(code: u32)
    ensures
        spec_opcode(code) < 8,
        (code >> 19) & 0x7 < 8,
        (code >> 16) & 0x7 < 8,
        code & 0x7 < 8,
        code & 0xFFFF < 0x10000,
        spec_reg_a(code) < 8,
        spec_reg_b(code) < 8,
        spec_dst_reg(code) < 8,
{
    assert((code >> 22) & 0x7 < 8) by (bit_vector);
    assert((code >> 19) & 0x7 < 8) by (bit_vector);
    assert((code >> 16) & 0x7 < 8) by (bit_vector);
    assert(code & 0x7 < 8) by (bit_vector);
    assert(code & 0xFFFF < 0x10000) by (bit_vector);
}

/// Decoding always yields an instruction whose register operands are valid.
pub proof fn lemma_decode_wf(code: u32)
    ensures
        decode(code).wf(),
{
    lemma_field_bounds(code);
}

/// 32-bit addition that wraps around on overflow.
pub open spec fn wrap_add(a: u32, b: u32) -> u32 {
    if a + b < 0x1_0000_0000 {
        (a + b) as u32
    } else {
        (a + b - 0x1_0000_0000) as u32
    }
}

/// Bitwise NOR of two words.
pub open spec fn nor(a: u32, b: u32) -> u32 {
    !(a | b)
}

/// A base address plus a signed 16-bit offset, with 32-bit wraparound in
/// both directions.
pub open spec fn wrap_offset(base: u32, offset: i16) -> u32 {
    if base + offset < 0 {
        (base + offset + 0x1_0000_0000) as u32
    } else if base + offset < 0x1_0000_0000 {
        (base + offset) as u32
    } else {
        (base + offset - 0x1_0000_0000) as u32
    }
}

/// Wrapping 32-bit addition of two register values.
pub fn add_words(a: u32, b: u32) -> (sum: u32)
    ensures
        sum == wrap_add(a, b),
{
    let wide: u64 = (a as u64) + (b as u64);
    if wide < 0x1_0000_0000 {
        wide as u32
    } else {
        (wide - 0x1_0000_0000) as u32
    }
}

/// Bitwise NOR of two words.
pub fn nor_words(a: u32, b: u32) -> (value: u32)
    ensures
        value == nor(a, b),
{
    !(a | b)
}

/// Apply a signed 16-bit offset to an address or program counter, wrapping
/// around the 32-bit word range.
pub fn offset_memory(address: u32, offset_field: i16) -> (target: u32)
    ensures
        target == wrap_offset(address, offset_field),
{
    if offset_field >= 0 {
        let wide: u64 = (address as u64) + (offset_field as u64);
        if wide < 0x1_0000_0000 {
            wide as u32
        } else {
            (wide - 0x1_0000_0000) as u32
        }
    } else {
        let magnitude: u32 = (-(offset_field as i32)) as u32;
        if address >= magnitude {
            address - magnitude
        } else {
            ((address as u64) + 0x1_0000_0000 - (magnitude as u64)) as u32
        }
    }
}

} // verus!
