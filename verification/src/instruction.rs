//! The instruction set and its bit-level decoder.
//!
//! One 24-bit word encodes one instruction. The top 6 bits, reduced modulo
//! the number of distinct opcodes, select the operation; up to three 6-bit
//! operand fields follow, at bits 6..=11, 12..=17 and 18..=23 counted
//! MSB-first across the word. An operand field is one dereference bit (the
//! field's high bit) over a 5-bit register index (its low 5 bits). The
//! immediate of `LoadLow`/`LoadHigh` is read from the second field, so it
//! carries 6 bits; its logical width is 12 bits (see `load_low_word` in the
//! engine), and the encoding simply cannot express the upper part.

use vstd::prelude::*;

verus! {

/// An immediate operand. Only the low 12 bits ever take effect, and the
/// 6-bit instruction field can populate just the low 6 of those.
pub type Immediate = u16;

/// A decoded reference to a register: the register's word itself, or, with
/// `deref`, the program cell addressed by that word.
#[derive(Clone, Copy, Debug, PartialEq, Eq, Structural)]
pub struct Register {
    /// When set, the operand denotes the program cell whose address is the
    /// register's word; when clear, the register's word itself.
    pub deref: bool,
    /// The register index. The decoder only produces 0..=31; reads and
    /// writes reject anything larger.
    pub value: usize,
}

/// A decoded operation: an opcode tag with its register operands and/or one
/// immediate value, fully determined by one fetched word.
#[derive(Clone, Copy, Debug, PartialEq, Eq, Structural)]
pub enum Instruction {
    // Moving
    LoadLow(Register, Immediate),
    LoadHigh(Register, Immediate),
    Move(Register, Register),
    // Arithmetic
    Add(Register, Register, Register),
    Subtract(Register, Register, Register),
    Multiply(Register, Register, Register),
    Divide(Register, Register, Register),
    Modulo(Register, Register, Register),
    And(Register, Register, Register),
    Or(Register, Register, Register),
    // Comparisons
    Equal(Register, Register, Register),
    NotEqual(Register, Register, Register),
    GreaterThan(Register, Register, Register),
    LessThan(Register, Register, Register),
    GreaterThanEqual(Register, Register, Register),
    LessThanEqual(Register, Register, Register),
    // Memory
    Alloc(Register, Register),
    MemCopy(Register, Register, Register),
    CurrAddress(Register),
    // Jumps and calls
    Jump(Register),
    JumpIf(Register, Register),
    Call(Register),
    CallIf(Register, Register),
    Return,
    Halt,
    // Stack
    Push(Register),
    Pop(Register),
}

/// How many distinct opcodes exist: raw opcodes are reduced modulo this.
pub const OPCODE_COUNT: u32 = 27;

/// The raw opcode: the word's top 6 bits.
pub open spec fn raw_opcode(w: u32) -> int {
    w as int / 0x40000
}

/// The reduced opcode that selects the operation family.
pub open spec fn reduced_opcode(w: u32) -> int {
    raw_opcode(w) % 27
}

/// The first 6-bit operand field, bits 6..=11 MSB-first.
pub open spec fn field1(w: u32) -> int {
    (w as int / 4096) % 64
}

/// The second 6-bit operand field, bits 12..=17 MSB-first.
pub open spec fn field2(w: u32) -> int {
    (w as int / 64) % 64
}

/// The third 6-bit operand field, bits 18..=23 MSB-first.
pub open spec fn field3(w: u32) -> int {
    w as int % 64
}

/// The register operand a 6-bit field denotes: dereference bit over a
/// 5-bit index.
pub open spec fn reg_operand(f: int) -> Register {
    Register { deref: f >= 32, value: (f % 32) as usize }
}

/// The three decoded register operand slots of a word.
pub open spec fn operand(w: u32, slot: int) -> Register {
    if slot == 1 {
        reg_operand(field1(w))
    } else if slot == 2 {
        reg_operand(field2(w))
    } else {
        reg_operand(field3(w))
    }
}

/// The immediate operand of a word: its second field, read unsigned.
pub open spec fn immediate(w: u32) -> Immediate {
    field2(w) as u16
}

/// Which member of the 13-way arithmetic/comparison family a reduced opcode
/// in 3..=15 selects: the reduced opcode modulo 13.
pub open spec fn arith_member(k: int, a: Register, b: Register, c: Register) -> Instruction {
    let j = k % 13;
    if j == 0 {
        Instruction::Add(a, b, c)
    } else if j == 1 {
        Instruction::Subtract(a, b, c)
    } else if j == 2 {
        Instruction::Multiply(a, b, c)
    } else if j == 3 {
        Instruction::Divide(a, b, c)
    } else if j == 4 {
        Instruction::Modulo(a, b, c)
    } else if j == 5 {
        Instruction::And(a, b, c)
    } else if j == 6 {
        Instruction::Or(a, b, c)
    } else if j == 7 {
        Instruction::Equal(a, b, c)
    } else if j == 8 {
        Instruction::NotEqual(a, b, c)
    } else if j == 9 {
        Instruction::GreaterThan(a, b, c)
    } else if j == 10 {
        Instruction::LessThan(a, b, c)
    } else if j == 11 {
        Instruction::GreaterThanEqual(a, b, c)
    } else {
        Instruction::LessThanEqual(a, b, c)
    }
}

/// The instruction a word decodes to. Every word decodes to something: any
/// reduced opcode not claimed by the table decodes as `Halt`.
pub open spec fn spec_decode(w: u32) -> Instruction {
    let k = reduced_opcode(w);
    let r1 = operand(w, 1);
    let r2 = operand(w, 2);
    let r3 = operand(w, 3);
    if k == 0 {
        Instruction::LoadLow(r1, immediate(w))
    } else if k == 1 {
        Instruction::LoadHigh(r1, immediate(w))
    } else if k == 2 {
        Instruction::Move(r1, r2)
    } else if 3 <= k && k <= 15 {
        arith_member(k, r1, r2, r3)
    } else if k == 16 {
        // The size operand, then the destination from the next field.
        Instruction::Alloc(r1, r2)
    } else if k == 17 {
        Instruction::MemCopy(r1, r2, r3)
    } else if k == 18 {
        Instruction::CurrAddress(r1)
    } else if k == 19 || k == 20 {
        // The low bit selects the jump or the call variant.
        if k % 2 == 0 {
            Instruction::Jump(r1)
        } else {
            Instruction::Call(r1)
        }
    } else if k == 21 || k == 22 {
        if k % 2 == 0 {
            Instruction::JumpIf(r1, r2)
        } else {
            Instruction::CallIf(r1, r2)
        }
    } else if k == 23 {
        Instruction::Return
    } else if k == 24 || k == 25 {
        if k % 2 == 0 {
            Instruction::Push(r1)
        } else {
            Instruction::Pop(r1)
        }
    } else {
        Instruction::Halt
    }
}

/// Reads the register operand a 6-bit field denotes.
fn decode_operand(f: u32) -> (r: Register)
    requires
        f < 64,
    ensures
        r == reg_operand(f as int),
        r.value < 32,
{
    Register { deref: f >= 32, value: (f % 32) as usize }
}

/// Decodes one fetched word into an instruction. Total: every 24-bit word
/// decodes to exactly one instruction, `Halt` for the unclaimed remainder
/// of the opcode space.
pub fn decode_word(w: u32) -> (instr: Instruction)
    requires
        crate::word::word_wf(w),
    ensures
        instr == spec_decode(w),
{
    let k: u32 = (w / 0x40000) % OPCODE_COUNT;
    let r1 = decode_operand((w / 4096) % 64);
    let r2 = decode_operand((w / 64) % 64);
    let r3 = decode_operand(w % 64);
    let imm: u16 = ((w / 64) % 64) as u16;
    match k {
        0 => Instruction::LoadLow(r1, imm),
        1 => Instruction::LoadHigh(r1, imm),
        2 => Instruction::Move(r1, r2),
        3..=15 => match k % 13 {
            0 => Instruction::Add(r1, r2, r3),
            1 => Instruction::Subtract(r1, r2, r3),
            2 => Instruction::Multiply(r1, r2, r3),
            3 => Instruction::Divide(r1, r2, r3),
            4 => Instruction::Modulo(r1, r2, r3),
            5 => Instruction::And(r1, r2, r3),
            6 => Instruction::Or(r1, r2, r3),
            7 => Instruction::Equal(r1, r2, r3),
            8 => Instruction::NotEqual(r1, r2, r3),
            9 => Instruction::GreaterThan(r1, r2, r3),
            10 => Instruction::LessThan(r1, r2, r3),
            11 => Instruction::GreaterThanEqual(r1, r2, r3),
            _ => Instruction::LessThanEqual(r1, r2, r3),
        },
        16 => Instruction::Alloc(r1, r2),
        17 => Instruction::MemCopy(r1, r2, r3),
        18 => Instruction::CurrAddress(r1),
        19 => Instruction::Call(r1),
        20 => Instruction::Jump(r1),
        21 => Instruction::CallIf(r1, r2),
        22 => Instruction::JumpIf(r1, r2),
        23 => Instruction::Return,
        24 => Instruction::Push(r1),
        25 => Instruction::Pop(r1),
        _ => Instruction::Halt,
    }
}

} // verus!
