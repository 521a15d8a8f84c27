use rastervm::instruction::{decode_word, Instruction, Register};
use rastervm::word::{from_address, to_address};

/// Packs a reduced opcode and three 6-bit operand fields into a word.
fn enc(op: u32, f1: u32, f2: u32, f3: u32) -> u32 {
    (op << 18) | (f1 << 12) | (f2 << 6) | f3
}

/// The 6-bit operand field for a register reference.
fn rf(deref: bool, index: u32) -> u32 {
    (if deref { 32 } else { 0 }) | index
}

fn reg(deref: bool, value: usize) -> Register {
    Register { deref, value }
}

#[test]
fn address_round_trip_examples() {
    for &(x, y) in &[(0, 0), (1, 0), (0, 1), (123, 456), (4095, 4095), (2048, 17)] {
        let w = from_address(x, y);
        assert_eq!(to_address(w), (x, y));
    }
}

#[test]
fn address_word_layout() {
    // byte0 = top 8 bits of x; byte1 = low 4 of x over top 4 of y; byte2 = low 8 of y.
    let w = from_address(0xABC, 0xDEF);
    assert_eq!(w, 0xABCDEF);
    assert_eq!(to_address(0xABCDEF), (0xABC, 0xDEF));
}

#[test]
fn decode_load_low_and_high() {
    assert_eq!(
        decode_word(enc(0, rf(false, 3), 42, 0)),
        Instruction::LoadLow(reg(false, 3), 42)
    );
    assert_eq!(
        decode_word(enc(1, rf(true, 7), 63, 0)),
        Instruction::LoadHigh(reg(true, 7), 63)
    );
}

#[test]
fn decode_move_and_deref_flag() {
    assert_eq!(
        decode_word(enc(2, rf(true, 5), rf(false, 31), 0)),
        Instruction::Move(reg(true, 5), reg(false, 31))
    );
}

#[test]
fn decode_arithmetic_family() {
    let (a, b, c) = (rf(false, 1), rf(false, 2), rf(false, 3));
    let (ra, rb, rc) = (reg(false, 1), reg(false, 2), reg(false, 3));
    // The family member is the reduced opcode modulo 13.
    assert_eq!(decode_word(enc(13, a, b, c)), Instruction::Add(ra, rb, rc));
    assert_eq!(decode_word(enc(14, a, b, c)), Instruction::Subtract(ra, rb, rc));
    assert_eq!(decode_word(enc(15, a, b, c)), Instruction::Multiply(ra, rb, rc));
    assert_eq!(decode_word(enc(3, a, b, c)), Instruction::Divide(ra, rb, rc));
    assert_eq!(decode_word(enc(4, a, b, c)), Instruction::Modulo(ra, rb, rc));
    assert_eq!(decode_word(enc(5, a, b, c)), Instruction::And(ra, rb, rc));
    assert_eq!(decode_word(enc(6, a, b, c)), Instruction::Or(ra, rb, rc));
    assert_eq!(decode_word(enc(7, a, b, c)), Instruction::Equal(ra, rb, rc));
    assert_eq!(decode_word(enc(8, a, b, c)), Instruction::NotEqual(ra, rb, rc));
    assert_eq!(decode_word(enc(9, a, b, c)), Instruction::GreaterThan(ra, rb, rc));
    assert_eq!(decode_word(enc(10, a, b, c)), Instruction::LessThan(ra, rb, rc));
    assert_eq!(decode_word(enc(11, a, b, c)), Instruction::GreaterThanEqual(ra, rb, rc));
    assert_eq!(decode_word(enc(12, a, b, c)), Instruction::LessThanEqual(ra, rb, rc));
}

#[test]
fn decode_memory_and_control() {
    let (f1, f2, f3) = (rf(false, 1), rf(false, 2), rf(false, 3));
    let (r1, r2, r3) = (reg(false, 1), reg(false, 2), reg(false, 3));
    assert_eq!(decode_word(enc(16, f1, f2, 0)), Instruction::Alloc(r1, r2));
    assert_eq!(decode_word(enc(17, f1, f2, f3)), Instruction::MemCopy(r1, r2, r3));
    assert_eq!(decode_word(enc(18, f1, 0, 0)), Instruction::CurrAddress(r1));
    assert_eq!(decode_word(enc(19, f1, 0, 0)), Instruction::Call(r1));
    assert_eq!(decode_word(enc(20, f1, 0, 0)), Instruction::Jump(r1));
    assert_eq!(decode_word(enc(21, f1, f2, 0)), Instruction::CallIf(r1, r2));
    assert_eq!(decode_word(enc(22, f1, f2, 0)), Instruction::JumpIf(r1, r2));
    assert_eq!(decode_word(enc(23, 0, 0, 0)), Instruction::Return);
    assert_eq!(decode_word(enc(24, f1, 0, 0)), Instruction::Push(r1));
    assert_eq!(decode_word(enc(25, f1, 0, 0)), Instruction::Pop(r1));
    assert_eq!(decode_word(enc(26, 0, 0, 0)), Instruction::Halt);
}

#[test]
fn decode_reduces_raw_opcode_modulo_27() {
    // Raw opcode 29 reduces to 2: a Move.
    let w = (29 << 18) | (rf(false, 4) << 12) | (rf(false, 6) << 6);
    assert_eq!(
        decode_word(w),
        Instruction::Move(reg(false, 4), reg(false, 6))
    );
    // Raw opcode 53 reduces to 26: the Halt remainder.
    assert_eq!(decode_word(53 << 18), Instruction::Halt);
}
