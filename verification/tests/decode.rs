//! Decoder tests: every instruction family, operand extraction, and the
//! unknown-opcode shapes.

use chip8::cpu::instructions::{decode_opcode, DecodeError, Instruction};

#[test]
fn test_parse_call() {
    let opcode: u16 = 0x0111;
    let instruction = decode_opcode(opcode);

    assert_eq!(instruction, Ok(Instruction::Call(0x111)));
}

#[test]
fn test_parse_clear() {
    let opcode: u16 = 0x00E0;
    let instruction = decode_opcode(opcode);

    assert_eq!(instruction, Ok(Instruction::Clear));
}

#[test]
fn test_parse_subreturn() {
    let opcode: u16 = 0x00EE;
    let instruction = decode_opcode(opcode);

    assert_eq!(instruction, Ok(Instruction::SubReturn));
}

#[test]
fn test_parse_jump() {
    let opcode: u16 = 0x1111;
    let instruction = decode_opcode(opcode);

    assert_eq!(instruction, Ok(Instruction::Jump(0x111)));
}

#[test]
fn test_parse_subroutine() {
    let opcode: u16 = 0x2111;
    let instruction = decode_opcode(opcode);

    assert_eq!(instruction, Ok(Instruction::CallSubroutine(0x111)));
}

#[test]
fn test_parse_skip() {
    let opcode_skip_eq: u16 = 0x3122;
    let instruction_skip_eq = decode_opcode(opcode_skip_eq);
    assert_eq!(instruction_skip_eq, Ok(Instruction::SkipEq(0x1, 0x22)));

    let opcode_skip_neq: u16 = 0x4122;
    let instruction_skip_neq = decode_opcode(opcode_skip_neq);
    assert_eq!(instruction_skip_neq, Ok(Instruction::SkipNeq(0x1, 0x22)));

    let opcode_skip_eq: u16 = 0x5120;
    let instruction_skip_eq = decode_opcode(opcode_skip_eq);
    assert_eq!(instruction_skip_eq, Ok(Instruction::SkipRegEq(0x1, 0x2)));
}

#[test]
fn test_parse_set() {
    let opcode: u16 = 0x6A12;
    let instruction = decode_opcode(opcode);

    assert_eq!(instruction, Ok(Instruction::SetReg(0xA, 0x12)));
}

#[test]
fn test_parse_load_immediate_example() {
    assert_eq!(decode_opcode(0x6A12), Ok(Instruction::SetReg(0xA, 0x12)));
}

#[test]
fn test_parse_register_ops() {
    assert_eq!(decode_opcode(0x7B34), Ok(Instruction::AddNoCarry(0xB, 0x34)));
    assert_eq!(decode_opcode(0x8120), Ok(Instruction::Assign(0x1, 0x2)));
    assert_eq!(decode_opcode(0x8121), Ok(Instruction::AssignOr(0x1, 0x2)));
    assert_eq!(decode_opcode(0x8122), Ok(Instruction::AssignAnd(0x1, 0x2)));
    assert_eq!(decode_opcode(0x8123), Ok(Instruction::AssignXor(0x1, 0x2)));
    assert_eq!(decode_opcode(0x8124), Ok(Instruction::AddCarry(0x1, 0x2)));
    assert_eq!(decode_opcode(0x8125), Ok(Instruction::SubLeft(0x1, 0x2)));
    assert_eq!(decode_opcode(0x8126), Ok(Instruction::LeastSig(0x1)));
    assert_eq!(decode_opcode(0x8127), Ok(Instruction::SubRight(0x1, 0x2)));
    assert_eq!(decode_opcode(0x812E), Ok(Instruction::MostSig(0x1)));
    assert_eq!(decode_opcode(0x9340), Ok(Instruction::CondNeq(0x3, 0x4)));
}

#[test]
fn test_parse_memory_and_flow() {
    assert_eq!(decode_opcode(0xA123), Ok(Instruction::SetI(0x123)));
    assert_eq!(decode_opcode(0xB456), Ok(Instruction::JumpV0NNN(0x456)));
    assert_eq!(decode_opcode(0xC7AB), Ok(Instruction::RandX(0x7, 0xAB)));
    assert_eq!(decode_opcode(0xD125), Ok(Instruction::DrawSprite(0x1, 0x2, 0x5)));
}

#[test]
fn test_parse_key_and_timer_family() {
    assert_eq!(decode_opcode(0xE29E), Ok(Instruction::KeyPressed(0x2)));
    assert_eq!(decode_opcode(0xE2A1), Ok(Instruction::KeyUnpressed(0x2)));
    assert_eq!(decode_opcode(0xF507), Ok(Instruction::SetXDelayTimer(0x5)));
    assert_eq!(decode_opcode(0xF50A), Ok(Instruction::AwaitKeyPress(0x5)));
    assert_eq!(decode_opcode(0xF515), Ok(Instruction::SetDelayTimer(0x5)));
    assert_eq!(decode_opcode(0xF518), Ok(Instruction::SetSoundTimer(0x5)));
    assert_eq!(decode_opcode(0xF51E), Ok(Instruction::AddVxToI(0x5)));
    assert_eq!(decode_opcode(0xF529), Ok(Instruction::SetIWithChar(0x5)));
    assert_eq!(decode_opcode(0xF533), Ok(Instruction::SetBCD(0x5)));
    assert_eq!(decode_opcode(0xF555), Ok(Instruction::RegDump(0x5)));
    assert_eq!(decode_opcode(0xF565), Ok(Instruction::RegLoad(0x5)));
}

#[test]
fn test_parse_zero_word_is_legacy_call() {
    assert_eq!(decode_opcode(0x0000), Ok(Instruction::Call(0x000)));
}

#[test]
fn test_parse_unknown_opcodes() {
    assert_eq!(
        decode_opcode(0x8128),
        Err(DecodeError::UnknownOpcode(0x8128))
    );
    assert_eq!(
        decode_opcode(0x812F),
        Err(DecodeError::UnknownOpcode(0x812F))
    );
    assert_eq!(
        decode_opcode(0xE200),
        Err(DecodeError::UnknownOpcode(0xE200))
    );
    assert_eq!(
        decode_opcode(0xF500),
        Err(DecodeError::UnknownOpcode(0xF500))
    );
    assert_eq!(
        decode_opcode(0xFFFF),
        Err(DecodeError::UnknownOpcode(0xFFFF))
    );
}

#[test]
fn test_decode_never_panics() {
    // Exhaustive: every 16-bit word decodes to something without panicking.
    let mut known: u32 = 0;
    let mut unknown: u32 = 0;
    for word in 0..=0xFFFFu16 {
        match decode_opcode(word) {
            Ok(_) => known += 1,
            Err(DecodeError::UnknownOpcode(w)) => {
                assert_eq!(w, word);
                unknown += 1;
            }
        }
    }
    assert_eq!(known + unknown, 0x10000);
    // Every word of the fully-mapped top nibbles is known.
    assert!(known >= 11 * 0x1000);
}

#[test]
fn test_nibble_helpers() {
    assert_eq!(chip8::cpu::instructions::get_nnn(0xABCD), 0xBCD);
    assert_eq!(chip8::cpu::instructions::get_nn(0xABCD), 0xCD);
    assert_eq!(chip8::cpu::instructions::get_x(0xABCD), 0xB);
    assert_eq!(chip8::cpu::instructions::get_y(0xABCD), 0xC);
}
