use chip8::{decode, Instruction};

#[test]
fn decode_fixed_words() {
    assert_eq!(decode(0x00E0), Instruction::ClearScreen);
    assert_eq!(decode(0x00EE), Instruction::Return);
}

#[test]
fn decode_address_operands() {
    assert_eq!(decode(0x1ABC), Instruction::Jump(0xABC));
    assert_eq!(decode(0x2FFF), Instruction::Call(0xFFF));
    assert_eq!(decode(0xA000), Instruction::LoadIndex(0));
    assert_eq!(decode(0xB123), Instruction::JumpOffset(0x123));
}

#[test]
fn decode_register_and_byte_operands() {
    assert_eq!(decode(0x3A12), Instruction::SkipIfEqual(0xA, 0x12));
    assert_eq!(decode(0x4BFF), Instruction::SkipIfNotEqual(0xB, 0xFF));
    assert_eq!(decode(0x6C00), Instruction::LoadByte(0xC, 0));
    assert_eq!(decode(0x7D80), Instruction::AddByte(0xD, 0x80));
    assert_eq!(decode(0xCE0F), Instruction::Random(0xE, 0x0F));
}

#[test]
fn decode_two_register_operands() {
    assert_eq!(decode(0x5120), Instruction::SkipIfSame(1, 2));
    assert_eq!(decode(0x8120), Instruction::Copy(1, 2));
    assert_eq!(decode(0x8341), Instruction::Or(3, 4));
    assert_eq!(decode(0x8562), Instruction::And(5, 6));
    assert_eq!(decode(0x8783), Instruction::Xor(7, 8));
    assert_eq!(decode(0x89A4), Instruction::Add(9, 0xA));
    assert_eq!(decode(0x8BC5), Instruction::Subtract(0xB, 0xC));
    assert_eq!(decode(0x8DE6), Instruction::ShiftRight(0xD));
    assert_eq!(decode(0x8F07), Instruction::SubtractFrom(0xF, 0));
    assert_eq!(decode(0x812E), Instruction::ShiftLeft(1));
    assert_eq!(decode(0x9340), Instruction::SkipIfDifferent(3, 4));
    assert_eq!(decode(0xD12F), Instruction::Draw(1, 2, 0xF));
}

#[test]
fn decode_key_and_timer_words() {
    assert_eq!(decode(0xE19E), Instruction::SkipIfKey(1));
    assert_eq!(decode(0xE2A1), Instruction::SkipIfNoKey(2));
    assert_eq!(decode(0xF307), Instruction::ReadDelay(3));
    assert_eq!(decode(0xF40A), Instruction::WaitKey(4));
    assert_eq!(decode(0xF515), Instruction::SetDelay(5));
    assert_eq!(decode(0xF618), Instruction::SetSound(6));
    assert_eq!(decode(0xF71E), Instruction::AddIndex(7));
    assert_eq!(decode(0xF833), Instruction::StoreDigits(8));
    assert_eq!(decode(0xF955), Instruction::StoreRegisters(9));
    assert_eq!(decode(0xFA65), Instruction::LoadRegisters(0xA));
}

#[test]
fn decode_everything_else_as_unknown() {
    for opcode in [
        0x0000u16, 0x00E1, 0x00EF, 0x0ABC, 0x5121, 0x512F, 0x8128, 0x8129, 0x812A, 0x812B, 0x812C,
        0x812D, 0x812F, 0x9121, 0xE19F, 0xE1A0, 0xE100, 0xF100, 0xF129, 0xF130, 0xF175, 0xF1FF,
    ] {
        assert_eq!(decode(opcode), Instruction::Unknown(opcode));
    }
}

#[test]
fn decode_knows_every_word() {
    let mut known = 0usize;
    for opcode in 0..=u16::MAX {
        if decode(opcode) != Instruction::Unknown(opcode) {
            known += 1;
        }
    }
    let full_families = 10 * 4096;
    let low_nibble_zero = 2 * 256;
    let arithmetic = 9 * 256;
    let keys = 2 * 16;
    let misc = 8 * 16;
    assert_eq!(known, 2 + full_families + low_nibble_zero + arithmetic + keys + misc);
}
