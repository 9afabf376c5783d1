use chip8::opcode::{decode, Instruction};

#[test]
fn decode_knows_every_instruction() {
    assert_eq!(decode(0x00E0), Some(Instruction::Cls));
    assert_eq!(decode(0x00EE), Some(Instruction::Ret));
    assert_eq!(decode(0x1ABC), Some(Instruction::Jp { nnn: 0xABC }));
    assert_eq!(decode(0x2ABC), Some(Instruction::Call { nnn: 0xABC }));
    assert_eq!(decode(0x3A12), Some(Instruction::SeByte { x: 0xA, kk: 0x12 }));
    assert_eq!(decode(0x4A12), Some(Instruction::SneByte { x: 0xA, kk: 0x12 }));
    assert_eq!(decode(0x5AB0), Some(Instruction::SeReg { x: 0xA, y: 0xB }));
    assert_eq!(decode(0x6A12), Some(Instruction::LdByte { x: 0xA, kk: 0x12 }));
    assert_eq!(decode(0x7A12), Some(Instruction::AddByte { x: 0xA, kk: 0x12 }));
    assert_eq!(decode(0x8AB0), Some(Instruction::LdReg { x: 0xA, y: 0xB }));
    assert_eq!(decode(0x8AB1), Some(Instruction::Or { x: 0xA, y: 0xB }));
    assert_eq!(decode(0x8AB2), Some(Instruction::And { x: 0xA, y: 0xB }));
    assert_eq!(decode(0x8AB3), Some(Instruction::Xor { x: 0xA, y: 0xB }));
    assert_eq!(decode(0x8AB4), Some(Instruction::AddReg { x: 0xA, y: 0xB }));
    assert_eq!(decode(0x8AB5), Some(Instruction::Sub { x: 0xA, y: 0xB }));
    assert_eq!(decode(0x8AB6), Some(Instruction::Shr { x: 0xA, y: 0xB }));
    assert_eq!(decode(0x8AB7), Some(Instruction::Subn { x: 0xA, y: 0xB }));
    assert_eq!(decode(0x8ABE), Some(Instruction::Shl { x: 0xA, y: 0xB }));
    assert_eq!(decode(0x9AB0), Some(Instruction::SneReg { x: 0xA, y: 0xB }));
    assert_eq!(decode(0xAABC), Some(Instruction::LdI { nnn: 0xABC }));
    assert_eq!(decode(0xBABC), Some(Instruction::JpV0 { nnn: 0xABC }));
    assert_eq!(decode(0xCA12), Some(Instruction::Rnd { x: 0xA, kk: 0x12 }));
    assert_eq!(decode(0xDAB5), Some(Instruction::Drw { x: 0xA, y: 0xB, n: 5 }));
    assert_eq!(decode(0xEA9E), Some(Instruction::Skp { x: 0xA }));
    assert_eq!(decode(0xEAA1), Some(Instruction::Sknp { x: 0xA }));
    assert_eq!(decode(0xFA07), Some(Instruction::LdVxDt { x: 0xA }));
    assert_eq!(decode(0xFA0A), Some(Instruction::LdVxK { x: 0xA }));
    assert_eq!(decode(0xFA15), Some(Instruction::LdDtVx { x: 0xA }));
    assert_eq!(decode(0xFA18), Some(Instruction::LdStVx { x: 0xA }));
    assert_eq!(decode(0xFA1E), Some(Instruction::AddI { x: 0xA }));
    assert_eq!(decode(0xFA29), Some(Instruction::LdF { x: 0xA }));
    assert_eq!(decode(0xFA33), Some(Instruction::LdB { x: 0xA }));
    assert_eq!(decode(0xFA55), Some(Instruction::LdIVx { x: 0xA }));
    assert_eq!(decode(0xFA65), Some(Instruction::LdVxI { x: 0xA }));
}

#[test]
fn decode_takes_operands_from_the_extremes() {
    assert_eq!(decode(0x1000), Some(Instruction::Jp { nnn: 0x000 }));
    assert_eq!(decode(0x1FFF), Some(Instruction::Jp { nnn: 0xFFF }));
    assert_eq!(decode(0x6000), Some(Instruction::LdByte { x: 0, kk: 0 }));
    assert_eq!(decode(0x6FFF), Some(Instruction::LdByte { x: 15, kk: 255 }));
    assert_eq!(decode(0xD000), Some(Instruction::Drw { x: 0, y: 0, n: 0 }));
    assert_eq!(decode(0xDFFF), Some(Instruction::Drw { x: 15, y: 15, n: 15 }));
}

#[test]
fn decode_rejects_words_whose_fixed_nibbles_do_not_match() {
    for word in [
        0x0000u16, 0x00E1, 0x00EF, 0x01E0, 0x0123, 0x0FFF, 0x5AB1, 0x5ABF, 0x8AB8, 0x8AB9,
        0x8ABA, 0x8ABB, 0x8ABC, 0x8ABD, 0x8ABF, 0x9AB1, 0x9ABF, 0xEA00, 0xEA9F, 0xEAA0, 0xEAFF,
        0xFA00, 0xFA08, 0xFA0B, 0xFA16, 0xFA1F, 0xFA28, 0xFA34, 0xFA56, 0xFA64, 0xFAFF,
    ] {
        assert_eq!(decode(word), None, "{:#06X}", word);
    }
}

#[test]
fn decode_counts_the_instruction_words() {
    // 2 fixed words, 10 families that take any low twelve bits, 11 families
    // with a fixed last nibble and 11 with two fixed nibbles.
    let known = (0u32..0x10000).filter(|w| decode(*w as u16).is_some()).count();
    assert_eq!(known, 2 + 10 * 4096 + 11 * 256 + 11 * 16);
}
