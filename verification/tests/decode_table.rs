//! The opcode decoder against the published table: every legal opcode
//! maps to its mnemonic and exactly one addressing mode, and every byte
//! outside the legal set decodes to nothing.

use tbo2::decode_inst;
use tbo2::AddressingMode;
use tbo2::Inst;

#[test]
fn decode_matches_opcode_table() {
    assert_eq!(decode_inst(0xA9), Some((Inst::LDA, AddressingMode::Immediate)));
    assert_eq!(decode_inst(0xA5), Some((Inst::LDA, AddressingMode::ZeroPage)));
    assert_eq!(decode_inst(0xB5), Some((Inst::LDA, AddressingMode::ZeroPageX)));
    assert_eq!(decode_inst(0xAD), Some((Inst::LDA, AddressingMode::Absolute)));
    assert_eq!(decode_inst(0xBD), Some((Inst::LDA, AddressingMode::AbsoluteX)));
    assert_eq!(decode_inst(0xB9), Some((Inst::LDA, AddressingMode::AbsoluteY)));
    assert_eq!(decode_inst(0xA1), Some((Inst::LDA, AddressingMode::XIndirect)));
    assert_eq!(decode_inst(0xB1), Some((Inst::LDA, AddressingMode::IndirectY)));
    assert_eq!(decode_inst(0xA2), Some((Inst::LDX, AddressingMode::Immediate)));
    assert_eq!(decode_inst(0xA6), Some((Inst::LDX, AddressingMode::ZeroPage)));
    assert_eq!(decode_inst(0xB6), Some((Inst::LDX, AddressingMode::ZeroPageY)));
    assert_eq!(decode_inst(0xAE), Some((Inst::LDX, AddressingMode::Absolute)));
    assert_eq!(decode_inst(0xBE), Some((Inst::LDX, AddressingMode::AbsoluteY)));
    assert_eq!(decode_inst(0xA0), Some((Inst::LDY, AddressingMode::Immediate)));
    assert_eq!(decode_inst(0xA4), Some((Inst::LDY, AddressingMode::ZeroPage)));
    assert_eq!(decode_inst(0xB4), Some((Inst::LDY, AddressingMode::ZeroPageX)));
    assert_eq!(decode_inst(0xAC), Some((Inst::LDY, AddressingMode::Absolute)));
    assert_eq!(decode_inst(0xBC), Some((Inst::LDY, AddressingMode::AbsoluteX)));
    assert_eq!(decode_inst(0x85), Some((Inst::STA, AddressingMode::ZeroPage)));
    assert_eq!(decode_inst(0x95), Some((Inst::STA, AddressingMode::ZeroPageX)));
    assert_eq!(decode_inst(0x8D), Some((Inst::STA, AddressingMode::Absolute)));
    assert_eq!(decode_inst(0x9D), Some((Inst::STA, AddressingMode::AbsoluteX)));
    assert_eq!(decode_inst(0x99), Some((Inst::STA, AddressingMode::AbsoluteY)));
    assert_eq!(decode_inst(0x81), Some((Inst::STA, AddressingMode::XIndirect)));
    assert_eq!(decode_inst(0x91), Some((Inst::STA, AddressingMode::IndirectY)));
    assert_eq!(decode_inst(0x86), Some((Inst::STX, AddressingMode::ZeroPage)));
    assert_eq!(decode_inst(0x96), Some((Inst::STX, AddressingMode::ZeroPageY)));
    assert_eq!(decode_inst(0x8E), Some((Inst::STX, AddressingMode::Absolute)));
    assert_eq!(decode_inst(0x84), Some((Inst::STY, AddressingMode::ZeroPage)));
    assert_eq!(decode_inst(0x94), Some((Inst::STY, AddressingMode::ZeroPageX)));
    assert_eq!(decode_inst(0x8C), Some((Inst::STY, AddressingMode::Absolute)));
    assert_eq!(decode_inst(0xAA), Some((Inst::TAX, AddressingMode::Implied)));
    assert_eq!(decode_inst(0xA8), Some((Inst::TAY, AddressingMode::Implied)));
    assert_eq!(decode_inst(0xBA), Some((Inst::TSX, AddressingMode::Implied)));
    assert_eq!(decode_inst(0x8A), Some((Inst::TXA, AddressingMode::Implied)));
    assert_eq!(decode_inst(0x9A), Some((Inst::TXS, AddressingMode::Implied)));
    assert_eq!(decode_inst(0x98), Some((Inst::TYA, AddressingMode::Implied)));
    assert_eq!(decode_inst(0x48), Some((Inst::PHA, AddressingMode::Implied)));
    assert_eq!(decode_inst(0x08), Some((Inst::PHP, AddressingMode::Implied)));
    assert_eq!(decode_inst(0xDA), Some((Inst::PHX, AddressingMode::Implied)));
    assert_eq!(decode_inst(0x5A), Some((Inst::PHY, AddressingMode::Implied)));
    assert_eq!(decode_inst(0x68), Some((Inst::PLA, AddressingMode::Implied)));
    assert_eq!(decode_inst(0x28), Some((Inst::PLP, AddressingMode::Implied)));
    assert_eq!(decode_inst(0xFA), Some((Inst::PLX, AddressingMode::Implied)));
    assert_eq!(decode_inst(0x7A), Some((Inst::PLY, AddressingMode::Implied)));
    assert_eq!(decode_inst(0xC6), Some((Inst::DEC, AddressingMode::ZeroPage)));
    assert_eq!(decode_inst(0xD6), Some((Inst::DEC, AddressingMode::ZeroPageX)));
    assert_eq!(decode_inst(0xCE), Some((Inst::DEC, AddressingMode::Absolute)));
    assert_eq!(decode_inst(0xDE), Some((Inst::DEC, AddressingMode::AbsoluteX)));
    assert_eq!(decode_inst(0x3A), Some((Inst::DEC, AddressingMode::Implied)));
    assert_eq!(decode_inst(0xCA), Some((Inst::DEX, AddressingMode::Implied)));
    assert_eq!(decode_inst(0x88), Some((Inst::DEY, AddressingMode::Implied)));
    assert_eq!(decode_inst(0xE6), Some((Inst::INC, AddressingMode::ZeroPage)));
    assert_eq!(decode_inst(0xF6), Some((Inst::INC, AddressingMode::ZeroPageX)));
    assert_eq!(decode_inst(0xEE), Some((Inst::INC, AddressingMode::Absolute)));
    assert_eq!(decode_inst(0xFE), Some((Inst::INC, AddressingMode::AbsoluteX)));
    assert_eq!(decode_inst(0x1A), Some((Inst::INC, AddressingMode::Implied)));
    assert_eq!(decode_inst(0xE8), Some((Inst::INX, AddressingMode::Implied)));
    assert_eq!(decode_inst(0xC8), Some((Inst::INY, AddressingMode::Implied)));
    assert_eq!(decode_inst(0x69), Some((Inst::ADC, AddressingMode::Immediate)));
    assert_eq!(decode_inst(0x65), Some((Inst::ADC, AddressingMode::ZeroPage)));
    assert_eq!(decode_inst(0x75), Some((Inst::ADC, AddressingMode::ZeroPageX)));
    assert_eq!(decode_inst(0x6D), Some((Inst::ADC, AddressingMode::Absolute)));
    assert_eq!(decode_inst(0x7D), Some((Inst::ADC, AddressingMode::AbsoluteX)));
    assert_eq!(decode_inst(0x79), Some((Inst::ADC, AddressingMode::AbsoluteY)));
    assert_eq!(decode_inst(0x61), Some((Inst::ADC, AddressingMode::XIndirect)));
    assert_eq!(decode_inst(0x71), Some((Inst::ADC, AddressingMode::IndirectY)));
    assert_eq!(decode_inst(0xE9), Some((Inst::SBC, AddressingMode::Immediate)));
    assert_eq!(decode_inst(0xE5), Some((Inst::SBC, AddressingMode::ZeroPage)));
    assert_eq!(decode_inst(0xF5), Some((Inst::SBC, AddressingMode::ZeroPageX)));
    assert_eq!(decode_inst(0xED), Some((Inst::SBC, AddressingMode::Absolute)));
    assert_eq!(decode_inst(0xFD), Some((Inst::SBC, AddressingMode::AbsoluteX)));
    assert_eq!(decode_inst(0xF9), Some((Inst::SBC, AddressingMode::AbsoluteY)));
    assert_eq!(decode_inst(0xE1), Some((Inst::SBC, AddressingMode::XIndirect)));
    assert_eq!(decode_inst(0xF1), Some((Inst::SBC, AddressingMode::IndirectY)));
    assert_eq!(decode_inst(0x29), Some((Inst::AND, AddressingMode::Immediate)));
    assert_eq!(decode_inst(0x25), Some((Inst::AND, AddressingMode::ZeroPage)));
    assert_eq!(decode_inst(0x35), Some((Inst::AND, AddressingMode::ZeroPageX)));
    assert_eq!(decode_inst(0x2D), Some((Inst::AND, AddressingMode::Absolute)));
    assert_eq!(decode_inst(0x3D), Some((Inst::AND, AddressingMode::AbsoluteX)));
    assert_eq!(decode_inst(0x39), Some((Inst::AND, AddressingMode::AbsoluteY)));
    assert_eq!(decode_inst(0x21), Some((Inst::AND, AddressingMode::XIndirect)));
    assert_eq!(decode_inst(0x31), Some((Inst::AND, AddressingMode::IndirectY)));
    assert_eq!(decode_inst(0x49), Some((Inst::EOR, AddressingMode::Immediate)));
    assert_eq!(decode_inst(0x45), Some((Inst::EOR, AddressingMode::ZeroPage)));
    assert_eq!(decode_inst(0x55), Some((Inst::EOR, AddressingMode::ZeroPageX)));
    assert_eq!(decode_inst(0x4D), Some((Inst::EOR, AddressingMode::Absolute)));
    assert_eq!(decode_inst(0x5D), Some((Inst::EOR, AddressingMode::AbsoluteX)));
    assert_eq!(decode_inst(0x59), Some((Inst::EOR, AddressingMode::AbsoluteY)));
    assert_eq!(decode_inst(0x41), Some((Inst::EOR, AddressingMode::XIndirect)));
    assert_eq!(decode_inst(0x51), Some((Inst::EOR, AddressingMode::IndirectY)));
    assert_eq!(decode_inst(0x09), Some((Inst::ORA, AddressingMode::Immediate)));
    assert_eq!(decode_inst(0x05), Some((Inst::ORA, AddressingMode::ZeroPage)));
    assert_eq!(decode_inst(0x15), Some((Inst::ORA, AddressingMode::ZeroPageX)));
    assert_eq!(decode_inst(0x0D), Some((Inst::ORA, AddressingMode::Absolute)));
    assert_eq!(decode_inst(0x1D), Some((Inst::ORA, AddressingMode::AbsoluteX)));
    assert_eq!(decode_inst(0x19), Some((Inst::ORA, AddressingMode::AbsoluteY)));
    assert_eq!(decode_inst(0x01), Some((Inst::ORA, AddressingMode::XIndirect)));
    assert_eq!(decode_inst(0x11), Some((Inst::ORA, AddressingMode::IndirectY)));
    assert_eq!(decode_inst(0x0A), Some((Inst::ASL, AddressingMode::Implied)));
    assert_eq!(decode_inst(0x06), Some((Inst::ASL, AddressingMode::ZeroPage)));
    assert_eq!(decode_inst(0x16), Some((Inst::ASL, AddressingMode::ZeroPageX)));
    assert_eq!(decode_inst(0x0E), Some((Inst::ASL, AddressingMode::Absolute)));
    assert_eq!(decode_inst(0x1E), Some((Inst::ASL, AddressingMode::AbsoluteX)));
    assert_eq!(decode_inst(0x4A), Some((Inst::LSR, AddressingMode::Implied)));
    assert_eq!(decode_inst(0x46), Some((Inst::LSR, AddressingMode::ZeroPage)));
    assert_eq!(decode_inst(0x56), Some((Inst::LSR, AddressingMode::ZeroPageX)));
    assert_eq!(decode_inst(0x4E), Some((Inst::LSR, AddressingMode::Absolute)));
    assert_eq!(decode_inst(0x5E), Some((Inst::LSR, AddressingMode::AbsoluteX)));
    assert_eq!(decode_inst(0x2A), Some((Inst::ROL, AddressingMode::Implied)));
    assert_eq!(decode_inst(0x26), Some((Inst::ROL, AddressingMode::ZeroPage)));
    assert_eq!(decode_inst(0x36), Some((Inst::ROL, AddressingMode::ZeroPageX)));
    assert_eq!(decode_inst(0x2E), Some((Inst::ROL, AddressingMode::Absolute)));
    assert_eq!(decode_inst(0x3E), Some((Inst::ROL, AddressingMode::AbsoluteX)));
    assert_eq!(decode_inst(0x6A), Some((Inst::ROR, AddressingMode::Implied)));
    assert_eq!(decode_inst(0x66), Some((Inst::ROR, AddressingMode::ZeroPage)));
    assert_eq!(decode_inst(0x76), Some((Inst::ROR, AddressingMode::ZeroPageX)));
    assert_eq!(decode_inst(0x6E), Some((Inst::ROR, AddressingMode::Absolute)));
    assert_eq!(decode_inst(0x7E), Some((Inst::ROR, AddressingMode::AbsoluteX)));
    assert_eq!(decode_inst(0x18), Some((Inst::CLC, AddressingMode::Implied)));
    assert_eq!(decode_inst(0xD8), Some((Inst::CLD, AddressingMode::Implied)));
    assert_eq!(decode_inst(0x58), Some((Inst::CLI, AddressingMode::Implied)));
    assert_eq!(decode_inst(0xB8), Some((Inst::CLV, AddressingMode::Implied)));
    assert_eq!(decode_inst(0x38), Some((Inst::SEC, AddressingMode::Implied)));
    assert_eq!(decode_inst(0xF8), Some((Inst::SED, AddressingMode::Implied)));
    assert_eq!(decode_inst(0x78), Some((Inst::SEI, AddressingMode::Implied)));
    assert_eq!(decode_inst(0xC9), Some((Inst::CMP, AddressingMode::Immediate)));
    assert_eq!(decode_inst(0xC5), Some((Inst::CMP, AddressingMode::ZeroPage)));
    assert_eq!(decode_inst(0xD5), Some((Inst::CMP, AddressingMode::ZeroPageX)));
    assert_eq!(decode_inst(0xCD), Some((Inst::CMP, AddressingMode::Absolute)));
    assert_eq!(decode_inst(0xDD), Some((Inst::CMP, AddressingMode::AbsoluteX)));
    assert_eq!(decode_inst(0xD9), Some((Inst::CMP, AddressingMode::AbsoluteY)));
    assert_eq!(decode_inst(0xC1), Some((Inst::CMP, AddressingMode::XIndirect)));
    assert_eq!(decode_inst(0xD1), Some((Inst::CMP, AddressingMode::IndirectY)));
    assert_eq!(decode_inst(0xE0), Some((Inst::CPX, AddressingMode::Immediate)));
    assert_eq!(decode_inst(0xE4), Some((Inst::CPX, AddressingMode::ZeroPage)));
    assert_eq!(decode_inst(0xEC), Some((Inst::CPX, AddressingMode::Absolute)));
    assert_eq!(decode_inst(0xC0), Some((Inst::CPY, AddressingMode::Immediate)));
    assert_eq!(decode_inst(0xC4), Some((Inst::CPY, AddressingMode::ZeroPage)));
    assert_eq!(decode_inst(0xCC), Some((Inst::CPY, AddressingMode::Absolute)));
    assert_eq!(decode_inst(0x80), Some((Inst::BRA, AddressingMode::Relative)));
    assert_eq!(decode_inst(0x90), Some((Inst::BCC, AddressingMode::Relative)));
    assert_eq!(decode_inst(0xB0), Some((Inst::BCS, AddressingMode::Relative)));
    assert_eq!(decode_inst(0xD0), Some((Inst::BNE, AddressingMode::Relative)));
    assert_eq!(decode_inst(0xF0), Some((Inst::BEQ, AddressingMode::Relative)));
    assert_eq!(decode_inst(0x10), Some((Inst::BPL, AddressingMode::Relative)));
    assert_eq!(decode_inst(0x30), Some((Inst::BMI, AddressingMode::Relative)));
    assert_eq!(decode_inst(0x50), Some((Inst::BVC, AddressingMode::Relative)));
    assert_eq!(decode_inst(0x70), Some((Inst::BVS, AddressingMode::Relative)));
    assert_eq!(decode_inst(0x4C), Some((Inst::JMP, AddressingMode::Absolute)));
    assert_eq!(decode_inst(0x6C), Some((Inst::JMP, AddressingMode::Indirect)));
    assert_eq!(decode_inst(0x20), Some((Inst::JSR, AddressingMode::Absolute)));
    assert_eq!(decode_inst(0x60), Some((Inst::RTS, AddressingMode::Implied)));
    assert_eq!(decode_inst(0x00), Some((Inst::BRK, AddressingMode::Implied)));
    assert_eq!(decode_inst(0x40), Some((Inst::RTI, AddressingMode::Implied)));
    assert_eq!(decode_inst(0x24), Some((Inst::BIT, AddressingMode::ZeroPage)));
    assert_eq!(decode_inst(0x2C), Some((Inst::BIT, AddressingMode::Absolute)));
    assert_eq!(decode_inst(0xEA), Some((Inst::NOP, AddressingMode::Implied)));
}

#[test]
fn decode_is_total_and_rejects_illegal_bytes() {
    let mut legal: usize = 0;
    for byte in 0..=255u8 {
        if decode_inst(byte).is_some() {
            legal += 1;
        }
    }
    assert_eq!(legal, 158);
    assert_eq!(decode_inst(0x02), None);
    assert_eq!(decode_inst(0x03), None);
    assert_eq!(decode_inst(0x04), None);
    assert_eq!(decode_inst(0x07), None);
    assert_eq!(decode_inst(0x0B), None);
    assert_eq!(decode_inst(0x0C), None);
    assert_eq!(decode_inst(0x0F), None);
    assert_eq!(decode_inst(0x12), None);
    assert_eq!(decode_inst(0x13), None);
    assert_eq!(decode_inst(0x14), None);
    assert_eq!(decode_inst(0x17), None);
    assert_eq!(decode_inst(0x1B), None);
    assert_eq!(decode_inst(0x1C), None);
    assert_eq!(decode_inst(0x1F), None);
    assert_eq!(decode_inst(0x22), None);
    assert_eq!(decode_inst(0x23), None);
}
