//! The opcode decoder: a pure table from an instruction byte to its
//! mnemonic and addressing mode.

use vstd::prelude::*;

verus! {

/// Every mnemonic of the legal operation set: loads and stores, register
/// transfers, stack pushes and pulls, increment and decrement, add and
/// subtract with carry, logical operations, shifts and rotates, flag
/// set and clear, compares, branches, jumps, calls and returns, the
/// software interrupt, the bit test, and the no-op.
#[derive(Clone, Copy, Debug, PartialEq, Eq, Structural)]
pub enum Inst {
    LDA,
    LDX,
    LDY,
    STA,
    STX,
    STY,
    TAX,
    TAY,
    TSX,
    TXA,
    TXS,
    TYA,
    PHA,
    PHP,
    PHX,
    PHY,
    PLA,
    PLP,
    PLX,
    PLY,
    DEC,
    DEX,
    DEY,
    INC,
    INX,
    INY,
    ADC,
    SBC,
    AND,
    EOR,
    ORA,
    ASL,
    LSR,
    ROL,
    ROR,
    CLC,
    CLD,
    CLI,
    CLV,
    SEC,
    SED,
    SEI,
    CMP,
    CPX,
    CPY,
    BRA,
    BCC,
    BCS,
    BNE,
    BEQ,
    BPL,
    BMI,
    BVC,
    BVS,
    JMP,
    JSR,
    RTS,
    BRK,
    RTI,
    BIT,
    NOP,
}

/// How an instruction names its operand; each mode consumes a fixed number
/// of bytes after the opcode (none for Implied, one for the zero-page,
/// indexed-indirect, immediate and relative modes, two for the absolute
/// and indirect modes).
#[derive(Clone, Copy, Debug, PartialEq, Eq, Structural)]
pub enum AddressingMode {
    Implied,
    Immediate,
    Absolute,
    AbsoluteX,
    AbsoluteY,
    Indirect,
    XIndirect,
    IndirectY,
    Relative,
    ZeroPage,
    ZeroPageX,
    ZeroPageY,
}

/// The opcode table. Each legal opcode maps to its mnemonic and exactly one
/// addressing mode; every byte outside the legal set maps to `None`.
pub open spec fn decode_spec(byte: u8) -> Option<(Inst, AddressingMode)> {
    match byte {
        0xA9 => Some((Inst::LDA, AddressingMode::Immediate)),
        0xA5 => Some((Inst::LDA, AddressingMode::ZeroPage)),
        0xB5 => Some((Inst::LDA, AddressingMode::ZeroPageX)),
        0xAD => Some((Inst::LDA, AddressingMode::Absolute)),
        0xBD => Some((Inst::LDA, AddressingMode::AbsoluteX)),
        0xB9 => Some((Inst::LDA, AddressingMode::AbsoluteY)),
        0xA1 => Some((Inst::LDA, AddressingMode::XIndirect)),
        0xB1 => Some((Inst::LDA, AddressingMode::IndirectY)),
        0xA2 => Some((Inst::LDX, AddressingMode::Immediate)),
        0xA6 => Some((Inst::LDX, AddressingMode::ZeroPage)),
        0xB6 => Some((Inst::LDX, AddressingMode::ZeroPageY)),
        0xAE => Some((Inst::LDX, AddressingMode::Absolute)),
        0xBE => Some((Inst::LDX, AddressingMode::AbsoluteY)),
        0xA0 => Some((Inst::LDY, AddressingMode::Immediate)),
        0xA4 => Some((Inst::LDY, AddressingMode::ZeroPage)),
        0xB4 => Some((Inst::LDY, AddressingMode::ZeroPageX)),
        0xAC => Some((Inst::LDY, AddressingMode::Absolute)),
        0xBC => Some((Inst::LDY, AddressingMode::AbsoluteX)),
        0x85 => Some((Inst::STA, AddressingMode::ZeroPage)),
        0x95 => Some((Inst::STA, AddressingMode::ZeroPageX)),
        0x8D => Some((Inst::STA, AddressingMode::Absolute)),
        0x9D => Some((Inst::STA, AddressingMode::AbsoluteX)),
        0x99 => Some((Inst::STA, AddressingMode::AbsoluteY)),
        0x81 => Some((Inst::STA, AddressingMode::XIndirect)),
        0x91 => Some((Inst::STA, AddressingMode::IndirectY)),
        0x86 => Some((Inst::STX, AddressingMode::ZeroPage)),
        0x96 => Some((Inst::STX, AddressingMode::ZeroPageY)),
        0x8E => Some((Inst::STX, AddressingMode::Absolute)),
        0x84 => Some((Inst::STY, AddressingMode::ZeroPage)),
        0x94 => Some((Inst::STY, AddressingMode::ZeroPageX)),
        0x8C => Some((Inst::STY, AddressingMode::Absolute)),
        0xAA => Some((Inst::TAX, AddressingMode::Implied)),
        0xA8 => Some((Inst::TAY, AddressingMode::Implied)),
        0xBA => Some((Inst::TSX, AddressingMode::Implied)),
        0x8A => Some((Inst::TXA, AddressingMode::Implied)),
        0x9A => Some((Inst::TXS, AddressingMode::Implied)),
        0x98 => Some((Inst::TYA, AddressingMode::Implied)),
        0x48 => Some((Inst::PHA, AddressingMode::Implied)),
        0x08 => Some((Inst::PHP, AddressingMode::Implied)),
        0xDA => Some((Inst::PHX, AddressingMode::Implied)),
        0x5A => Some((Inst::PHY, AddressingMode::Implied)),
        0x68 => Some((Inst::PLA, AddressingMode::Implied)),
        0x28 => Some((Inst::PLP, AddressingMode::Implied)),
        0xFA => Some((Inst::PLX, AddressingMode::Implied)),
        0x7A => Some((Inst::PLY, AddressingMode::Implied)),
        0xC6 => Some((Inst::DEC, AddressingMode::ZeroPage)),
        0xD6 => Some((Inst::DEC, AddressingMode::ZeroPageX)),
        0xCE => Some((Inst::DEC, AddressingMode::Absolute)),
        0xDE => Some((Inst::DEC, AddressingMode::AbsoluteX)),
        0x3A => Some((Inst::DEC, AddressingMode::Implied)),
        0xCA => Some((Inst::DEX, AddressingMode::Implied)),
        0x88 => Some((Inst::DEY, AddressingMode::Implied)),
        0xE6 => Some((Inst::INC, AddressingMode::ZeroPage)),
        0xF6 => Some((Inst::INC, AddressingMode::ZeroPageX)),
        0xEE => Some((Inst::INC, AddressingMode::Absolute)),
        0xFE => Some((Inst::INC, AddressingMode::AbsoluteX)),
        0x1A => Some((Inst::INC, AddressingMode::Implied)),
        0xE8 => Some((Inst::INX, AddressingMode::Implied)),
        0xC8 => Some((Inst::INY, AddressingMode::Implied)),
        0x69 => Some((Inst::ADC, AddressingMode::Immediate)),
        0x65 => Some((Inst::ADC, AddressingMode::ZeroPage)),
        0x75 => Some((Inst::ADC, AddressingMode::ZeroPageX)),
        0x6D => Some((Inst::ADC, AddressingMode::Absolute)),
        0x7D => Some((Inst::ADC, AddressingMode::AbsoluteX)),
        0x79 => Some((Inst::ADC, AddressingMode::AbsoluteY)),
        0x61 => Some((Inst::ADC, AddressingMode::XIndirect)),
        0x71 => Some((Inst::ADC, AddressingMode::IndirectY)),
        0xE9 => Some((Inst::SBC, AddressingMode::Immediate)),
        0xE5 => Some((Inst::SBC, AddressingMode::ZeroPage)),
        0xF5 => Some((Inst::SBC, AddressingMode::ZeroPageX)),
        0xED => Some((Inst::SBC, AddressingMode::Absolute)),
        0xFD => Some((Inst::SBC, AddressingMode::AbsoluteX)),
        0xF9 => Some((Inst::SBC, AddressingMode::AbsoluteY)),
        0xE1 => Some((Inst::SBC, AddressingMode::XIndirect)),
        0xF1 => Some((Inst::SBC, AddressingMode::IndirectY)),
        0x29 => Some((Inst::AND, AddressingMode::Immediate)),
        0x25 => Some((Inst::AND, AddressingMode::ZeroPage)),
        0x35 => Some((Inst::AND, AddressingMode::ZeroPageX)),
        0x2D => Some((Inst::AND, AddressingMode::Absolute)),
        0x3D => Some((Inst::AND, AddressingMode::AbsoluteX)),
        0x39 => Some((Inst::AND, AddressingMode::AbsoluteY)),
        0x21 => Some((Inst::AND, AddressingMode::XIndirect)),
        0x31 => Some((Inst::AND, AddressingMode::IndirectY)),
        0x49 => Some((Inst::EOR, AddressingMode::Immediate)),
        0x45 => Some((Inst::EOR, AddressingMode::ZeroPage)),
        0x55 => Some((Inst::EOR, AddressingMode::ZeroPageX)),
        0x4D => Some((Inst::EOR, AddressingMode::Absolute)),
        0x5D => Some((Inst::EOR, AddressingMode::AbsoluteX)),
        0x59 => Some((Inst::EOR, AddressingMode::AbsoluteY)),
        0x41 => Some((Inst::EOR, AddressingMode::XIndirect)),
        0x51 => Some((Inst::EOR, AddressingMode::IndirectY)),
        0x09 => Some((Inst::ORA, AddressingMode::Immediate)),
        0x05 => Some((Inst::ORA, AddressingMode::ZeroPage)),
        0x15 => Some((Inst::ORA, AddressingMode::ZeroPageX)),
        0x0D => Some((Inst::ORA, AddressingMode::Absolute)),
        0x1D => Some((Inst::ORA, AddressingMode::AbsoluteX)),
        0x19 => Some((Inst::ORA, AddressingMode::AbsoluteY)),
        0x01 => Some((Inst::ORA, AddressingMode::XIndirect)),
        0x11 => Some((Inst::ORA, AddressingMode::IndirectY)),
        0x0A => Some((Inst::ASL, AddressingMode::Implied)),
        0x06 => Some((Inst::ASL, AddressingMode::ZeroPage)),
        0x16 => Some((Inst::ASL, AddressingMode::ZeroPageX)),
        0x0E => Some((Inst::ASL, AddressingMode::Absolute)),
        0x1E => Some((Inst::ASL, AddressingMode::AbsoluteX)),
        0x4A => Some((Inst::LSR, AddressingMode::Implied)),
        0x46 => Some((Inst::LSR, AddressingMode::ZeroPage)),
        0x56 => Some((Inst::LSR, AddressingMode::ZeroPageX)),
        0x4E => Some((Inst::LSR, AddressingMode::Absolute)),
        0x5E => Some((Inst::LSR, AddressingMode::AbsoluteX)),
        0x2A => Some((Inst::ROL, AddressingMode::Implied)),
        0x26 => Some((Inst::ROL, AddressingMode::ZeroPage)),
        0x36 => Some((Inst::ROL, AddressingMode::ZeroPageX)),
        0x2E => Some((Inst::ROL, AddressingMode::Absolute)),
        0x3E => Some((Inst::ROL, AddressingMode::AbsoluteX)),
        0x6A => Some((Inst::ROR, AddressingMode::Implied)),
        0x66 => Some((Inst::ROR, AddressingMode::ZeroPage)),
        0x76 => Some((Inst::ROR, AddressingMode::ZeroPageX)),
        0x6E => Some((Inst::ROR, AddressingMode::Absolute)),
        0x7E => Some((Inst::ROR, AddressingMode::AbsoluteX)),
        0x18 => Some((Inst::CLC, AddressingMode::Implied)),
        0xD8 => Some((Inst::CLD, AddressingMode::Implied)),
        0x58 => Some((Inst::CLI, AddressingMode::Implied)),
        0xB8 => Some((Inst::CLV, AddressingMode::Implied)),
        0x38 => Some((Inst::SEC, AddressingMode::Implied)),
        0xF8 => Some((Inst::SED, AddressingMode::Implied)),
        0x78 => Some((Inst::SEI, AddressingMode::Implied)),
        0xC9 => Some((Inst::CMP, AddressingMode::Immediate)),
        0xC5 => Some((Inst::CMP, AddressingMode::ZeroPage)),
        0xD5 => Some((Inst::CMP, AddressingMode::ZeroPageX)),
        0xCD => Some((Inst::CMP, AddressingMode::Absolute)),
        0xDD => Some((Inst::CMP, AddressingMode::AbsoluteX)),
        0xD9 => Some((Inst::CMP, AddressingMode::AbsoluteY)),
        0xC1 => Some((Inst::CMP, AddressingMode::XIndirect)),
        0xD1 => Some((Inst::CMP, AddressingMode::IndirectY)),
        0xE0 => Some((Inst::CPX, AddressingMode::Immediate)),
        0xE4 => Some((Inst::CPX, AddressingMode::ZeroPage)),
        0xEC => Some((Inst::CPX, AddressingMode::Absolute)),
        0xC0 => Some((Inst::CPY, AddressingMode::Immediate)),
        0xC4 => Some((Inst::CPY, AddressingMode::ZeroPage)),
        0xCC => Some((Inst::CPY, AddressingMode::Absolute)),
        0x80 => Some((Inst::BRA, AddressingMode::Relative)),
        0x90 => Some((Inst::BCC, AddressingMode::Relative)),
        0xB0 => Some((Inst::BCS, AddressingMode::Relative)),
        0xD0 => Some((Inst::BNE, AddressingMode::Relative)),
        0xF0 => Some((Inst::BEQ, AddressingMode::Relative)),
        0x10 => Some((Inst::BPL, AddressingMode::Relative)),
        0x30 => Some((Inst::BMI, AddressingMode::Relative)),
        0x50 => Some((Inst::BVC, AddressingMode::Relative)),
        0x70 => Some((Inst::BVS, AddressingMode::Relative)),
        0x4C => Some((Inst::JMP, AddressingMode::Absolute)),
        0x6C => Some((Inst::JMP, AddressingMode::Indirect)),
        0x20 => Some((Inst::JSR, AddressingMode::Absolute)),
        0x60 => Some((Inst::RTS, AddressingMode::Implied)),
        0x00 => Some((Inst::BRK, AddressingMode::Implied)),
        0x40 => Some((Inst::RTI, AddressingMode::Implied)),
        0x24 => Some((Inst::BIT, AddressingMode::ZeroPage)),
        0x2C => Some((Inst::BIT, AddressingMode::Absolute)),
        0xEA => Some((Inst::NOP, AddressingMode::Implied)),
        _ => None,
    }
}

/// Decode one instruction byte. Total over the whole byte range: a byte
/// outside the legal opcode set yields `None`, never a substitute
/// operation.
pub fn decode_inst(byte: u8) -> (r: Option<(Inst, AddressingMode)>)
    ensures
        r == decode_spec(byte),
{
    match byte {
        0xA9 => Some((Inst::LDA, AddressingMode::Immediate)),
        0xA5 => Some((Inst::LDA, AddressingMode::ZeroPage)),
        0xB5 => Some((Inst::LDA, AddressingMode::ZeroPageX)),
        0xAD => Some((Inst::LDA, AddressingMode::Absolute)),
        0xBD => Some((Inst::LDA, AddressingMode::AbsoluteX)),
        0xB9 => Some((Inst::LDA, AddressingMode::AbsoluteY)),
        0xA1 => Some((Inst::LDA, AddressingMode::XIndirect)),
        0xB1 => Some((Inst::LDA, AddressingMode::IndirectY)),
        0xA2 => Some((Inst::LDX, AddressingMode::Immediate)),
        0xA6 => Some((Inst::LDX, AddressingMode::ZeroPage)),
        0xB6 => Some((Inst::LDX, AddressingMode::ZeroPageY)),
        0xAE => Some((Inst::LDX, AddressingMode::Absolute)),
        0xBE => Some((Inst::LDX, AddressingMode::AbsoluteY)),
        0xA0 => Some((Inst::LDY, AddressingMode::Immediate)),
        0xA4 => Some((Inst::LDY, AddressingMode::ZeroPage)),
        0xB4 => Some((Inst::LDY, AddressingMode::ZeroPageX)),
        0xAC => Some((Inst::LDY, AddressingMode::Absolute)),
        0xBC => Some((Inst::LDY, AddressingMode::AbsoluteX)),
        0x85 => Some((Inst::STA, AddressingMode::ZeroPage)),
        0x95 => Some((Inst::STA, AddressingMode::ZeroPageX)),
        0x8D => Some((Inst::STA, AddressingMode::Absolute)),
        0x9D => Some((Inst::STA, AddressingMode::AbsoluteX)),
        0x99 => Some((Inst::STA, AddressingMode::AbsoluteY)),
        0x81 => Some((Inst::STA, AddressingMode::XIndirect)),
        0x91 => Some((Inst::STA, AddressingMode::IndirectY)),
        0x86 => Some((Inst::STX, AddressingMode::ZeroPage)),
        0x96 => Some((Inst::STX, AddressingMode::ZeroPageY)),
        0x8E => Some((Inst::STX, AddressingMode::Absolute)),
        0x84 => Some((Inst::STY, AddressingMode::ZeroPage)),
        0x94 => Some((Inst::STY, AddressingMode::ZeroPageX)),
        0x8C => Some((Inst::STY, AddressingMode::Absolute)),
        0xAA => Some((Inst::TAX, AddressingMode::Implied)),
        0xA8 => Some((Inst::TAY, AddressingMode::Implied)),
        0xBA => Some((Inst::TSX, AddressingMode::Implied)),
        0x8A => Some((Inst::TXA, AddressingMode::Implied)),
        0x9A => Some((Inst::TXS, AddressingMode::Implied)),
        0x98 => Some((Inst::TYA, AddressingMode::Implied)),
        0x48 => Some((Inst::PHA, AddressingMode::Implied)),
        0x08 => Some((Inst::PHP, AddressingMode::Implied)),
        0xDA => Some((Inst::PHX, AddressingMode::Implied)),
        0x5A => Some((Inst::PHY, AddressingMode::Implied)),
        0x68 => Some((Inst::PLA, AddressingMode::Implied)),
        0x28 => Some((Inst::PLP, AddressingMode::Implied)),
        0xFA => Some((Inst::PLX, AddressingMode::Implied)),
        0x7A => Some((Inst::PLY, AddressingMode::Implied)),
        0xC6 => Some((Inst::DEC, AddressingMode::ZeroPage)),
        0xD6 => Some((Inst::DEC, AddressingMode::ZeroPageX)),
        0xCE => Some((Inst::DEC, AddressingMode::Absolute)),
        0xDE => Some((Inst::DEC, AddressingMode::AbsoluteX)),
        0x3A => Some((Inst::DEC, AddressingMode::Implied)),
        0xCA => Some((Inst::DEX, AddressingMode::Implied)),
        0x88 => Some((Inst::DEY, AddressingMode::Implied)),
        0xE6 => Some((Inst::INC, AddressingMode::ZeroPage)),
        0xF6 => Some((Inst::INC, AddressingMode::ZeroPageX)),
        0xEE => Some((Inst::INC, AddressingMode::Absolute)),
        0xFE => Some((Inst::INC, AddressingMode::AbsoluteX)),
        0x1A => Some((Inst::INC, AddressingMode::Implied)),
        0xE8 => Some((Inst::INX, AddressingMode::Implied)),
        0xC8 => Some((Inst::INY, AddressingMode::Implied)),
        0x69 => Some((Inst::ADC, AddressingMode::Immediate)),
        0x65 => Some((Inst::ADC, AddressingMode::ZeroPage)),
        0x75 => Some((Inst::ADC, AddressingMode::ZeroPageX)),
        0x6D => Some((Inst::ADC, AddressingMode::Absolute)),
        0x7D => Some((Inst::ADC, AddressingMode::AbsoluteX)),
        0x79 => Some((Inst::ADC, AddressingMode::AbsoluteY)),
        0x61 => Some((Inst::ADC, AddressingMode::XIndirect)),
        0x71 => Some((Inst::ADC, AddressingMode::IndirectY)),
        0xE9 => Some((Inst::SBC, AddressingMode::Immediate)),
        0xE5 => Some((Inst::SBC, AddressingMode::ZeroPage)),
        0xF5 => Some((Inst::SBC, AddressingMode::ZeroPageX)),
        0xED => Some((Inst::SBC, AddressingMode::Absolute)),
        0xFD => Some((Inst::SBC, AddressingMode::AbsoluteX)),
        0xF9 => Some((Inst::SBC, AddressingMode::AbsoluteY)),
        0xE1 => Some((Inst::SBC, AddressingMode::XIndirect)),
        0xF1 => Some((Inst::SBC, AddressingMode::IndirectY)),
        0x29 => Some((Inst::AND, AddressingMode::Immediate)),
        0x25 => Some((Inst::AND, AddressingMode::ZeroPage)),
        0x35 => Some((Inst::AND, AddressingMode::ZeroPageX)),
        0x2D => Some((Inst::AND, AddressingMode::Absolute)),
        0x3D => Some((Inst::AND, AddressingMode::AbsoluteX)),
        0x39 => Some((Inst::AND, AddressingMode::AbsoluteY)),
        0x21 => Some((Inst::AND, AddressingMode::XIndirect)),
        0x31 => Some((Inst::AND, AddressingMode::IndirectY)),
        0x49 => Some((Inst::EOR, AddressingMode::Immediate)),
        0x45 => Some((Inst::EOR, AddressingMode::ZeroPage)),
        0x55 => Some((Inst::EOR, AddressingMode::ZeroPageX)),
        0x4D => Some((Inst::EOR, AddressingMode::Absolute)),
        0x5D => Some((Inst::EOR, AddressingMode::AbsoluteX)),
        0x59 => Some((Inst::EOR, AddressingMode::AbsoluteY)),
        0x41 => Some((Inst::EOR, AddressingMode::XIndirect)),
        0x51 => Some((Inst::EOR, AddressingMode::IndirectY)),
        0x09 => Some((Inst::ORA, AddressingMode::Immediate)),
        0x05 => Some((Inst::ORA, AddressingMode::ZeroPage)),
        0x15 => Some((Inst::ORA, AddressingMode::ZeroPageX)),
        0x0D => Some((Inst::ORA, AddressingMode::Absolute)),
        0x1D => Some((Inst::ORA, AddressingMode::AbsoluteX)),
        0x19 => Some((Inst::ORA, AddressingMode::AbsoluteY)),
        0x01 => Some((Inst::ORA, AddressingMode::XIndirect)),
        0x11 => Some((Inst::ORA, AddressingMode::IndirectY)),
        0x0A => Some((Inst::ASL, AddressingMode::Implied)),
        0x06 => Some((Inst::ASL, AddressingMode::ZeroPage)),
        0x16 => Some((Inst::ASL, AddressingMode::ZeroPageX)),
        0x0E => Some((Inst::ASL, AddressingMode::Absolute)),
        0x1E => Some((Inst::ASL, AddressingMode::AbsoluteX)),
        0x4A => Some((Inst::LSR, AddressingMode::Implied)),
        0x46 => Some((Inst::LSR, AddressingMode::ZeroPage)),
        0x56 => Some((Inst::LSR, AddressingMode::ZeroPageX)),
        0x4E => Some((Inst::LSR, AddressingMode::Absolute)),
        0x5E => Some((Inst::LSR, AddressingMode::AbsoluteX)),
        0x2A => Some((Inst::ROL, AddressingMode::Implied)),
        0x26 => Some((Inst::ROL, AddressingMode::ZeroPage)),
        0x36 => Some((Inst::ROL, AddressingMode::ZeroPageX)),
        0x2E => Some((Inst::ROL, AddressingMode::Absolute)),
        0x3E => Some((Inst::ROL, AddressingMode::AbsoluteX)),
        0x6A => Some((Inst::ROR, AddressingMode::Implied)),
        0x66 => Some((Inst::ROR, AddressingMode::ZeroPage)),
        0x76 => Some((Inst::ROR, AddressingMode::ZeroPageX)),
        0x6E => Some((Inst::ROR, AddressingMode::Absolute)),
        0x7E => Some((Inst::ROR, AddressingMode::AbsoluteX)),
        0x18 => Some((Inst::CLC, AddressingMode::Implied)),
        0xD8 => Some((Inst::CLD, AddressingMode::Implied)),
        0x58 => Some((Inst::CLI, AddressingMode::Implied)),
        0xB8 => Some((Inst::CLV, AddressingMode::Implied)),
        0x38 => Some((Inst::SEC, AddressingMode::Implied)),
        0xF8 => Some((Inst::SED, AddressingMode::Implied)),
        0x78 => Some((Inst::SEI, AddressingMode::Implied)),
        0xC9 => Some((Inst::CMP, AddressingMode::Immediate)),
        0xC5 => Some((Inst::CMP, AddressingMode::ZeroPage)),
        0xD5 => Some((Inst::CMP, AddressingMode::ZeroPageX)),
        0xCD => Some((Inst::CMP, AddressingMode::Absolute)),
        0xDD => Some((Inst::CMP, AddressingMode::AbsoluteX)),
        0xD9 => Some((Inst::CMP, AddressingMode::AbsoluteY)),
        0xC1 => Some((Inst::CMP, AddressingMode::XIndirect)),
        0xD1 => Some((Inst::CMP, AddressingMode::IndirectY)),
        0xE0 => Some((Inst::CPX, AddressingMode::Immediate)),
        0xE4 => Some((Inst::CPX, AddressingMode::ZeroPage)),
        0xEC => Some((Inst::CPX, AddressingMode::Absolute)),
        0xC0 => Some((Inst::CPY, AddressingMode::Immediate)),
        0xC4 => Some((Inst::CPY, AddressingMode::ZeroPage)),
        0xCC => Some((Inst::CPY, AddressingMode::Absolute)),
        0x80 => Some((Inst::BRA, AddressingMode::Relative)),
        0x90 => Some((Inst::BCC, AddressingMode::Relative)),
        0xB0 => Some((Inst::BCS, AddressingMode::Relative)),
        0xD0 => Some((Inst::BNE, AddressingMode::Relative)),
        0xF0 => Some((Inst::BEQ, AddressingMode::Relative)),
        0x10 => Some((Inst::BPL, AddressingMode::Relative)),
        0x30 => Some((Inst::BMI, AddressingMode::Relative)),
        0x50 => Some((Inst::BVC, AddressingMode::Relative)),
        0x70 => Some((Inst::BVS, AddressingMode::Relative)),
        0x4C => Some((Inst::JMP, AddressingMode::Absolute)),
        0x6C => Some((Inst::JMP, AddressingMode::Indirect)),
        0x20 => Some((Inst::JSR, AddressingMode::Absolute)),
        0x60 => Some((Inst::RTS, AddressingMode::Implied)),
        0x00 => Some((Inst::BRK, AddressingMode::Implied)),
        0x40 => Some((Inst::RTI, AddressingMode::Implied)),
        0x24 => Some((Inst::BIT, AddressingMode::ZeroPage)),
        0x2C => Some((Inst::BIT, AddressingMode::Absolute)),
        0xEA => Some((Inst::NOP, AddressingMode::Implied)),
        _ => None,
    }
}

} // verus!
