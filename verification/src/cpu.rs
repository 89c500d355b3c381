//! The execution engine: registers and status flags, fetch-decode-execute
//! over a layout that spans the full 64K address space, and the reset,
//! IRQ and NMI entry points.
//!
//! Every register mutation, flag update and bus access of one `step`,
//! `irq`, `nmi` or `reset` call is captured by a pure transition function
//! over [`MachineView`], and each method's contract says that the engine
//! takes exactly that transition.

use vstd::arithmetic::div_mod::lemma_mod_multiples_vanish;
use vstd::arithmetic::div_mod::lemma_small_mod;
use vstd::prelude::*;

use crate::device::DevView;
use crate::flags::pack_status;
use crate::flags::status_clear;
use crate::flags::unpack_status;
use crate::flags::Status;
use crate::inst::decode_inst;
use crate::inst::decode_spec;
use crate::inst::AddressingMode;
use crate::inst::Inst;
use crate::layout::mem_read_spec;
use crate::layout::mem_reset_spec;
use crate::layout::mem_wf;
use crate::layout::mem_write_spec;
use crate::layout::Layout;
use crate::layout::MemView;

verus! {

/// An 8-bit general register.
#[derive(Clone, Copy, Debug, PartialEq, Eq, Structural)]
pub struct Register {
    pub data: u8,
}

/// Bit 7 of a byte: the sign bit of its two's-complement reading.
pub open spec fn is_neg(v: u8) -> bool {
    v & 0x80 != 0
}

impl Register {
    /// Whether bit 7, the sign bit, is set.
    pub fn is_negative(&self) -> (r: bool)
        ensures
            r == is_neg(self.data),
    {
        (self.data & 0b10000000) > 0
    }

    /// Whether the register holds zero.
    pub fn is_zero(&self) -> (r: bool)
        ensures
            r == (self.data == 0),
    {
        self.data == 0
    }
}

/// Why a `step` call failed.
#[derive(Clone, Copy, Debug, PartialEq, Eq, Structural)]
pub enum ExecutionError {
    /// The fetched byte is no legal opcode; the program counter has
    /// advanced past it, nothing else changed.
    UnknownInst(u8),
}

/// The whole machine, seen abstractly: the registers, the stack pointer
/// into page 1, the program counter, the seven flags, and the bus with
/// everything behind it.
#[verifier::ext_equal]
pub struct MachineView {
    pub pc: u16,
    pub sp: u8,
    pub a: u8,
    pub x: u8,
    pub y: u8,
    pub flags: Status,
    pub mem: MemView,
}

/// Validity of an engine state: the layout is well-formed and routes at
/// least the full 64K instruction-set address space.
pub open spec fn cpu_wf(s: MachineView) -> bool {
    mem_wf(s.mem) && s.mem.size >= 0x10000
}

/// 16-bit wrap-around addition, as the program counter and effective
/// addresses use it.
pub open spec fn w16_add(x: u16, y: u16) -> u16 {
    vstd::wrapping::u16_specs::wrapping_add(x, y)
}

/// 16-bit wrap-around subtraction.
pub open spec fn w16_sub(x: u16, y: u16) -> u16 {
    vstd::wrapping::u16_specs::wrapping_sub(x, y)
}

/// 8-bit wrap-around addition, as the stack pointer, index arithmetic and
/// INC use it.
pub open spec fn w8_add(x: u8, y: u8) -> u8 {
    vstd::wrapping::u8_specs::wrapping_add(x, y)
}

/// 8-bit wrap-around subtraction.
pub open spec fn w8_sub(x: u8, y: u8) -> u8 {
    vstd::wrapping::u8_specs::wrapping_sub(x, y)
}

/// Where the stack pointer points: inside page 1, always.
pub open spec fn stack_addr(sp: u8) -> u16 {
    (0x100 + sp) as u16
}

/// One byte read over the bus: the layout routes the address, and an
/// unmapped or refused read yields 0.
pub open spec fn bus_read(s: MachineView, addr: u16) -> (MachineView, u8) {
    let (m, r) = mem_read_spec(s.mem, addr as int);
    let v = match r {
        Some(v) => v,
        None => 0u8,
    };
    (MachineView { mem: m, ..s }, v)
}

/// One byte written over the bus; a refused write (read-only storage) is
/// absorbed.
pub open spec fn bus_write(s: MachineView, addr: u16, data: u8) -> MachineView {
    let (m, _ack) = mem_write_spec(s.mem, addr as int, data);
    MachineView { mem: m, ..s }
}

/// The word at `addr`: low byte there, high byte one above, the second
/// address wrapping at the top of the space.
pub open spec fn read_word_tr(s: MachineView, addr: u16) -> (MachineView, u16) {
    let (s1, lo) = bus_read(s, addr);
    let (s2, hi) = bus_read(s1, w16_add(addr, 1));
    (s2, ((hi as int) * 256 + (lo as int)) as u16)
}

/// Consume the byte at the program counter and advance past it.
pub open spec fn fetch_byte(s: MachineView) -> (MachineView, u8) {
    let (s1, b) = bus_read(s, s.pc);
    (MachineView { pc: w16_add(s.pc, 1), ..s1 }, b)
}

/// Consume the word at the program counter and advance past it.
pub open spec fn fetch_word(s: MachineView) -> (MachineView, u16) {
    let (s1, w) = read_word_tr(s, s.pc);
    (MachineView { pc: w16_add(s.pc, 2), ..s1 }, w)
}

/// Push one byte: write at `0x100 + SP`, then decrement `SP` modulo 256.
/// The stack never leaves page 1.
pub open spec fn push_tr(s: MachineView, data: u8) -> MachineView {
    let s1 = bus_write(s, stack_addr(s.sp), data);
    MachineView { sp: w8_sub(s.sp, 1), ..s1 }
}

/// Pull one byte: increment `SP` modulo 256, then read at `0x100 + SP`.
pub open spec fn pull_tr(s: MachineView) -> (MachineView, u8) {
    let sp1 = w8_add(s.sp, 1);
    bus_read(MachineView { sp: sp1, ..s }, stack_addr(sp1))
}

/// Zero and Negative from a just-produced result, the other flags kept.
pub open spec fn set_nz(s: MachineView, v: u8) -> MachineView {
    MachineView { flags: Status { negative: is_neg(v), zero: v == 0, ..s.flags }, ..s }
}

/// A relative-offset byte sign-extended to 16 bits, so that adding it to
/// the program counter modulo 0x10000 moves by the signed displacement.
pub open spec fn sext8(rel: u8) -> u16 {
    if rel >= 128 {
        (rel + 0xFF00) as u16
    } else {
        rel as u16
    }
}

/// A branch: the offset byte is always consumed; the program counter
/// moves only if the condition holds.
pub open spec fn branch_tr(s: MachineView, cond: bool) -> MachineView {
    let (s1, rel) = fetch_byte(s);
    if cond {
        MachineView { pc: w16_add(s1.pc, sext8(rel)), ..s1 }
    } else {
        s1
    }
}

/// ADC's 9-bit sum of accumulator, operand and carry-in: the result byte,
/// carry-out (sum > 255), and the signed-overflow test
/// `((sum ^ a) & (sum ^ operand) & 0x80) != 0`.
pub open spec fn adc_result(a: u8, operand: u8, carry_in: bool) -> (u8, bool, bool) {
    let sum = a + operand + (if carry_in {
        1int
    } else {
        0int
    });
    let sum16 = sum as u16;
    let result = (sum % 256) as u8;
    let carry = sum > 255;
    let overflow = ((sum16 ^ (a as u16)) & (sum16 ^ (operand as u16)) & 0x80) > 0;
    (result, carry, overflow)
}

/// The push sequence shared by both interrupt entries: the program
/// counter high then low, then the status with Break cleared.
pub open spec fn interrupt_pushes(s: MachineView) -> MachineView {
    let s1 = push_tr(s, (s.pc / 256) as u8);
    let s2 = push_tr(s1, (s.pc % 256) as u8);
    push_tr(s2, pack_status(Status { break_: false, ..s.flags }))
}

/// What `irq` does: nothing at all while Interrupt-disable is set; else
/// the interrupt push sequence, then Interrupt-disable is set and the
/// program counter is loaded from the IRQ/BRK vector at 0xFFFE.
pub open spec fn irq_spec(s: MachineView) -> MachineView {
    if s.flags.int_disable {
        s
    } else {
        let s3 = interrupt_pushes(s);
        let s4 = MachineView { flags: Status { int_disable: true, ..s3.flags }, ..s3 };
        let (s5, w) = read_word_tr(s4, 0xFFFE);
        MachineView { pc: w, ..s5 }
    }
}

/// What `nmi` does: unconditionally, whatever Interrupt-disable holds,
/// the interrupt push sequence, then the program counter is loaded from
/// the NMI vector at 0xFFFA. Unlike `irq` and BRK, `nmi` leaves
/// Interrupt-disable as it was.
pub open spec fn nmi_spec(s: MachineView) -> MachineView {
    let s3 = interrupt_pushes(s);
    let (s5, w) = read_word_tr(s3, 0xFFFA);
    MachineView { pc: w, ..s5 }
}

/// What `reset` does: reset every device, clear the registers and flags,
/// set `SP` to 0xFF, and load the program counter from the reset vector
/// at 0xFFFC. No stack frame is pushed: reset is vector-only, the
/// conventional hardware semantics.
pub open spec fn reset_spec(s: MachineView) -> MachineView {
    let s1 = MachineView {
        pc: s.pc,
        sp: 0xFF,
        a: 0,
        x: 0,
        y: 0,
        flags: status_clear(),
        mem: mem_reset_spec(s.mem),
    };
    let (s2, w) = read_word_tr(s1, 0xFFFC);
    MachineView { pc: w, ..s2 }
}

/// Effective address and operand byte for a read-class operation, and
/// the machine after consuming the operand bytes. Immediate mode
/// synthesizes an address equal to the just-consumed operand position
/// and needs no bus read. The three modes no read-class instruction is
/// decoded with (Implied, Indirect, Relative) consume nothing and yield
/// address and byte zero.
pub open spec fn addr_read_spec(s: MachineView, mode: AddressingMode) -> (
    MachineView,
    u16,
    u8,
) {
    match mode {
        AddressingMode::Immediate => {
            let (s1, b) = fetch_byte(s);
            (s1, s1.pc, b)
        },
        AddressingMode::Absolute => {
            let (s1, w) = fetch_word(s);
            let (s2, b) = bus_read(s1, w);
            (s2, w, b)
        },
        AddressingMode::AbsoluteX => {
            let (s1, w) = fetch_word(s);
            let ea = w16_add(w, s.x as u16);
            let (s2, b) = bus_read(s1, ea);
            (s2, ea, b)
        },
        AddressingMode::AbsoluteY => {
            let (s1, w) = fetch_word(s);
            let ea = w16_add(w, s.y as u16);
            let (s2, b) = bus_read(s1, ea);
            (s2, ea, b)
        },
        AddressingMode::XIndirect => {
            let (s1, zp) = fetch_byte(s);
            let (s2, ea) = read_word_tr(s1, w8_add(zp, s.x) as u16);
            let (s3, b) = bus_read(s2, ea);
            (s3, ea, b)
        },
        AddressingMode::IndirectY => {
            let (s1, zp) = fetch_byte(s);
            let (s2, w) = read_word_tr(s1, zp as u16);
            let ea = w16_add(w, s.y as u16);
            let (s3, b) = bus_read(s2, ea);
            (s3, ea, b)
        },
        AddressingMode::ZeroPage => {
            let (s1, zp) = fetch_byte(s);
            let (s2, b) = bus_read(s1, zp as u16);
            (s2, zp as u16, b)
        },
        AddressingMode::ZeroPageX => {
            let (s1, zp) = fetch_byte(s);
            let ea = w8_add(zp, s.x) as u16;
            let (s2, b) = bus_read(s1, ea);
            (s2, ea, b)
        },
        AddressingMode::ZeroPageY => {
            let (s1, zp) = fetch_byte(s);
            let ea = w8_add(zp, s.y) as u16;
            let (s2, b) = bus_read(s1, ea);
            (s2, ea, b)
        },
        _ => (s, 0u16, 0u8),
    }
}

/// The machine after a write-class operation stores `data` through the
/// addressing mode. The modes no write-class instruction is decoded with
/// (Implied, Immediate, Indirect, Relative) consume nothing and store
/// nothing.
pub open spec fn addr_write_spec(s: MachineView, mode: AddressingMode, data: u8) -> MachineView {
    match mode {
        AddressingMode::Absolute => {
            let (s1, w) = fetch_word(s);
            bus_write(s1, w, data)
        },
        AddressingMode::AbsoluteX => {
            let (s1, w) = fetch_word(s);
            bus_write(s1, w16_add(w, s.x as u16), data)
        },
        AddressingMode::AbsoluteY => {
            let (s1, w) = fetch_word(s);
            bus_write(s1, w16_add(w, s.y as u16), data)
        },
        AddressingMode::XIndirect => {
            let (s1, zp) = fetch_byte(s);
            let (s2, ea) = read_word_tr(s1, w8_add(zp, s.x) as u16);
            bus_write(s2, ea, data)
        },
        AddressingMode::IndirectY => {
            let (s1, zp) = fetch_byte(s);
            let (s2, w) = read_word_tr(s1, zp as u16);
            bus_write(s2, w16_add(w, s.y as u16), data)
        },
        AddressingMode::ZeroPage => {
            let (s1, zp) = fetch_byte(s);
            bus_write(s1, zp as u16, data)
        },
        AddressingMode::ZeroPageX => {
            let (s1, zp) = fetch_byte(s);
            bus_write(s1, w8_add(zp, s.x) as u16, data)
        },
        AddressingMode::ZeroPageY => {
            let (s1, zp) = fetch_byte(s);
            bus_write(s1, w8_add(zp, s.y) as u16, data)
        },
        _ => s,
    }
}

/// The semantics of one decoded instruction, applied to the machine
/// right after the opcode fetch. This is the reference meaning of the
/// instruction set; `step` is proved to take exactly this transition.
pub open spec fn exec_inst_spec(s: MachineView, inst: Inst, mode: AddressingMode) -> MachineView {
    match inst {
        Inst::LDA => {
            let (s1, _ea, v) = addr_read_spec(s, mode);
            set_nz(MachineView { a: v, ..s1 }, v)
        },
        Inst::LDX => {
            let (s1, _ea, v) = addr_read_spec(s, mode);
            set_nz(MachineView { x: v, ..s1 }, v)
        },
        Inst::LDY => {
            let (s1, _ea, v) = addr_read_spec(s, mode);
            set_nz(MachineView { y: v, ..s1 }, v)
        },
        Inst::STA => addr_write_spec(s, mode, s.a),
        Inst::STX => addr_write_spec(s, mode, s.x),
        Inst::STY => addr_write_spec(s, mode, s.y),
        Inst::TAX => set_nz(MachineView { x: s.a, ..s }, s.a),
        Inst::TAY => set_nz(MachineView { y: s.a, ..s }, s.a),
        Inst::TSX => set_nz(MachineView { x: s.sp, ..s }, s.sp),
        Inst::TXA => set_nz(MachineView { a: s.x, ..s }, s.x),
        Inst::TXS => MachineView { sp: s.x, ..s },
        Inst::TYA => set_nz(MachineView { a: s.y, ..s }, s.y),
        Inst::PHA => push_tr(s, s.a),
        Inst::PHP => push_tr(s, pack_status(Status { break_: true, ..s.flags })),
        Inst::PHX => push_tr(s, s.x),
        Inst::PHY => push_tr(s, s.y),
        Inst::PLA => {
            let (s1, v) = pull_tr(s);
            set_nz(MachineView { a: v, ..s1 }, v)
        },
        Inst::PLP => {
            let (s1, v) = pull_tr(s);
            MachineView { flags: unpack_status(v), ..s1 }
        },
        Inst::PLX => {
            let (s1, v) = pull_tr(s);
            set_nz(MachineView { x: v, ..s1 }, v)
        },
        Inst::PLY => {
            let (s1, v) = pull_tr(s);
            set_nz(MachineView { y: v, ..s1 }, v)
        },
        Inst::DEC => {
            if mode == AddressingMode::Implied {
                let v = w8_sub(s.a, 1);
                set_nz(MachineView { a: v, ..s }, v)
            } else {
                let (s1, ea, v0) = addr_read_spec(s, mode);
                let v = w8_sub(v0, 1);
                set_nz(bus_write(s1, ea, v), v)
            }
        },
        Inst::DEX => {
            let v = w8_sub(s.x, 1);
            set_nz(MachineView { x: v, ..s }, v)
        },
        Inst::DEY => {
            let v = w8_sub(s.y, 1);
            set_nz(MachineView { y: v, ..s }, v)
        },
        Inst::INC => {
            if mode == AddressingMode::Implied {
                let v = w8_add(s.a, 1);
                set_nz(MachineView { a: v, ..s }, v)
            } else {
                let (s1, ea, v0) = addr_read_spec(s, mode);
                let v = w8_add(v0, 1);
                set_nz(bus_write(s1, ea, v), v)
            }
        },
        Inst::INX => {
            let v = w8_add(s.x, 1);
            set_nz(MachineView { x: v, ..s }, v)
        },
        Inst::INY => {
            let v = w8_add(s.y, 1);
            set_nz(MachineView { y: v, ..s }, v)
        },
        Inst::ADC => {
            let (s1, _ea, v) = addr_read_spec(s, mode);
            let (res, c, o) = adc_result(s.a, v, s.flags.carry);
            set_nz(
                MachineView { a: res, flags: Status { carry: c, overflow: o, ..s1.flags }, ..s1 },
                res,
            )
        },
        Inst::SBC => {
            let (s1, _ea, v0) = addr_read_spec(s, mode);
            let v = v0 ^ 0xFF;
            let (res, c, o) = adc_result(s.a, v, s.flags.carry);
            set_nz(
                MachineView { a: res, flags: Status { carry: c, overflow: o, ..s1.flags }, ..s1 },
                res,
            )
        },
        Inst::AND => {
            let (s1, _ea, v) = addr_read_spec(s, mode);
            let res = s.a & v;
            set_nz(MachineView { a: res, ..s1 }, res)
        },
        Inst::EOR => {
            let (s1, _ea, v) = addr_read_spec(s, mode);
            let res = s.a ^ v;
            set_nz(MachineView { a: res, ..s1 }, res)
        },
        Inst::ORA => {
            let (s1, _ea, v) = addr_read_spec(s, mode);
            let res = s.a | v;
            set_nz(MachineView { a: res, ..s1 }, res)
        },
        Inst::ASL => {
            if mode == AddressingMode::Implied {
                let v = s.a;
                let sh = v << 1;
                let s1 = set_nz(MachineView { a: sh, ..s }, sh);
                MachineView { flags: Status { carry: is_neg(v), ..s1.flags }, ..s1 }
            } else {
                let (s1, ea, v) = addr_read_spec(s, mode);
                let sh = v << 1;
                let s2 = set_nz(bus_write(s1, ea, sh), sh);
                MachineView { flags: Status { carry: is_neg(v), ..s2.flags }, ..s2 }
            }
        },
        Inst::LSR => {
            if mode == AddressingMode::Implied {
                let v = s.a;
                let sh = v >> 1;
                let s1 = set_nz(MachineView { a: sh, ..s }, sh);
                MachineView { flags: Status { carry: v & 1 > 0, ..s1.flags }, ..s1 }
            } else {
                let (s1, ea, v) = addr_read_spec(s, mode);
                let sh = v >> 1;
                let s2 = set_nz(bus_write(s1, ea, sh), sh);
                MachineView { flags: Status { carry: v & 1 > 0, ..s2.flags }, ..s2 }
            }
        },
        Inst::ROL => {
            if mode == AddressingMode::Implied {
                let v = s.a;
                let sh = (v << 1) | (if s.flags.carry {
                    1u8
                } else {
                    0u8
                });
                let s1 = set_nz(MachineView { a: sh, ..s }, sh);
                MachineView { flags: Status { carry: is_neg(v), ..s1.flags }, ..s1 }
            } else {
                let (s1, ea, v) = addr_read_spec(s, mode);
                let sh = (v << 1) | (if s.flags.carry {
                    1u8
                } else {
                    0u8
                });
                let s2 = set_nz(bus_write(s1, ea, sh), sh);
                MachineView { flags: Status { carry: is_neg(v), ..s2.flags }, ..s2 }
            }
        },
        Inst::ROR => {
            if mode == AddressingMode::Implied {
                let v = s.a;
                let sh = (v >> 1) | (if s.flags.carry {
                    0x80u8
                } else {
                    0u8
                });
                let s1 = set_nz(MachineView { a: sh, ..s }, sh);
                MachineView { flags: Status { carry: v & 1 > 0, ..s1.flags }, ..s1 }
            } else {
                let (s1, ea, v) = addr_read_spec(s, mode);
                let sh = (v >> 1) | (if s.flags.carry {
                    0x80u8
                } else {
                    0u8
                });
                let s2 = set_nz(bus_write(s1, ea, sh), sh);
                MachineView { flags: Status { carry: v & 1 > 0, ..s2.flags }, ..s2 }
            }
        },
        Inst::CLC => MachineView { flags: Status { carry: false, ..s.flags }, ..s },
        Inst::CLD => MachineView { flags: Status { decimal: false, ..s.flags }, ..s },
        Inst::CLI => MachineView { flags: Status { int_disable: false, ..s.flags }, ..s },
        Inst::CLV => MachineView { flags: Status { overflow: false, ..s.flags }, ..s },
        Inst::SEC => MachineView { flags: Status { carry: true, ..s.flags }, ..s },
        Inst::SED => MachineView { flags: Status { decimal: true, ..s.flags }, ..s },
        Inst::SEI => MachineView { flags: Status { int_disable: true, ..s.flags }, ..s },
        Inst::CMP => {
            let (s1, _ea, v) = addr_read_spec(s, mode);
            let diff = w8_sub(s.a, v);
            let s2 = set_nz(s1, diff);
            MachineView { flags: Status { carry: s.a >= v, ..s2.flags }, ..s2 }
        },
        Inst::CPX => {
            let (s1, _ea, v) = addr_read_spec(s, mode);
            let diff = w8_sub(s.x, v);
            let s2 = set_nz(s1, diff);
            MachineView { flags: Status { carry: s.x >= v, ..s2.flags }, ..s2 }
        },
        Inst::CPY => {
            let (s1, _ea, v) = addr_read_spec(s, mode);
            let diff = w8_sub(s.y, v);
            let s2 = set_nz(s1, diff);
            MachineView { flags: Status { carry: s.y >= v, ..s2.flags }, ..s2 }
        },
        Inst::BRA => branch_tr(s, true),
        Inst::BCC => branch_tr(s, !s.flags.carry),
        Inst::BCS => branch_tr(s, s.flags.carry),
        Inst::BNE => branch_tr(s, !s.flags.zero),
        Inst::BEQ => branch_tr(s, s.flags.zero),
        Inst::BPL => branch_tr(s, !s.flags.negative),
        Inst::BMI => branch_tr(s, s.flags.negative),
        Inst::BVC => branch_tr(s, !s.flags.overflow),
        Inst::BVS => branch_tr(s, s.flags.overflow),
        Inst::JMP => {
            if mode == AddressingMode::Indirect {
                let (s1, ptr) = fetch_word(s);
                let (s2, ea) = read_word_tr(s1, ptr);
                MachineView { pc: ea, ..s2 }
            } else if mode == AddressingMode::Absolute {
                let (s1, w) = fetch_word(s);
                MachineView { pc: w, ..s1 }
            } else {
                s
            }
        },
        Inst::JSR => {
            let (s1, w) = fetch_word(s);
            let ret = w16_sub(s1.pc, 1);
            let s2 = push_tr(s1, (ret / 256) as u8);
            let s3 = push_tr(s2, (ret % 256) as u8);
            MachineView { pc: w, ..s3 }
        },
        Inst::RTS => {
            let (s1, lo) = pull_tr(s);
            let (s2, hi) = pull_tr(s1);
            MachineView { pc: w16_add(((hi as int) * 256 + (lo as int)) as u16, 1), ..s2 }
        },
        Inst::BRK => {
            let pcn = w16_add(s.pc, 1);
            let s1 = push_tr(s, (pcn / 256) as u8);
            let s2 = push_tr(s1, (pcn % 256) as u8);
            let s3 = push_tr(s2, pack_status(Status { break_: true, ..s.flags }));
            let s4 = MachineView { flags: Status { int_disable: true, ..s3.flags }, ..s3 };
            let (s5, w) = read_word_tr(s4, 0xFFFE);
            MachineView { pc: w, ..s5 }
        },
        Inst::RTI => {
            let (s1, st) = pull_tr(s);
            let s2 = MachineView { flags: unpack_status(st), ..s1 };
            let (s3, lo) = pull_tr(s2);
            let (s4, hi) = pull_tr(s3);
            MachineView { pc: ((hi as int) * 256 + (lo as int)) as u16, ..s4 }
        },
        Inst::BIT => {
            let (s1, _ea, v) = addr_read_spec(s, mode);
            MachineView {
                flags: Status {
                    zero: (s.a & v) == 0,
                    negative: is_neg(v),
                    overflow: v & 0x40 > 0,
                    ..s1.flags
                },
                ..s1
            }
        },
        Inst::NOP => s,
    }
}

/// What one `step` call does: fetch the opcode byte at the program
/// counter, advancing past it; a byte outside the legal opcode set stops
/// there with `UnknownInst`; a legal one runs to completion.
pub open spec fn step_spec(s: MachineView) -> (MachineView, Result<(), ExecutionError>) {
    let (s1, opcode) = fetch_byte(s);
    match decode_spec(opcode) {
        None => (s1, Err(ExecutionError::UnknownInst(opcode))),
        Some((inst, mode)) => (exec_inst_spec(s1, inst, mode), Ok(())),
    }
}

/// The byte a bus read at `addr` would hand back (0 for a refused or
/// unmapped access), the read's own effect on the device left aside.
pub open spec fn bus_value(s: MachineView, addr: u16) -> u8 {
    bus_read(s, addr).1
}

/// The given bytes pushed onto the stack one after another, first
/// element first.
pub open spec fn push_many(s: MachineView, bytes: Seq<u8>) -> MachineView
    decreases bytes.len(),
{
    if bytes.len() == 0 {
        s
    } else {
        push_many(push_tr(s, bytes[0]), bytes.drop_first())
    }
}

/// Round trip over the bus: a byte written to an address routed to
/// read-write storage is read back unchanged, for every address of the
/// space and every byte.
pub proof fn lemma_bus_round_trip(s: MachineView, addr: u16, b: u8)
    requires
        cpu_wf(s),
        s.mem.devs[crate::layout::seg_dev_at(s.mem.segs, addr as int)] is Ram,
    ensures
        bus_value(bus_write(s, addr, b), addr) == b,
{
    crate::layout::lemma_write_read_round_trip(s.mem, addr as int, b);
}

/// A write to an address routed to read-only storage is a no-op: the
/// whole machine, device contents included, is exactly as it was.
pub proof fn lemma_bus_rom_write_noop(s: MachineView, addr: u16, b: u8)
    requires
        cpu_wf(s),
        s.mem.devs[crate::layout::seg_dev_at(s.mem.segs, addr as int)] is Rom,
    ensures
        bus_write(s, addr, b) == s,
{
    crate::layout::lemma_rom_write_noop(s.mem, addr as int, b);
    assert(bus_write(s, addr, b) =~= s);
}

/// JSR and RTS pair precisely through the return-address-minus-one
/// convention. Take any machine right after a JSR opcode's fetch whose
/// two stack cells are routed to read-write storage: executing the JSR
/// jumps to its operand, and executing RTS from wherever control went
/// (the stack cells untouched in between) resumes at the instruction
/// after the three-byte JSR, with the stack pointer back where it was.
#[verifier::spinoff_prover]
#[verifier::rlimit(100)]
pub proof fn lemma_jsr_rts_pairing(s: MachineView)
    requires
        cpu_wf(s),
        s.mem.devs[crate::layout::seg_dev_at(s.mem.segs, stack_addr(s.sp) as int)] is Ram,
        s.mem.devs[crate::layout::seg_dev_at(s.mem.segs, stack_addr(w8_sub(s.sp, 1)) as int)]
            is Ram,
    ensures
        ({
            let s1 = exec_inst_spec(s, Inst::JSR, AddressingMode::Absolute);
            let s2 = exec_inst_spec(s1, Inst::RTS, AddressingMode::Implied);
            &&& s1.pc == fetch_word(s).1
            &&& s2.pc == w16_add(s.pc, 2)
            &&& s2.sp == s.sp
        }),
{
    let cell1 = stack_addr(s.sp);
    let cell2 = stack_addr(w8_sub(s.sp, 1));
    assert(cell1 != cell2);
    let ret = w16_sub(w16_add(s.pc, 2), 1);
    let hi = (ret / 256) as u8;
    let lo = (ret % 256) as u8;
    // The two operand fetches only move serial queues: the stack cells'
    // routing, kind and bytes are untouched.
    let m0 = s.mem;
    let d1 = crate::layout::seg_dev_at(m0.segs, cell1 as int);
    let d2 = crate::layout::seg_dev_at(m0.segs, cell2 as int);
    crate::layout::lemma_full_coverage(m0, cell1 as int);
    crate::layout::lemma_full_coverage(m0, cell2 as int);
    crate::layout::lemma_read_frame(m0, s.pc as int);
    let m1 = mem_read_spec(m0, s.pc as int).0;
    assert(m1.devs[d1] is Ram && m1.devs[d2] is Ram);
    crate::layout::lemma_read_frame(m1, w16_add(s.pc, 1) as int);
    let m2 = mem_read_spec(m1, w16_add(s.pc, 1) as int).0;
    assert(m2.devs[d1] is Ram && m2.devs[d2] is Ram);
    assert(crate::layout::seg_dev_at(m2.segs, cell1 as int) == d1);
    assert(crate::layout::seg_dev_at(m2.segs, cell2 as int) == d2);
    // The two pushes land in the two cells, each leaving the other
    // alone.
    crate::layout::lemma_write_preserves_wf(m2, cell1 as int, hi);
    crate::layout::lemma_write_frame_kinds(m2, cell1 as int, hi);
    crate::layout::lemma_write_read_round_trip(m2, cell1 as int, hi);
    let m3 = mem_write_spec(m2, cell1 as int, hi).0;
    assert(m3.devs[d1] is Ram && m3.devs[d2] is Ram);
    crate::layout::lemma_write_preserves_wf(m3, cell2 as int, lo);
    crate::layout::lemma_write_frame_kinds(m3, cell2 as int, lo);
    crate::layout::lemma_write_read_round_trip(m3, cell2 as int, lo);
    crate::layout::lemma_write_preserves_others(m3, cell2 as int, lo, cell1 as int);
    let m4 = mem_write_spec(m3, cell2 as int, lo).0;
    assert(m4.devs[d1] is Ram && m4.devs[d2] is Ram);
    assert(crate::layout::mem_value_at(m4, cell2 as int) == Some(lo));
    assert(crate::layout::mem_value_at(m4, cell1 as int) == Some(hi));
    // The first pull reads the low byte back; the second, undisturbed by
    // the first, reads the high byte.
    crate::layout::lemma_read_frame(m4, cell2 as int);
    crate::layout::lemma_read_preserves_storage_values(m4, cell2 as int, cell1 as int);
    let m5 = mem_read_spec(m4, cell2 as int).0;
    assert(crate::layout::mem_value_at(m5, cell1 as int) == Some(hi));
    assert((hi as int) * 256 + (lo as int) == ret);
}

/// One push steps the stack pointer down by one modulo 256, writes only
/// inside page 1, and touches no register, the program counter or the
/// flags.
proof fn lemma_push_effect(s: MachineView, b: u8)
    requires
        cpu_wf(s),
    ensures
        cpu_wf(push_tr(s, b)),
        push_tr(s, b).sp == w8_sub(s.sp, 1),
        push_tr(s, b).pc == s.pc,
        push_tr(s, b).a == s.a,
        push_tr(s, b).x == s.x,
        push_tr(s, b).y == s.y,
        push_tr(s, b).flags == s.flags,
        push_tr(s, b).mem.size == s.mem.size,
        push_tr(s, b).mem.segs == s.mem.segs,
        forall|addr: u16|
            !(0x100 <= addr < 0x200) ==> bus_value(push_tr(s, b), addr) == bus_value(s, addr),
{
    let w = stack_addr(s.sp);
    crate::layout::lemma_write_preserves_wf(s.mem, w as int, b);
    assert forall|addr: u16|
        !(0x100 <= addr < 0x200) implies bus_value(push_tr(s, b), addr) == bus_value(
        s,
        addr,
    ) by {
        crate::layout::lemma_write_preserves_others(s.mem, w as int, b, addr as int);
    }
}

/// After `k <= 256` pushes the stack pointer is its start value minus
/// `k` modulo 256; the registers, program counter and flags are
/// untouched, and no address outside page 1 changed its byte.
pub proof fn lemma_push_many_effect(s: MachineView, bytes: Seq<u8>)
    requires
        cpu_wf(s),
        bytes.len() <= 256,
    ensures
        cpu_wf(push_many(s, bytes)),
        push_many(s, bytes).sp as int == (s.sp - bytes.len() + 256) % 256,
        push_many(s, bytes).pc == s.pc,
        push_many(s, bytes).a == s.a,
        push_many(s, bytes).x == s.x,
        push_many(s, bytes).y == s.y,
        push_many(s, bytes).flags == s.flags,
        push_many(s, bytes).mem.size == s.mem.size,
        push_many(s, bytes).mem.segs == s.mem.segs,
        forall|addr: u16|
            !(0x100 <= addr < 0x200) ==> bus_value(push_many(s, bytes), addr) == bus_value(
                s,
                addr,
            ),
    decreases bytes.len(),
{
    if bytes.len() == 0 {
        lemma_mod_multiples_vanish(1, s.sp as int, 256);
        lemma_small_mod(s.sp as nat, 256);
    } else {
        lemma_push_effect(s, bytes[0]);
        let s1 = push_tr(s, bytes[0]);
        lemma_push_many_effect(s1, bytes.drop_first());
        if s.sp == 0 {
            lemma_mod_multiples_vanish(1, 256 - bytes.len(), 256);
        }
        assert forall|addr: u16|
            !(0x100 <= addr < 0x200) implies bus_value(push_many(s, bytes), addr) == bus_value(
            s,
            addr,
        ) by {
            assert(bus_value(push_many(s1, bytes.drop_first()), addr) == bus_value(s1, addr));
            assert(bus_value(s1, addr) == bus_value(s, addr));
        }
    }
}

/// 256 consecutive pushes return the stack pointer to its starting
/// value and write nowhere outside page 1 (0x0100 to 0x01FF): every
/// address outside that page reads as before, and the registers,
/// program counter and flags are untouched.
pub proof fn lemma_stack_wraps(s: MachineView, bytes: Seq<u8>)
    requires
        cpu_wf(s),
        bytes.len() == 256,
    ensures
        push_many(s, bytes).sp == s.sp,
        push_many(s, bytes).pc == s.pc,
        push_many(s, bytes).a == s.a,
        push_many(s, bytes).x == s.x,
        push_many(s, bytes).y == s.y,
        push_many(s, bytes).flags == s.flags,
        forall|addr: u16|
            !(0x100 <= addr < 0x200) ==> bus_value(push_many(s, bytes), addr) == bus_value(
                s,
                addr,
            ),
{
    lemma_push_many_effect(s, bytes);
    lemma_small_mod(s.sp as nat, 256);
}

/// The execution engine. It owns the layout for its lifetime and is
/// strictly single-threaded: one `step`, `irq`, `nmi` or `reset` call at
/// a time, each running to completion.
pub struct CPU {
    pc: u16,
    sp: u8,
    a: Register,
    x: Register,
    y: Register,
    status: Status,
    layout: Layout,
}

impl View for CPU {
    type V = MachineView;

    closed spec fn view(&self) -> MachineView {
        MachineView {
            pc: self.pc,
            sp: self.sp,
            a: self.a.data,
            x: self.x.data,
            y: self.y.data,
            flags: self.status,
            mem: self.layout@,
        }
    }
}

impl CPU {
    /// Validity of the engine: kept by every method.
    pub open spec fn wf(&self) -> bool {
        cpu_wf(self@)
    }

    /// Create the emulated processor around `layout`, which must route
    /// the full 64K address space 0x0000 to 0xFFFF; construction fails
    /// otherwise. Every device is attached once, here.
    pub fn new(layout: Layout) -> (r: Option<CPU>)
        requires
            layout.wf(),
        ensures
            layout@.size < 0x10000 ==> r is None,
            layout@.size >= 0x10000 ==> (match r {
                Some(c) => c.wf() && c@ == (MachineView {
                    pc: 0,
                    sp: 0,
                    a: 0,
                    x: 0,
                    y: 0,
                    flags: status_clear(),
                    mem: layout@,
                }),
                None => false,
            }),
    {
        if layout.get_byte_count() < 0x10000 {
            return None;
        }
        let mut layout = layout;
        layout.attach();
        Some(
            CPU {
                pc: 0,
                sp: 0,
                a: Register { data: 0 },
                x: Register { data: 0 },
                y: Register { data: 0 },
                status: Status::default(),
                layout,
            },
        )
    }

    /// Reset the machine: devices first, then registers and flags, then
    /// the program counter from the reset vector.
    pub fn reset(&mut self)
        requires
            old(self).wf(),
        ensures
            final(self).wf(),
            final(self)@ == reset_spec(old(self)@),
    {
        self.layout.reset();
        self.status = Status::default();
        self.a = Register { data: 0 };
        self.x = Register { data: 0 };
        self.y = Register { data: 0 };
        self.sp = 0xFF;
        self.pc = self.read_word(0xFFFC);
    }

    /// Whether a maskable interrupt would be taken now.
    pub fn is_irq_enabled(&self) -> (r: bool)
        ensures
            r == !self@.flags.int_disable,
    {
        !self.status.int_disable
    }

    /// Maskable interrupt entry. While Interrupt-disable is set this is a
    /// no-op: registers, flags, stack and memory stay untouched.
    pub fn irq(&mut self)
        requires
            old(self).wf(),
        ensures
            final(self).wf(),
            final(self)@ == irq_spec(old(self)@),
            old(self)@.flags.int_disable ==> final(self)@ == old(self)@,
    {
        if self.status.int_disable {
            return;
        }
        let pc = self.pc;
        self.push_byte((pc / 256) as u8);
        self.push_byte((pc % 256) as u8);
        let mut status = self.status;
        status.break_ = false;
        let packed = status.to_byte();
        self.push_byte(packed);
        self.status.int_disable = true;
        self.pc = self.read_word(0xFFFE);
    }

    /// Non-maskable interrupt entry: unconditional, through the NMI
    /// vector, with Interrupt-disable left as it was.
    pub fn nmi(&mut self)
        requires
            old(self).wf(),
        ensures
            final(self).wf(),
            final(self)@ == nmi_spec(old(self)@),
            final(self)@.flags.int_disable == old(self)@.flags.int_disable,
    {
        let pc = self.pc;
        self.push_byte((pc / 256) as u8);
        self.push_byte((pc % 256) as u8);
        let mut status = self.status;
        status.break_ = false;
        let packed = status.to_byte();
        self.push_byte(packed);
        self.pc = self.read_word(0xFFFA);
    }

    /// One byte read over the bus, for host-side peripheral polling; an
    /// unmapped or refused read yields 0.
    pub fn read_byte(&mut self, addr: u16) -> (r: u8)
        requires
            old(self).wf(),
        ensures
            final(self).wf(),
            ({
                let (s2, v) = bus_read(old(self)@, addr);
                final(self)@ == s2 && r == v
            }),
    {
        match self.layout.read(addr as usize) {
            Some(v) => v,
            None => 0,
        }
    }

    /// One byte written over the bus, for host-side peripheral feeding; a
    /// refused write is absorbed.
    pub fn write_byte(&mut self, addr: u16, data: u8)
        requires
            old(self).wf(),
        ensures
            final(self).wf(),
            final(self)@ == bus_write(old(self)@, addr, data),
    {
        let _ = self.layout.write(addr as usize, data);
    }

    /// Set the program counter, for bootstrapping and test harnesses.
    pub fn set_pc(&mut self, addr: u16)
        ensures
            final(self)@ == (MachineView { pc: addr, ..old(self)@ }),
    {
        self.pc = addr;
    }

    /// The current program counter.
    pub fn get_pc(&self) -> (r: u16)
        ensures
            r == self@.pc,
    {
        self.pc
    }

    /// Zero and Negative from a just-produced result.
    fn check_nz(&mut self, reg: Register)
        ensures
            final(self)@ == set_nz(old(self)@, reg.data),
    {
        self.status.negative = reg.is_negative();
        self.status.zero = reg.is_zero();
    }

    /// Push one byte onto the page-1 stack.
    fn push_byte(&mut self, data: u8)
        requires
            old(self).wf(),
        ensures
            final(self).wf(),
            final(self)@ == push_tr(old(self)@, data),
    {
        let sp = self.get_sp();
        self.write_byte(sp, data);
        self.sp = self.sp.wrapping_sub(1);
    }

    /// Pull one byte from the page-1 stack.
    fn pull_byte(&mut self) -> (r: u8)
        requires
            old(self).wf(),
        ensures
            final(self).wf(),
            ({
                let (s2, v) = pull_tr(old(self)@);
                final(self)@ == s2 && r == v
            }),
    {
        self.sp = self.sp.wrapping_add(1);
        let sp = self.get_sp();
        self.read_byte(sp)
    }

    /// The stack pointer as a bus address inside page 1.
    fn get_sp(&self) -> (r: u16)
        ensures
            r == stack_addr(self@.sp),
    {
        self.sp as u16 + 0x100
    }

    /// Consume the next instruction byte.
    fn next_byte(&mut self) -> (r: u8)
        requires
            old(self).wf(),
        ensures
            final(self).wf(),
            ({
                let (s2, b) = fetch_byte(old(self)@);
                final(self)@ == s2 && r == b
            }),
    {
        let byte = self.read_byte(self.pc);
        self.pc = self.pc.wrapping_add(1);
        byte
    }

    /// Consume the next instruction word.
    fn next_word(&mut self) -> (r: u16)
        requires
            old(self).wf(),
        ensures
            final(self).wf(),
            ({
                let (s2, w) = fetch_word(old(self)@);
                final(self)@ == s2 && r == w
            }),
    {
        let word = self.read_word(self.pc);
        self.pc = self.pc.wrapping_add(2);
        word
    }

    /// Resolve a read-class operand: the effective address and the byte
    /// there, consuming the operand bytes.
    fn read_byte_addressed(&mut self, addr_mode: AddressingMode) -> (r: (u16, u8))
        requires
            old(self).wf(),
        ensures
            final(self).wf(),
            ({
                let (s2, ea, v) = addr_read_spec(old(self)@, addr_mode);
                final(self)@ == s2 && r.0 == ea && r.1 == v
            }),
    {
        match addr_mode {
            AddressingMode::Immediate => {
                let data = self.next_byte();
                (self.pc, data)
            },
            AddressingMode::Absolute => {
                let addr = self.next_word();
                (addr, self.read_byte(addr))
            },
            AddressingMode::AbsoluteX => {
                let abs_addr = self.next_word();
                let addr = abs_addr.wrapping_add(self.x.data as u16);
                (addr, self.read_byte(addr))
            },
            AddressingMode::AbsoluteY => {
                let abs_addr = self.next_word();
                let addr = abs_addr.wrapping_add(self.y.data as u16);
                (addr, self.read_byte(addr))
            },
            AddressingMode::XIndirect => {
                let zp_addr = self.next_byte();
                let indexed = zp_addr.wrapping_add(self.x.data);
                let addr = self.read_word(indexed as u16);
                (addr, self.read_byte(addr))
            },
            AddressingMode::IndirectY => {
                let zp_addr = self.next_byte();
                let addr = self.read_word(zp_addr as u16).wrapping_add(self.y.data as u16);
                (addr, self.read_byte(addr))
            },
            AddressingMode::ZeroPage => {
                let addr = self.next_byte();
                (addr as u16, self.read_byte(addr as u16))
            },
            AddressingMode::ZeroPageX => {
                let zp_addr = self.next_byte();
                let addr = zp_addr.wrapping_add(self.x.data) as u16;
                (addr, self.read_byte(addr))
            },
            AddressingMode::ZeroPageY => {
                let zp_addr = self.next_byte();
                let addr = zp_addr.wrapping_add(self.y.data) as u16;
                (addr, self.read_byte(addr))
            },
            _ => (0u16, 0u8),
        }
    }

    /// Resolve a write-class operand and store `data` there, consuming
    /// the operand bytes.
    fn write_byte_addressed(&mut self, data: u8, addr_mode: AddressingMode)
        requires
            old(self).wf(),
        ensures
            final(self).wf(),
            final(self)@ == addr_write_spec(old(self)@, addr_mode, data),
    {
        match addr_mode {
            AddressingMode::Absolute => {
                let addr = self.next_word();
                self.write_byte(addr, data);
            },
            AddressingMode::AbsoluteX => {
                let abs_addr = self.next_word();
                let addr = abs_addr.wrapping_add(self.x.data as u16);
                self.write_byte(addr, data);
            },
            AddressingMode::AbsoluteY => {
                let abs_addr = self.next_word();
                let addr = abs_addr.wrapping_add(self.y.data as u16);
                self.write_byte(addr, data);
            },
            AddressingMode::XIndirect => {
                let zp_addr = self.next_byte();
                let addr = self.read_word(zp_addr.wrapping_add(self.x.data) as u16);
                self.write_byte(addr, data);
            },
            AddressingMode::IndirectY => {
                let zp_addr = self.next_byte();
                let addr = self.read_word(zp_addr as u16).wrapping_add(self.y.data as u16);
                self.write_byte(addr, data);
            },
            AddressingMode::ZeroPage => {
                let zp_addr = self.next_byte();
                self.write_byte(zp_addr as u16, data);
            },
            AddressingMode::ZeroPageX => {
                let zp_addr = self.next_byte();
                let addr = zp_addr.wrapping_add(self.x.data) as u16;
                self.write_byte(addr, data);
            },
            AddressingMode::ZeroPageY => {
                let zp_addr = self.next_byte();
                let addr = zp_addr.wrapping_add(self.y.data) as u16;
                self.write_byte(addr, data);
            },
            _ => {},
        }
    }

    /// Execute one instruction: load group.
    fn run_load(&mut self, inst: Inst, mode: AddressingMode)
        requires
            old(self).wf(),
            inst == Inst::LDA || inst == Inst::LDX || inst == Inst::LDY,
        ensures
            final(self).wf(),
            final(self)@ == exec_inst_spec(old(self)@, inst, mode),
    {
        let data = self.read_byte_addressed(mode).1;
        match inst {
            Inst::LDA => {
                self.a.data = data;
                let reg = self.a;
                self.check_nz(reg);
            },
            Inst::LDX => {
                self.x.data = data;
                let reg = self.x;
                self.check_nz(reg);
            },
            _ => {
                self.y.data = data;
                let reg = self.y;
                self.check_nz(reg);
            },
        }
    }

    /// Execute one instruction: store group.
    fn run_store(&mut self, inst: Inst, mode: AddressingMode)
        requires
            old(self).wf(),
            inst == Inst::STA || inst == Inst::STX || inst == Inst::STY,
        ensures
            final(self).wf(),
            final(self)@ == exec_inst_spec(old(self)@, inst, mode),
    {
        let data = match inst {
            Inst::STA => self.a.data,
            Inst::STX => self.x.data,
            _ => self.y.data,
        };
        self.write_byte_addressed(data, mode);
    }

    /// Execute one instruction: register transfer group.
    fn run_transfer(&mut self, inst: Inst, mode: AddressingMode)
        requires
            old(self).wf(),
            inst == Inst::TAX || inst == Inst::TAY || inst == Inst::TSX || inst == Inst::TXA
                || inst == Inst::TXS || inst == Inst::TYA,
        ensures
            final(self).wf(),
            final(self)@ == exec_inst_spec(old(self)@, inst, mode),
    {
        let _ = mode;
        match inst {
            Inst::TAX => {
                self.x = self.a;
                let reg = self.x;
                self.check_nz(reg);
            },
            Inst::TAY => {
                self.y = self.a;
                let reg = self.y;
                self.check_nz(reg);
            },
            Inst::TSX => {
                self.x.data = self.sp;
                let reg = self.x;
                self.check_nz(reg);
            },
            Inst::TXA => {
                self.a = self.x;
                let reg = self.a;
                self.check_nz(reg);
            },
            Inst::TXS => {
                self.sp = self.x.data;
            },
            _ => {
                self.a = self.y;
                let reg = self.a;
                self.check_nz(reg);
            },
        }
    }

    /// Execute one instruction: stack push and pull group.
    fn run_stack(&mut self, inst: Inst, mode: AddressingMode)
        requires
            old(self).wf(),
            inst == Inst::PHA || inst == Inst::PHP || inst == Inst::PHX || inst == Inst::PHY
                || inst == Inst::PLA || inst == Inst::PLP || inst == Inst::PLX || inst
                == Inst::PLY,
        ensures
            final(self).wf(),
            final(self)@ == exec_inst_spec(old(self)@, inst, mode),
    {
        let _ = mode;
        match inst {
            Inst::PHA => {
                let data = self.a.data;
                self.push_byte(data);
            },
            Inst::PHP => {
                let mut status = self.status;
                status.break_ = true;
                let packed = status.to_byte();
                self.push_byte(packed);
            },
            Inst::PHX => {
                let data = self.x.data;
                self.push_byte(data);
            },
            Inst::PHY => {
                let data = self.y.data;
                self.push_byte(data);
            },
            Inst::PLA => {
                self.a.data = self.pull_byte();
                let reg = self.a;
                self.check_nz(reg);
            },
            Inst::PLP => {
                let packed = self.pull_byte();
                self.status = Status::from_byte(packed);
            },
            Inst::PLX => {
                self.x.data = self.pull_byte();
                let reg = self.x;
                self.check_nz(reg);
            },
            _ => {
                self.y.data = self.pull_byte();
                let reg = self.y;
                self.check_nz(reg);
            },
        }
    }

    /// Execute one instruction: increment and decrement group. DEC and
    /// INC in Implied mode act on the accumulator, bypassing the bus.
    #[verifier::spinoff_prover]
    fn run_incdec(&mut self, inst: Inst, mode: AddressingMode)
        requires
            old(self).wf(),
            inst == Inst::DEC || inst == Inst::DEX || inst == Inst::DEY || inst == Inst::INC
                || inst == Inst::INX || inst == Inst::INY,
        ensures
            final(self).wf(),
            final(self)@ == exec_inst_spec(old(self)@, inst, mode),
    {
        match inst {
            Inst::DEC => {
                if mode == AddressingMode::Implied {
                    self.a.data = self.a.data.wrapping_sub(1);
                    let reg = self.a;
                    self.check_nz(reg);
                } else {
                    let (addr, mut data) = self.read_byte_addressed(mode);
                    data = data.wrapping_sub(1);
                    self.write_byte(addr, data);
                    self.check_nz(Register { data });
                }
            },
            Inst::DEX => {
                self.x.data = self.x.data.wrapping_sub(1);
                let reg = self.x;
                self.check_nz(reg);
            },
            Inst::DEY => {
                self.y.data = self.y.data.wrapping_sub(1);
                let reg = self.y;
                self.check_nz(reg);
            },
            Inst::INC => {
                if mode == AddressingMode::Implied {
                    self.a.data = self.a.data.wrapping_add(1);
                    let reg = self.a;
                    self.check_nz(reg);
                } else {
                    let (addr, mut data) = self.read_byte_addressed(mode);
                    data = data.wrapping_add(1);
                    self.write_byte(addr, data);
                    self.check_nz(Register { data });
                }
            },
            Inst::INX => {
                self.x.data = self.x.data.wrapping_add(1);
                let reg = self.x;
                self.check_nz(reg);
            },
            _ => {
                self.y.data = self.y.data.wrapping_add(1);
                let reg = self.y;
                self.check_nz(reg);
            },
        }
    }

    /// Execute one instruction: add or subtract with carry. SBC is ADC
    /// with the operand's bits complemented, reusing the same carry and
    /// overflow derivation.
    #[verifier::rlimit(100)]
    #[verifier::spinoff_prover]
    fn run_arith(&mut self, inst: Inst, mode: AddressingMode)
        requires
            old(self).wf(),
            inst == Inst::ADC || inst == Inst::SBC,
        ensures
            final(self).wf(),
            final(self)@ == exec_inst_spec(old(self)@, inst, mode),
    {
        let fetched = self.read_byte_addressed(mode).1;
        let operand = if matches!(inst, Inst::SBC) {
            fetched ^ 0xFF
        } else {
            fetched
        };
        let carry_in: u16 = if self.status.carry {
            1
        } else {
            0
        };
        let sum: u16 = self.a.data as u16 + operand as u16 + carry_in;
        self.status.carry = sum > 255;
        self.status.overflow = ((sum ^ self.a.data as u16) & (sum ^ operand as u16) & 0x80) > 0;
        self.a.data = (sum % 256) as u8;
        let reg = self.a;
        self.check_nz(reg);
    }

    /// Execute one instruction: bitwise logic group.
    #[verifier::rlimit(100)]
    #[verifier::spinoff_prover]
    fn run_logic(&mut self, inst: Inst, mode: AddressingMode)
        requires
            old(self).wf(),
            inst == Inst::AND || inst == Inst::EOR || inst == Inst::ORA,
        ensures
            final(self).wf(),
            final(self)@ == exec_inst_spec(old(self)@, inst, mode),
    {
        let data = self.read_byte_addressed(mode).1;
        match inst {
            Inst::AND => self.a.data = self.a.data & data,
            Inst::EOR => self.a.data = self.a.data ^ data,
            _ => self.a.data = self.a.data | data,
        }
        let reg = self.a;
        self.check_nz(reg);
    }

    /// Execute one instruction: shift and rotate group, on the
    /// accumulator in Implied mode or on a memory operand otherwise. The
    /// bit shifted out becomes the new Carry; ROL and ROR shift the old
    /// Carry in on the vacated side.
    #[verifier::spinoff_prover]
    fn run_shift(&mut self, inst: Inst, mode: AddressingMode)
        requires
            old(self).wf(),
            inst == Inst::ASL || inst == Inst::LSR || inst == Inst::ROL || inst == Inst::ROR,
        ensures
            final(self).wf(),
            final(self)@ == exec_inst_spec(old(self)@, inst, mode),
    {
        let carry_bit = self.status.carry;
        let (orig, addr): (u8, u16) = if mode == AddressingMode::Implied {
            (self.a.data, 0)
        } else {
            let read = self.read_byte_addressed(mode);
            (read.1, read.0)
        };
        let send_carry = match inst {
            Inst::ASL | Inst::ROL => (orig & 0b10000000) > 0,
            _ => (orig & 0b1) > 0,
        };
        let data = match inst {
            Inst::ASL => orig << 1,
            Inst::LSR => orig >> 1,
            Inst::ROL => (orig << 1) | (if carry_bit {
                1u8
            } else {
                0u8
            }),
            _ => (orig >> 1) | (if carry_bit {
                0x80u8
            } else {
                0u8
            }),
        };
        if mode == AddressingMode::Implied {
            self.a.data = data;
        } else {
            self.write_byte(addr, data);
        }
        self.check_nz(Register { data });
        self.status.carry = send_carry;
    }

    /// Execute one instruction: flag set and clear group.
    fn run_flag(&mut self, inst: Inst, mode: AddressingMode)
        requires
            old(self).wf(),
            inst == Inst::CLC || inst == Inst::CLD || inst == Inst::CLI || inst == Inst::CLV
                || inst == Inst::SEC || inst == Inst::SED || inst == Inst::SEI,
        ensures
            final(self).wf(),
            final(self)@ == exec_inst_spec(old(self)@, inst, mode),
    {
        let _ = mode;
        match inst {
            Inst::CLC => self.status.carry = false,
            Inst::CLD => self.status.decimal = false,
            Inst::CLI => self.status.int_disable = false,
            Inst::CLV => self.status.overflow = false,
            Inst::SEC => self.status.carry = true,
            Inst::SED => self.status.decimal = true,
            _ => self.status.int_disable = true,
        }
    }

    /// Execute one instruction: compare group. A non-storing wrapping
    /// subtraction: Carry is register >= operand (unsigned), Negative
    /// and Zero come from the subtraction result.
    #[verifier::rlimit(100)]
    #[verifier::spinoff_prover]
    fn run_compare(&mut self, inst: Inst, mode: AddressingMode)
        requires
            old(self).wf(),
            inst == Inst::CMP || inst == Inst::CPX || inst == Inst::CPY,
        ensures
            final(self).wf(),
            final(self)@ == exec_inst_spec(old(self)@, inst, mode),
    {
        let operand = self.read_byte_addressed(mode).1;
        let reg = match inst {
            Inst::CMP => self.a.data,
            Inst::CPX => self.x.data,
            _ => self.y.data,
        };
        let result = reg.wrapping_sub(operand);
        self.check_nz(Register { data: result });
        self.status.carry = reg >= operand;
    }

    /// Execute one instruction: branch group. The offset byte is always
    /// consumed; the program counter moves only if the condition holds.
    fn run_branch(&mut self, inst: Inst, mode: AddressingMode)
        requires
            old(self).wf(),
            inst == Inst::BRA || inst == Inst::BCC || inst == Inst::BCS || inst == Inst::BNE
                || inst == Inst::BEQ || inst == Inst::BPL || inst == Inst::BMI || inst == Inst::BVC
                || inst == Inst::BVS,
        ensures
            final(self).wf(),
            final(self)@ == exec_inst_spec(old(self)@, inst, mode),
    {
        let _ = mode;
        let rel = self.next_byte();
        let cond = match inst {
            Inst::BRA => true,
            Inst::BCC => !self.status.carry,
            Inst::BCS => self.status.carry,
            Inst::BNE => !self.status.zero,
            Inst::BEQ => self.status.zero,
            Inst::BPL => !self.status.negative,
            Inst::BMI => self.status.negative,
            Inst::BVC => !self.status.overflow,
            _ => self.status.overflow,
        };
        if cond {
            let offset: u16 = if rel >= 128 {
                rel as u16 + 0xFF00
            } else {
                rel as u16
            };
            self.pc = self.pc.wrapping_add(offset);
        }
    }

    /// Execute one instruction: jump, call and return group. JSR pushes
    /// the address of its own last byte; RTS pops and increments by one.
    fn run_jump(&mut self, inst: Inst, mode: AddressingMode)
        requires
            old(self).wf(),
            inst == Inst::JMP || inst == Inst::JSR || inst == Inst::RTS,
        ensures
            final(self).wf(),
            final(self)@ == exec_inst_spec(old(self)@, inst, mode),
    {
        match inst {
            Inst::JMP => {
                if mode == AddressingMode::Indirect {
                    let indirect_addr = self.next_word();
                    let addr = self.read_word(indirect_addr);
                    self.pc = addr;
                } else if mode == AddressingMode::Absolute {
                    let addr = self.next_word();
                    self.pc = addr;
                }
            },
            Inst::JSR => {
                let to_addr = self.next_word();
                let ret_addr = self.pc.wrapping_sub(1);
                self.push_byte((ret_addr / 256) as u8);
                self.push_byte((ret_addr % 256) as u8);
                self.pc = to_addr;
            },
            _ => {
                let lo_pc = self.pull_byte() as u16;
                let hi_pc = self.pull_byte() as u16;
                self.pc = (hi_pc * 256 + lo_pc).wrapping_add(1);
            },
        }
    }

    /// Execute one instruction: BRK and RTI. BRK pushes the address two
    /// bytes past the opcode, then the status with Break set, sets
    /// Interrupt-disable and loads the program counter from the IRQ/BRK
    /// vector; RTI pops status then the program counter with no
    /// increment.
    fn run_interrupt_op(&mut self, inst: Inst, mode: AddressingMode)
        requires
            old(self).wf(),
            inst == Inst::BRK || inst == Inst::RTI,
        ensures
            final(self).wf(),
            final(self)@ == exec_inst_spec(old(self)@, inst, mode),
    {
        let _ = mode;
        match inst {
            Inst::BRK => {
                let pc_next = self.pc.wrapping_add(1);
                self.push_byte((pc_next / 256) as u8);
                self.push_byte((pc_next % 256) as u8);
                let mut status = self.status;
                status.break_ = true;
                let packed = status.to_byte();
                self.push_byte(packed);
                self.status.int_disable = true;
                self.pc = self.read_word(0xFFFE);
            },
            _ => {
                let packed = self.pull_byte();
                self.status = Status::from_byte(packed);
                let lo_pc = self.pull_byte() as u16;
                let hi_pc = self.pull_byte() as u16;
                self.pc = hi_pc * 256 + lo_pc;
            },
        }
    }

    /// Execute one instruction: the bit test. Zero comes from the
    /// accumulator masked with the operand; Negative and Overflow copy
    /// the operand's bits 7 and 6.
    #[verifier::rlimit(100)]
    #[verifier::spinoff_prover]
    fn run_bit(&mut self, mode: AddressingMode)
        requires
            old(self).wf(),
        ensures
            final(self).wf(),
            final(self)@ == exec_inst_spec(old(self)@, Inst::BIT, mode),
    {
        let data = self.read_byte_addressed(mode).1;
        self.status.zero = (self.a.data & data) == 0;
        self.status.negative = (data & 0b10000000) > 0;
        self.status.overflow = (data & 0b1000000) > 0;
    }

    /// Execute one instruction to completion: fetch the opcode byte at
    /// the program counter (advancing past it), decode it, resolve the
    /// addressing mode and apply the instruction's semantics atomically.
    /// On an illegal opcode, return `UnknownInst` with no register
    /// mutation beyond the opcode fetch; the caller decides whether to
    /// halt. No instruction spans two calls.
    #[verifier::spinoff_prover]
    pub fn step(&mut self) -> (r: Result<(), ExecutionError>)
        requires
            old(self).wf(),
        ensures
            final(self).wf(),
            ({
                let (s2, r2) = step_spec(old(self)@);
                final(self)@ == s2 && r == r2
            }),
    {
        let inst_byte = self.next_byte();
        let Some((inst, addr_mode)) = decode_inst(inst_byte) else {
            return Err(ExecutionError::UnknownInst(inst_byte));
        };
        match inst {
            Inst::LDA | Inst::LDX | Inst::LDY => self.run_load(inst, addr_mode),
            Inst::STA | Inst::STX | Inst::STY => self.run_store(inst, addr_mode),
            Inst::TAX | Inst::TAY | Inst::TSX | Inst::TXA | Inst::TXS | Inst::TYA => {
                self.run_transfer(inst, addr_mode)
            },
            Inst::PHA | Inst::PHP | Inst::PHX | Inst::PHY | Inst::PLA | Inst::PLP | Inst::PLX
                | Inst::PLY => self.run_stack(inst, addr_mode),
            Inst::DEC | Inst::DEX | Inst::DEY | Inst::INC | Inst::INX | Inst::INY => self
                .run_incdec(inst, addr_mode),
            Inst::ADC | Inst::SBC => self.run_arith(inst, addr_mode),
            Inst::AND | Inst::EOR | Inst::ORA => self.run_logic(inst, addr_mode),
            Inst::ASL | Inst::LSR | Inst::ROL | Inst::ROR => self.run_shift(inst, addr_mode),
            Inst::CLC | Inst::CLD | Inst::CLI | Inst::CLV | Inst::SEC | Inst::SED | Inst::SEI => {
                self.run_flag(inst, addr_mode)
            },
            Inst::CMP | Inst::CPX | Inst::CPY => self.run_compare(inst, addr_mode),
            Inst::BRA | Inst::BCC | Inst::BCS | Inst::BNE | Inst::BEQ | Inst::BPL | Inst::BMI
                | Inst::BVC | Inst::BVS => self.run_branch(inst, addr_mode),
            Inst::JMP | Inst::JSR | Inst::RTS => self.run_jump(inst, addr_mode),
            Inst::BRK | Inst::RTI => self.run_interrupt_op(inst, addr_mode),
            Inst::BIT => self.run_bit(addr_mode),
            Inst::NOP => {},
        }
        Ok(())
    }

    /// The word at `addr`, low byte first.
    fn read_word(&mut self, addr: u16) -> (r: u16)
        requires
            old(self).wf(),
        ensures
            final(self).wf(),
            ({
                let (s2, w) = read_word_tr(old(self)@, addr);
                final(self)@ == s2 && r == w
            }),
    {
        let lo = self.read_byte(addr);
        let hi = self.read_byte(addr.wrapping_add(1));
        (hi as u16) * 256 + (lo as u16)
    }
}

} // verus!
