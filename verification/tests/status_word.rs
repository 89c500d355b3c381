//! The packed status word and the register predicates.

use tbo2::Register;
use tbo2::Status;

#[test]
fn packed_byte_layout_and_reserved_bit() {
    let clear = Status::default();
    // Bit 5 always reads back as 1.
    assert_eq!(clear.to_byte(), 0x20);
    let mut s = clear;
    s.negative = true;
    s.carry = true;
    assert_eq!(s.to_byte(), 0xA1);
    let mut t = clear;
    t.overflow = true;
    t.break_ = true;
    t.decimal = true;
    t.int_disable = true;
    t.zero = true;
    assert_eq!(t.to_byte(), 0x7E);
}

#[test]
fn pack_then_unpack_restores_every_flag() {
    for bits in 0..128u8 {
        let s = Status {
            negative: bits & 1 != 0,
            overflow: bits & 2 != 0,
            break_: bits & 4 != 0,
            decimal: bits & 8 != 0,
            int_disable: bits & 16 != 0,
            zero: bits & 32 != 0,
            carry: bits & 64 != 0,
        };
        assert_eq!(Status::from_byte(s.to_byte()), s);
    }
}

#[test]
fn unpack_reads_the_documented_bits() {
    let s = Status::from_byte(0b1100_0101);
    assert!(s.negative);
    assert!(s.overflow);
    assert!(!s.break_);
    assert!(!s.decimal);
    assert!(s.int_disable);
    assert!(!s.zero);
    assert!(s.carry);
}

#[test]
fn register_predicates() {
    assert!(Register { data: 0x80 }.is_negative());
    assert!(!Register { data: 0x7F }.is_negative());
    assert!(Register { data: 0 }.is_zero());
    assert!(!Register { data: 1 }.is_zero());
}
