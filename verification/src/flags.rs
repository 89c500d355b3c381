//! The processor status word: seven one-bit flags packed into a byte.

use vstd::prelude::*;

verus! {

/// The seven status flags. In the packed byte they sit, from bit 7 down to
/// bit 0, as N V 1 B D I Z C; bit 5 is unused by the hardware and always
/// reads back as 1.
#[derive(Clone, Copy, Debug, PartialEq, Eq, Structural)]
pub struct Status {
    pub negative: bool,
    pub overflow: bool,
    pub break_: bool,
    pub decimal: bool,
    pub int_disable: bool,
    pub zero: bool,
    pub carry: bool,
}

/// The weight a flag contributes to the packed byte.
pub open spec fn bit_val(b: bool, weight: u8) -> u8 {
    if b {
        weight
    } else {
        0
    }
}

/// The packed status byte: N V 1 B D I Z C from bit 7 down to bit 0.
pub open spec fn pack_status(s: Status) -> u8 {
    (bit_val(s.negative, 128) + bit_val(s.overflow, 64) + 32 + bit_val(s.break_, 16)
        + bit_val(s.decimal, 8) + bit_val(s.int_disable, 4) + bit_val(s.zero, 2)
        + bit_val(s.carry, 1)) as u8
}

/// The flags encoded by a packed byte; bits 5 and 4's absence aside, this
/// inverts `pack_status`.
pub open spec fn unpack_status(v: u8) -> Status {
    Status {
        negative: v / 128 % 2 == 1,
        overflow: v / 64 % 2 == 1,
        break_: v / 16 % 2 == 1,
        decimal: v / 8 % 2 == 1,
        int_disable: v / 4 % 2 == 1,
        zero: v / 2 % 2 == 1,
        carry: v % 2 == 1,
    }
}

/// The state of the flags after power-on or a reset: everything clear.
pub open spec fn status_clear() -> Status {
    Status {
        negative: false,
        overflow: false,
        break_: false,
        decimal: false,
        int_disable: false,
        zero: false,
        carry: false,
    }
}

impl Default for Status {
    /// All flags clear.
    fn default() -> (r: Self)
        ensures
            r == status_clear(),
    {
        Status {
            negative: false,
            overflow: false,
            break_: false,
            decimal: false,
            int_disable: false,
            zero: false,
            carry: false,
        }
    }
}

impl Status {
    /// Pack the flags into the status byte pushed by PHP, BRK and the
    /// interrupt entries.
    pub fn to_byte(&self) -> (r: u8)
        ensures
            r == pack_status(*self),
    {
        (if self.negative {
            128u8
        } else {
            0u8
        }) + (if self.overflow {
            64u8
        } else {
            0u8
        }) + 32 + (if self.break_ {
            16u8
        } else {
            0u8
        }) + (if self.decimal {
            8u8
        } else {
            0u8
        }) + (if self.int_disable {
            4u8
        } else {
            0u8
        }) + (if self.zero {
            2u8
        } else {
            0u8
        }) + (if self.carry {
            1u8
        } else {
            0u8
        })
    }

    /// Unpack a status byte pulled by PLP and RTI.
    pub fn from_byte(v: u8) -> (r: Status)
        ensures
            r == unpack_status(v),
    {
        Status {
            negative: v / 128 % 2 == 1,
            overflow: v / 64 % 2 == 1,
            break_: v / 16 % 2 == 1,
            decimal: v / 8 % 2 == 1,
            int_disable: v / 4 % 2 == 1,
            zero: v / 2 % 2 == 1,
            carry: v % 2 == 1,
        }
    }
}

/// Packing the flags and unpacking the resulting byte restores every flag,
/// the Break flag included: PHP/PLP and push/pull round-trip the packed
/// representation exactly.
pub proof fn lemma_status_round_trip(s: Status)
    ensures
        unpack_status(pack_status(s)) == s,
{
}

} // verus!
