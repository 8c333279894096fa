//! Splitting a 16-bit instruction word into its operand fields, and the
//! sign extension of the embedded immediates.

use vstd::prelude::*;

verus! {

/// The low `bits` bits of `num` read as a two's-complement value and widened
/// to 16 bits: if bit `bits - 1` is set, the bits above it are filled with
/// ones, otherwise `num` is returned unchanged.
pub open spec fn sign_extend_spec(num: u16, bits: usize) -> u16 {
    if (num >> ((bits - 1) as u16)) & 1 != 0 {
        num | (0xFFFFu16 << (bits as u16))
    } else {
        num
    }
}

/// Extends an embedded immediate of width `bits` to a 16-bit word by
/// replicating its sign bit.
pub fn sign_extend(num: u16, bits: usize) -> (r: u16)
    requires
        1 <= bits < 16,
    ensures
        r == sign_extend_spec(num, bits),
{
    if (num >> (bits - 1)) & 1 != 0 {
        num | (0xFFFFu16 << bits)
    } else {
        num
    }
}

/// The 4-bit opcode in the top of the instruction word.
pub open spec fn opcode_of(w: u16) -> u16 {
    w >> 12
}

/// The destination-register field, bits 11..9.
pub open spec fn dr_of(w: u16) -> u16 {
    (w >> 9) & 0x7
}

/// The first source-register field, bits 8..6.
pub open spec fn sr1_of(w: u16) -> u16 {
    (w >> 6) & 0x7
}

/// The second source-register field, bits 2..0.
pub open spec fn sr2_of(w: u16) -> u16 {
    w & 0x7
}

/// The 5-bit immediate, sign-extended to 16 bits.
pub open spec fn imm5_of(w: u16) -> u16 {
    sign_extend_spec(w & 0x1F, 5)
}

/// The 6-bit register offset, sign-extended to 16 bits.
pub open spec fn off6_of(w: u16) -> u16 {
    sign_extend_spec(w & 0x3F, 6)
}

/// The 9-bit PC-relative offset, sign-extended to 16 bits.
pub open spec fn off9_of(w: u16) -> u16 {
    sign_extend_spec(w & 0x1FF, 9)
}

/// The 11-bit PC-relative offset of the long JSR form, sign-extended.
pub open spec fn off11_of(w: u16) -> u16 {
    sign_extend_spec(w & 0x7FF, 11)
}

/// The 8-bit trap vector in the low byte.
pub open spec fn trapvect_of(w: u16) -> u16 {
    w & 0xFF
}

/// Bit 5, the immediate-mode flag of ADD and AND.
pub open spec fn imm_flag_of(w: u16) -> bool {
    (w >> 5) & 1 != 0
}

/// Bit 11, the long-offset flag that tells JSR from JSRR.
pub open spec fn long_flag_of(w: u16) -> bool {
    (w >> 11) & 1 != 0
}

/// The register fields are three bits and the trap vector eight, so they
/// never index out of range.
pub proof fn lemma_fields_bounded(w: u16)
    ensures
        opcode_of(w) < 16,
        dr_of(w) < 8,
        sr1_of(w) < 8,
        sr2_of(w) < 8,
        trapvect_of(w) < 256,
{
    assert(w >> 12 < 16) by (bit_vector);
    assert((w >> 9) & 0x7 < 8) by (bit_vector);
    assert((w >> 6) & 0x7 < 8) by (bit_vector);
    assert(w & 0x7 < 8) by (bit_vector);
    assert(w & 0xFF < 256) by (bit_vector);
}

} // verus!
