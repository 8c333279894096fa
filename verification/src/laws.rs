//! Architecture-wide guarantees of the instruction semantics, stated and
//! proved over the transition model: the condition-code discipline, the
//! program-counter discipline, the return-address rule of JSR, the value
//! LEA computes, and the behaviour of sign extension.

use vstd::prelude::*;
use crate::decode::{dr_of, off9_of, opcode_of, sign_extend_spec, trapvect_of};
use crate::semantics::{
    dispatch_spec, flag_for, mmio_read_spec, step_spec, wadd, VmState, TRAP_GETC, TRAP_IN,
};

verus! {

/// Every instruction that writes a general-purpose register leaves the
/// condition code matching the value written: N when its high bit is set,
/// Z when it is zero, P otherwise — for every 16-bit value. The opcodes
/// named are ADD, AND, NOT, LD, LDI, LDR and LEA; `s` is the machine with
/// the PC already moved past the instruction.
pub proof fn lemma_cond_follows_written_register(s: VmState, w: u16)
    requires
        s.wf(),
        opcode_of(w) == 1 || opcode_of(w) == 5 || opcode_of(w) == 9 || opcode_of(w) == 2
            || opcode_of(w) == 10 || opcode_of(w) == 6 || opcode_of(w) == 14,
    ensures
        ({
            let s1 = dispatch_spec(s, w).0;
            s1.cond == flag_for(s1.regs[dr_of(w) as int])
        }),
{
    crate::decode::lemma_fields_bounded(w);
}

/// The console-read traps GETC and IN write R0 with the key byte, and the
/// condition code follows that value like any other register write.
pub proof fn lemma_cond_follows_console_read(s: VmState, w: u16)
    requires
        s.wf(),
        opcode_of(w) == 15,
        trapvect_of(w) == TRAP_GETC || trapvect_of(w) == TRAP_IN,
        s.keys.len() > 0,
    ensures
        ({
            let s1 = dispatch_spec(s, w).0;
            s1.cond == flag_for(s1.regs[0])
        }),
{
}

/// No instruction that leaves every general-purpose register alone touches
/// the condition code: the stores, the control transfers, and the traps
/// other than the console reads keep it as it was.
pub proof fn lemma_cond_preserved(s: VmState, w: u16)
    requires
        s.wf(),
        opcode_of(w) == 0 || opcode_of(w) == 3 || opcode_of(w) == 4 || opcode_of(w) == 7
            || opcode_of(w) == 11 || opcode_of(w) == 12 || (opcode_of(w) == 15 && trapvect_of(w)
            != TRAP_GETC && trapvect_of(w) != TRAP_IN),
    ensures
        dispatch_spec(s, w).0.cond == s.cond,
{
}

/// A step preserves the machine's shape: memory and register counts stay
/// fixed and the condition code stays exactly one of N, Z, P.
pub proof fn lemma_step_preserves_wf(s: VmState)
    requires
        s.wf(),
    ensures
        step_spec(s).0.wf(),
{
    let w = mmio_read_spec(s, s.pc).1;
    crate::decode::lemma_fields_bounded(w);
}

/// Between fetches the PC moves forward by exactly one, wrapping mod 2^16,
/// whenever the fetched instruction is not a jump, not a subroutine call,
/// not a branch whose mask covers the current condition code, and not a
/// console read stopped by an empty key queue.
pub proof fn lemma_pc_advances_by_one(s: VmState)
    requires
        s.wf(),
        ({
            let f = mmio_read_spec(s, s.pc);
            let w = f.1;
            &&& opcode_of(w) != 12
            &&& opcode_of(w) != 4
            &&& opcode_of(w) == 0 ==> dr_of(w) & s.cond == 0
            &&& opcode_of(w) == 15 && (trapvect_of(w) == TRAP_GETC || trapvect_of(w) == TRAP_IN)
                ==> f.0.keys.len() > 0
        }),
    ensures
        step_spec(s).0.pc == wadd(s.pc, 1),
{
    let w = mmio_read_spec(s, s.pc).1;
    crate::decode::lemma_fields_bounded(w);
}

/// After JSR or JSRR, R7 holds the address of the instruction following
/// the call: the fetch address plus one, wrapping mod 2^16.
pub proof fn lemma_jsr_saves_return_address(s: VmState)
    requires
        s.wf(),
        opcode_of(mmio_read_spec(s, s.pc).1) == 4,
    ensures
        step_spec(s).0.regs[7] == wadd(s.pc, 1),
{
}

/// After LEA with offset k, the destination holds the effective address
/// itself: the fetch address plus one plus k, mod 2^16.
pub proof fn lemma_lea_loads_effective_address(s: VmState)
    requires
        s.wf(),
        opcode_of(mmio_read_spec(s, s.pc).1) == 14,
    ensures
        ({
            let w = mmio_read_spec(s, s.pc).1;
            &&& step_spec(s).0.regs[dr_of(w) as int] == wadd(wadd(s.pc, 1), off9_of(w))
            &&& step_spec(s).0.regs[dr_of(w) as int] == (s.pc + 1 + off9_of(w)) % 0x10000
        }),
{
    let w = mmio_read_spec(s, s.pc).1;
    crate::decode::lemma_fields_bounded(w);
}

/// What sign extension returns, bit for bit: the input unchanged when its
/// top bit within the field is clear, and the input with all higher bits
/// set when it is set.
pub proof fn lemma_sign_extend_bits(x: u16, n: usize)
    requires
        1 <= n < 16,
    ensures
        (x >> ((n - 1) as u16)) & 1 == 0 ==> sign_extend_spec(x, n) == x,
        (x >> ((n - 1) as u16)) & 1 == 1 ==> sign_extend_spec(x, n) == (x | (0xFFFFu16 << (
        n as u16))),
{
}

/// The signed reading of a 16-bit word, as two's complement.
pub open spec fn as_signed16(x: u16) -> int {
    if x >= 0x8000 {
        x - 0x10000
    } else {
        x as int
    }
}

/// Round trip: a word whose signed value fits in n bits, truncated to its
/// low n bits and sign-extended back, is returned unchanged — so its
/// signed reading survives the trip through an n-bit immediate field.
pub proof fn lemma_sign_extend_round_trip(w: u16, n: usize)
    requires
        1 <= n < 16,
        -((1u16 << ((n - 1) as u16)) as int) <= as_signed16(w),
        as_signed16(w) < (1u16 << ((n - 1) as u16)) as int,
    ensures
        sign_extend_spec(w & (((1u16 << (n as u16)) - 1) as u16), n) == w,
        as_signed16(sign_extend_spec(w & (((1u16 << (n as u16)) - 1) as u16), n)) == as_signed16(
            w,
        ),
{
    assert(sign_extend_spec(w & (((1u16 << (n as u16)) - 1) as u16), n) == w) by (bit_vector)
        requires
            1 <= n < 16,
            (if w >= 0x8000 {
                w - 0x10000
            } else {
                w as int
            }) >= -((1u16 << ((n - 1) as u16)) as int),
            (if w >= 0x8000 {
                w - 0x10000
            } else {
                w as int
            }) < (1u16 << ((n - 1) as u16)) as int,
    ;
}

} // verus!
