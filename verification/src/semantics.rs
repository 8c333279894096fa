//! The specification-level model of the LC-3: the machine state as
//! mathematical sequences, and one spec function per opcode giving the
//! bit-exact meaning of each instruction, combined into a single-step
//! transition function.
//!
//! The executable interpreter in `machine` is proved to follow this model
//! step for step. Console input appears here as a queue of key bytes and
//! console output as a growing byte sequence; the host feeds the one and
//! drains the other.

use vstd::prelude::*;
use crate::decode::{
    sign_extend_spec, opcode_of, dr_of, sr1_of, sr2_of, imm5_of, off6_of, off9_of, off11_of,
    trapvect_of, imm_flag_of, long_flag_of,
};

verus! {

pub const MEMORY_SIZE: usize = 0x10000;

pub const PC_START: u16 = 0x3000;

pub const FL_POS: u16 = 1;

pub const FL_ZRO: u16 = 2;

pub const FL_NEG: u16 = 4;

/// Keyboard status register: reading it polls the key queue.
pub const MR_KBSR: u16 = 0xFE00;

/// Keyboard data register: holds the last key delivered through KBSR.
pub const MR_KBDR: u16 = 0xFE02;

pub const TRAP_GETC: u16 = 0x20;

pub const TRAP_OUT: u16 = 0x21;

pub const TRAP_PUTS: u16 = 0x22;

pub const TRAP_IN: u16 = 0x23;

pub const TRAP_PUTSP: u16 = 0x24;

pub const TRAP_HALT: u16 = 0x25;

/// A fatal condition: a defect of the loaded image, not of the host.
#[derive(Clone, Copy, Debug, PartialEq, Eq, Structural)]
pub enum VmError {
    /// The RTI opcode, which is privileged and fatal in user mode.
    PrivilegedOpcode,
    /// The reserved opcode 0b1101.
    ReservedOpcode,
    /// A trap vector outside the six defined ones.
    UnknownTrap,
    /// An image whose origin word or final word is cut short.
    TruncatedImage,
}

/// What a step of the machine reports back to the host.
#[derive(Clone, Copy, Debug, PartialEq, Eq, Structural)]
pub enum Status {
    /// The instruction completed; execution can continue.
    Running,
    /// A blocking console read found the key queue empty; the machine is
    /// unchanged and the host must queue a key before stepping again.
    WantsKey,
    /// The halt trap ran; the machine stops successfully.
    Halted,
    /// A fatal instruction; the machine aborts.
    Fatal(VmError),
}

/// The whole machine state: memory, the eight general-purpose registers,
/// the program counter, the condition code, and the two console-side byte
/// streams.
#[verifier::ext_equal]
pub struct VmState {
    pub mem: Seq<u16>,
    pub regs: Seq<u16>,
    pub pc: u16,
    pub cond: u16,
    /// Key bytes the host has queued but the machine has not consumed.
    pub keys: Seq<u8>,
    /// Console output the machine has produced and the host has not drained.
    pub out: Seq<u8>,
}

/// 16-bit addition with wrap-around, the only arithmetic the machine does.
pub open spec fn wadd(a: u16, b: u16) -> u16 {
    if a + b > 0xFFFF {
        (a + b - 0x10000) as u16
    } else {
        (a + b) as u16
    }
}

/// The condition code demanded by a value just written to a register:
/// N for a set high bit, Z for zero, P otherwise.
pub open spec fn flag_for(v: u16) -> u16 {
    if v == 0 {
        FL_ZRO
    } else if v >= 0x8000 {
        FL_NEG
    } else {
        FL_POS
    }
}

impl VmState {
    /// Memory has one cell per 16-bit address, there are eight registers,
    /// and the condition code is exactly one of N, Z, P.
    pub open spec fn wf(self) -> bool {
        &&& self.mem.len() == MEMORY_SIZE
        &&& self.regs.len() == 8
        &&& (self.cond == FL_POS || self.cond == FL_ZRO || self.cond == FL_NEG)
    }

    /// The machine as it powers on: zeroed memory and registers, the PC at
    /// the conventional user-program origin, the condition code Z.
    pub open spec fn initial() -> VmState {
        VmState {
            mem: Seq::new(MEMORY_SIZE as nat, |i: int| 0u16),
            regs: Seq::new(8, |i: int| 0u16),
            pc: PC_START,
            cond: FL_ZRO,
            keys: Seq::empty(),
            out: Seq::empty(),
        }
    }

    pub open spec fn with_reg(self, r: u16, v: u16) -> VmState {
        VmState { regs: self.regs.update(r as int, v), ..self }
    }

    pub open spec fn with_mem(self, a: u16, v: u16) -> VmState {
        VmState { mem: self.mem.update(a as int, v), ..self }
    }

    pub open spec fn with_pc(self, p: u16) -> VmState {
        VmState { pc: p, ..self }
    }

    /// The condition code as set from the current value of register `r`.
    pub open spec fn with_flag(self, r: u16) -> VmState {
        VmState { cond: flag_for(self.regs[r as int]), ..self }
    }

    pub open spec fn push_out(self, bytes: Seq<u8>) -> VmState {
        VmState { out: self.out + bytes, ..self }
    }
}

/// A memory read with the keyboard side effect. Reading KBSR polls the key
/// queue: with a key waiting, KBSR becomes 0x8000 and KBDR the key; with
/// none, KBSR is cleared. Every other address reads its stored word.
pub open spec fn mmio_read_spec(s: VmState, addr: u16) -> (VmState, u16) {
    if addr == MR_KBSR {
        if s.keys.len() > 0 {
            let s1 = VmState {
                mem: s.mem.update(MR_KBSR as int, 0x8000).update(MR_KBDR as int, s.keys[0] as u16),
                keys: s.keys.skip(1),
                ..s
            };
            (s1, 0x8000)
        } else {
            (VmState { mem: s.mem.update(MR_KBSR as int, 0), ..s }, 0)
        }
    } else {
        (s, s.mem[addr as int])
    }
}

/// ADD: the destination gets SR1 plus either the sign-extended immediate or
/// SR2, wrapping mod 2^16; the condition code follows the result.
pub open spec fn add_spec(s: VmState, w: u16) -> VmState {
    let v = if imm_flag_of(w) {
        wadd(s.regs[sr1_of(w) as int], imm5_of(w))
    } else {
        wadd(s.regs[sr1_of(w) as int], s.regs[sr2_of(w) as int])
    };
    s.with_reg(dr_of(w), v).with_flag(dr_of(w))
}

/// AND: as ADD, with bitwise conjunction in place of addition.
pub open spec fn and_spec(s: VmState, w: u16) -> VmState {
    let v = if imm_flag_of(w) {
        s.regs[sr1_of(w) as int] & imm5_of(w)
    } else {
        s.regs[sr1_of(w) as int] & s.regs[sr2_of(w) as int]
    };
    s.with_reg(dr_of(w), v).with_flag(dr_of(w))
}

/// NOT: bitwise complement of SR1.
pub open spec fn not_spec(s: VmState, w: u16) -> VmState {
    s.with_reg(dr_of(w), !s.regs[sr1_of(w) as int]).with_flag(dr_of(w))
}

/// BR: the three mask bits name any subset of {N, Z, P}; the branch is
/// taken exactly when the mask covers the current condition code.
pub open spec fn br_spec(s: VmState, w: u16) -> VmState {
    if dr_of(w) & s.cond != 0 {
        s.with_pc(wadd(s.pc, off9_of(w)))
    } else {
        s
    }
}

/// JMP: the PC becomes SR1 (RET when SR1 is R7).
pub open spec fn jmp_spec(s: VmState, w: u16) -> VmState {
    s.with_pc(s.regs[sr1_of(w) as int])
}

/// JSR/JSRR: R7 takes the return address first; then the PC moves by the
/// long offset (JSR) or to SR1 as read after the R7 write (JSRR).
pub open spec fn jsr_spec(s: VmState, w: u16) -> VmState {
    let s7 = s.with_reg(7, s.pc);
    if long_flag_of(w) {
        s7.with_pc(wadd(s.pc, off11_of(w)))
    } else {
        s7.with_pc(s7.regs[sr1_of(w) as int])
    }
}

/// LD: the destination gets the word at PC plus offset, through the
/// keyboard side effect; the condition code follows.
pub open spec fn ld_spec(s: VmState, w: u16) -> VmState {
    let r = mmio_read_spec(s, wadd(s.pc, off9_of(w)));
    r.0.with_reg(dr_of(w), r.1).with_flag(dr_of(w))
}

/// LDI: the word at PC plus offset names the address to load from; both
/// reads carry the keyboard side effect.
pub open spec fn ldi_spec(s: VmState, w: u16) -> VmState {
    let r1 = mmio_read_spec(s, wadd(s.pc, off9_of(w)));
    let r2 = mmio_read_spec(r1.0, r1.1);
    r2.0.with_reg(dr_of(w), r2.1).with_flag(dr_of(w))
}

/// LDR: the destination gets the word at SR1 plus the 6-bit offset.
pub open spec fn ldr_spec(s: VmState, w: u16) -> VmState {
    let r = mmio_read_spec(s, wadd(s.regs[sr1_of(w) as int], off6_of(w)));
    r.0.with_reg(dr_of(w), r.1).with_flag(dr_of(w))
}

/// LEA: the destination gets the effective address itself, no memory read.
pub open spec fn lea_spec(s: VmState, w: u16) -> VmState {
    s.with_reg(dr_of(w), wadd(s.pc, off9_of(w))).with_flag(dr_of(w))
}

/// ST: the word of the register named by the DR field goes to PC plus
/// offset. The condition code is untouched.
pub open spec fn st_spec(s: VmState, w: u16) -> VmState {
    s.with_mem(wadd(s.pc, off9_of(w)), s.regs[dr_of(w) as int])
}

/// STI: the word at PC plus offset names the target address; reading it
/// carries the keyboard side effect.
pub open spec fn sti_spec(s: VmState, w: u16) -> VmState {
    let r = mmio_read_spec(s, wadd(s.pc, off9_of(w)));
    r.0.with_mem(r.1, r.0.regs[dr_of(w) as int])
}

/// STR: the register goes to SR1 plus the 6-bit offset.
pub open spec fn str_spec(s: VmState, w: u16) -> VmState {
    s.with_mem(wadd(s.regs[sr1_of(w) as int], off6_of(w)), s.regs[dr_of(w) as int])
}

/// The bytes PUTS emits: the low byte of each word from `addr` up to but
/// excluding the first zero word. The budget bounds the walk to one pass
/// over memory, so a missing terminator ends the string after every cell.
pub open spec fn puts_bytes(mem: Seq<u16>, addr: u16, budget: nat) -> Seq<u8>
    decreases budget,
{
    if budget == 0 {
        Seq::empty()
    } else if mem[addr as int] == 0 {
        Seq::empty()
    } else {
        seq![mem[addr as int] as u8] + puts_bytes(mem, wadd(addr, 1), (budget - 1) as nat)
    }
}

/// The bytes PUTSP emits: for each word up to the first zero word, the low
/// byte and then, when it is not zero, the high byte.
pub open spec fn putsp_bytes(mem: Seq<u16>, addr: u16, budget: nat) -> Seq<u8>
    decreases budget,
{
    if budget == 0 {
        Seq::empty()
    } else if mem[addr as int] == 0 {
        Seq::empty()
    } else {
        let w = mem[addr as int];
        let pair = if w >> 8 == 0 {
            seq![w as u8]
        } else {
            seq![w as u8, (w >> 8) as u8]
        };
        pair + putsp_bytes(mem, wadd(addr, 1), (budget - 1) as nat)
    }
}

/// The halt notice, as bytes: "HALT detected" and a newline.
pub open spec fn halt_notice() -> Seq<u8> {
    seq![0x48u8, 0x41, 0x4C, 0x54, 0x20, 0x64, 0x65, 0x74, 0x65, 0x63, 0x74, 0x65, 0x64, 0x0A]
}

/// The prompt the IN trap prints: "Enter a character : ".
pub open spec fn in_prompt() -> Seq<u8> {
    seq![
        0x45u8, 0x6E, 0x74, 0x65, 0x72, 0x20, 0x61, 0x20, 0x63, 0x68, 0x61, 0x72, 0x61, 0x63,
        0x74, 0x65, 0x72, 0x20, 0x3A, 0x20,
    ]
}

/// TRAP: R7 takes the return address, then the vector picks the routine.
/// GETC and IN consume the head of the key queue (the caller of this
/// function guarantees one is there); IN prompts and echoes; the three
/// output routines append bytes; HALT appends its notice and stops.
/// The string walks of PUTS and PUTSP read memory plainly, with no
/// keyboard side effect: only a load addressed at KBSR polls the queue.
pub open spec fn trap_spec(s: VmState, w: u16) -> (VmState, Status) {
    let v = trapvect_of(w);
    let s7 = s.with_reg(7, s.pc);
    if v == TRAP_GETC {
        let k = s7.keys[0];
        let s2 = VmState { keys: s7.keys.skip(1), ..s7 }.with_reg(0, k as u16).with_flag(0);
        (s2, Status::Running)
    } else if v == TRAP_OUT {
        (s7.push_out(seq![s7.regs[0] as u8]), Status::Running)
    } else if v == TRAP_PUTS {
        (s7.push_out(puts_bytes(s7.mem, s7.regs[0], MEMORY_SIZE as nat)), Status::Running)
    } else if v == TRAP_IN {
        let k = s7.keys[0];
        let s2 = VmState { keys: s7.keys.skip(1), ..s7 }
            .push_out(in_prompt() + seq![k])
            .with_reg(0, k as u16)
            .with_flag(0);
        (s2, Status::Running)
    } else if v == TRAP_PUTSP {
        (s7.push_out(putsp_bytes(s7.mem, s7.regs[0], MEMORY_SIZE as nat)), Status::Running)
    } else if v == TRAP_HALT {
        (s7.push_out(halt_notice()), Status::Halted)
    } else {
        (s, Status::Fatal(VmError::UnknownTrap))
    }
}

/// Routes an already-fetched instruction to its opcode's meaning. `s` is
/// the state with the PC already moved past the instruction.
pub open spec fn dispatch_spec(s: VmState, w: u16) -> (VmState, Status) {
    let op = opcode_of(w);
    if op == 0 {
        (br_spec(s, w), Status::Running)
    } else if op == 1 {
        (add_spec(s, w), Status::Running)
    } else if op == 2 {
        (ld_spec(s, w), Status::Running)
    } else if op == 3 {
        (st_spec(s, w), Status::Running)
    } else if op == 4 {
        (jsr_spec(s, w), Status::Running)
    } else if op == 5 {
        (and_spec(s, w), Status::Running)
    } else if op == 6 {
        (ldr_spec(s, w), Status::Running)
    } else if op == 7 {
        (str_spec(s, w), Status::Running)
    } else if op == 8 {
        (s, Status::Fatal(VmError::PrivilegedOpcode))
    } else if op == 9 {
        (not_spec(s, w), Status::Running)
    } else if op == 10 {
        (ldi_spec(s, w), Status::Running)
    } else if op == 11 {
        (sti_spec(s, w), Status::Running)
    } else if op == 12 {
        (jmp_spec(s, w), Status::Running)
    } else if op == 13 {
        (s, Status::Fatal(VmError::ReservedOpcode))
    } else if op == 14 {
        (lea_spec(s, w), Status::Running)
    } else {
        trap_spec(s, w)
    }
}

/// One fetch-decode-execute step. The fetch itself goes through the
/// keyboard side effect; a blocking console trap with an empty key queue
/// stops before the PC moves, so the same step can be retried once the
/// host queues a key.
pub open spec fn step_spec(s: VmState) -> (VmState, Status) {
    let f = mmio_read_spec(s, s.pc);
    let s1 = f.0;
    let w = f.1;
    if opcode_of(w) == 15 && (trapvect_of(w) == TRAP_GETC || trapvect_of(w) == TRAP_IN)
        && s1.keys.len() == 0 {
        (s1, Status::WantsKey)
    } else {
        dispatch_spec(s1.with_pc(wadd(s.pc, 1)), w)
    }
}

/// A 16-bit word read big-endian from two image bytes.
pub open spec fn be_word(hi: u8, lo: u8) -> u16 {
    ((hi as u16) << 8) | (lo as u16)
}

/// Memory after an image tail is stored word by word from `addr` on,
/// big-endian, wrapping at the top of the address space. A dangling odd
/// byte never reaches this function: the loader rejects it first.
pub open spec fn load_words(mem: Seq<u16>, addr: u16, img: Seq<u8>) -> Seq<u16>
    decreases img.len(),
{
    if img.len() < 2 {
        mem
    } else {
        load_words(mem.update(addr as int, be_word(img[0], img[1])), wadd(addr, 1), img.skip(2))
    }
}

/// `n` steps of the machine, stopping early at the first step that does
/// not report `Running`.
pub open spec fn run_spec(s: VmState, n: nat) -> (VmState, Status)
    decreases n,
{
    if n == 0 {
        (s, Status::Running)
    } else {
        let prev = run_spec(s, (n - 1) as nat);
        if prev.1 != Status::Running {
            prev
        } else {
            step_spec(prev.0)
        }
    }
}

} // verus!
