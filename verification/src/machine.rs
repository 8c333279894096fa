//! The executable LC-3 machine, proved to follow the transition model in
//! `semantics` step for step.
//!
//! The machine performs no host I/O of its own. Console input arrives as
//! key bytes queued with `push_key`; console output collects in a byte
//! buffer drained with `take_output`. A host program wraps `execute` in a
//! loop, writing the output bytes to its terminal and reading a key
//! whenever the machine reports `WantsKey`.

use vstd::prelude::*;
use crate::decode::{lemma_fields_bounded, sign_extend};
use crate::semantics::{
    be_word, halt_notice, in_prompt, load_words, mmio_read_spec, puts_bytes,
    putsp_bytes, run_spec, step_spec, trap_spec, wadd, Status, VmError, VmState, FL_NEG, FL_POS,
    FL_ZRO, MEMORY_SIZE, MR_KBSR, MR_KBDR, PC_START, TRAP_GETC, TRAP_HALT, TRAP_IN, TRAP_OUT,
    TRAP_PUTS, TRAP_PUTSP,
};

verus! {

/// The machine: 65,536 words of memory, eight general-purpose registers,
/// the program counter, the condition code, and the two console-side byte
/// queues.
pub struct LC3VM {
    memory: Vec<u16>,
    reg: Vec<u16>,
    pc: u16,
    cond: u16,
    keys: Vec<u8>,
    out: Vec<u8>,
}

impl View for LC3VM {
    type V = VmState;

    closed spec fn view(&self) -> VmState {
        VmState {
            mem: self.memory@,
            regs: self.reg@,
            pc: self.pc,
            cond: self.cond,
            keys: self.keys@,
            out: self.out@,
        }
    }
}

impl LC3VM {
    /// The machine's representation matches the model's shape invariant.
    pub open spec fn wf(&self) -> bool {
        self@.wf()
    }

    /// A machine as it powers on: zeroed memory and registers, the PC at
    /// the conventional origin 0x3000, the condition code Z.
    pub fn new() -> (vm: LC3VM)
        ensures
            vm.wf(),
            vm@ == VmState::initial(),
    {
        let mut memory: Vec<u16> = Vec::new();
        while memory.len() < MEMORY_SIZE
            invariant
                memory@.len() <= MEMORY_SIZE,
                forall|i: int| 0 <= i < memory@.len() ==> memory@[i] == 0u16,
            decreases MEMORY_SIZE - memory@.len(),
        {
            memory.push(0);
        }
        let mut reg: Vec<u16> = Vec::new();
        while reg.len() < 8
            invariant
                reg@.len() <= 8,
                forall|i: int| 0 <= i < reg@.len() ==> reg@[i] == 0u16,
            decreases 8 - reg@.len(),
        {
            reg.push(0);
        }
        let vm = LC3VM {
            memory,
            reg,
            pc: PC_START,
            cond: FL_ZRO,
            keys: Vec::new(),
            out: Vec::new(),
        };
        proof {
            assert(vm@.mem =~= VmState::initial().mem);
            assert(vm@.regs =~= VmState::initial().regs);
            assert(vm@.keys =~= VmState::initial().keys);
            assert(vm@.out =~= VmState::initial().out);
            assert(vm@ =~= VmState::initial());
        }
        vm
    }

    /// The value of general-purpose register `reg`.
    pub fn register(&self, reg: u16) -> (v: u16)
        requires
            self.wf(),
            reg < 8,
        ensures
            v == self@.regs[reg as int],
    {
        self.reg[reg as usize]
    }

    /// Writes general-purpose register `reg`.
    pub fn write_reg(&mut self, reg: u16, val: u16)
        requires
            old(self).wf(),
            reg < 8,
        ensures
            final(self).wf(),
            final(self)@ == old(self)@.with_reg(reg, val),
    {
        self.reg.set(reg as usize, val);
    }

    /// The program counter.
    pub fn pc(&self) -> (p: u16)
        ensures
            p == self@.pc,
    {
        self.pc
    }

    /// Sets the program counter.
    pub fn set_pc(&mut self, val: u16)
        requires
            old(self).wf(),
        ensures
            final(self).wf(),
            final(self)@ == old(self)@.with_pc(val),
    {
        self.pc = val;
    }

    /// Moves the program counter forward by `n`, wrapping mod 2^16.
    pub fn inc_pc(&mut self, n: u16)
        requires
            old(self).wf(),
        ensures
            final(self).wf(),
            final(self)@ == old(self)@.with_pc(wadd(old(self)@.pc, n)),
    {
        self.pc = self.pc.wrapping_add(n);
    }

    /// The condition code: exactly one of N, Z, P.
    pub fn cond(&self) -> (c: u16)
        ensures
            c == self@.cond,
    {
        self.cond
    }

    /// A memory read with the keyboard side effect: reading KBSR polls the
    /// key queue and refreshes KBSR and KBDR before the cell is read.
    pub fn read_address(&mut self, address: u16) -> (w: u16)
        requires
            old(self).wf(),
        ensures
            final(self).wf(),
            final(self)@ == mmio_read_spec(old(self)@, address).0,
            w == mmio_read_spec(old(self)@, address).1,
    {
        if address == MR_KBSR {
            if self.keys.len() > 0 {
                let k = self.keys.remove(0);
                self.memory.set(MR_KBSR as usize, 0x8000);
                self.memory.set(MR_KBDR as usize, k as u16);
                proof {
                    assert(self@.keys =~= old(self)@.keys.skip(1));
                }
            } else {
                self.memory.set(MR_KBSR as usize, 0);
            }
        }
        self.memory[address as usize]
    }

    /// Stores a word at an address. Writes have no keyboard side effect.
    pub fn write_address(&mut self, address: u16, val: u16)
        requires
            old(self).wf(),
        ensures
            final(self).wf(),
            final(self)@ == old(self)@.with_mem(address, val),
    {
        self.memory.set(address as usize, val);
    }

    /// Sets the condition code from the current value of register `reg`.
    pub fn update_flag(&mut self, reg: u16)
        requires
            old(self).wf(),
            reg < 8,
        ensures
            final(self).wf(),
            final(self)@ == old(self)@.with_flag(reg),
    {
        let v = self.reg[reg as usize];
        proof {
            assert(v >> 15 != 0 <==> v >= 0x8000) by (bit_vector);
        }
        if v == 0 {
            self.cond = FL_ZRO;
        } else if v >> 15 != 0 {
            self.cond = FL_NEG;
        } else {
            self.cond = FL_POS;
        }
    }

    /// Queues one key byte from the host console.
    pub fn push_key(&mut self, key: u8)
        requires
            old(self).wf(),
        ensures
            final(self).wf(),
            final(self)@ == (VmState { keys: old(self)@.keys.push(key), ..old(self)@ }),
    {
        self.keys.push(key);
    }

    /// ADD: the destination gets SR1 plus either the sign-extended 5-bit
    /// immediate or SR2, wrapping mod 2^16; the condition code follows.
    pub fn add(&mut self, ins: u16)
        requires
            old(self).wf(),
        ensures
            final(self).wf(),
            final(self)@ == crate::semantics::add_spec(old(self)@, ins),
    {
        proof {
            lemma_fields_bounded(ins);
        }
        let r0 = (ins >> 9) & 0x7;
        let r1 = (ins >> 6) & 0x7;
        let imm_flag = (ins >> 5) & 0x1;

        if imm_flag != 0 {
            let imm5 = sign_extend(ins & 0x1F, 5);
            let v = self.register(r1).wrapping_add(imm5);
            self.write_reg(r0, v);
        } else {
            let r2 = ins & 0x7;
            let v = self.register(r1).wrapping_add(self.register(r2));
            self.write_reg(r0, v);
        }
        self.update_flag(r0);
    }

    /// AND: as ADD, with bitwise conjunction in place of addition.
    pub fn and(&mut self, ins: u16)
        requires
            old(self).wf(),
        ensures
            final(self).wf(),
            final(self)@ == crate::semantics::and_spec(old(self)@, ins),
    {
        proof {
            lemma_fields_bounded(ins);
        }
        let r0 = (ins >> 9) & 0x7;
        let r1 = (ins >> 6) & 0x7;
        let imm_flag = (ins >> 5) & 0x1;

        if imm_flag != 0 {
            let imm5 = sign_extend(ins & 0x1F, 5);
            let v = self.register(r1) & imm5;
            self.write_reg(r0, v);
        } else {
            let r2 = ins & 0x7;
            let v = self.register(r1) & self.register(r2);
            self.write_reg(r0, v);
        }
        self.update_flag(r0);
    }

    /// NOT: the destination gets the bitwise complement of SR1.
    pub fn not(&mut self, ins: u16)
        requires
            old(self).wf(),
        ensures
            final(self).wf(),
            final(self)@ == crate::semantics::not_spec(old(self)@, ins),
    {
        proof {
            lemma_fields_bounded(ins);
        }
        let r0 = (ins >> 9) & 0x7;
        let r1 = (ins >> 6) & 0x7;
        let v = !self.register(r1);
        self.write_reg(r0, v);
        self.update_flag(r0);
    }

    /// BR: branches by the 9-bit offset when the instruction's N/Z/P mask
    /// covers the current condition code.
    pub fn br(&mut self, ins: u16)
        requires
            old(self).wf(),
        ensures
            final(self).wf(),
            final(self)@ == crate::semantics::br_spec(old(self)@, ins),
    {
        let pc_offset = sign_extend(ins & 0x1FF, 9);
        let cond_flag = (ins >> 9) & 0x7;
        if cond_flag & self.cond() != 0 {
            self.inc_pc(pc_offset);
        }
    }

    /// JMP: the PC becomes SR1 (RET when SR1 is R7).
    pub fn jmp(&mut self, ins: u16)
        requires
            old(self).wf(),
        ensures
            final(self).wf(),
            final(self)@ == crate::semantics::jmp_spec(old(self)@, ins),
    {
        proof {
            lemma_fields_bounded(ins);
        }
        let r1 = (ins >> 6) & 0x7;
        let t = self.register(r1);
        self.set_pc(t);
    }

    /// JSR/JSRR: R7 takes the return address first; then the PC moves by
    /// the 11-bit offset, or to SR1 as read after the R7 write.
    pub fn jsr(&mut self, ins: u16)
        requires
            old(self).wf(),
        ensures
            final(self).wf(),
            final(self)@ == crate::semantics::jsr_spec(old(self)@, ins),
    {
        proof {
            lemma_fields_bounded(ins);
        }
        let long_flag = (ins >> 11) & 0x1;
        let ret = self.pc();
        self.write_reg(7, ret);

        if long_flag != 0 {
            let long_pc_offset = sign_extend(ins & 0x7FF, 11);
            self.inc_pc(long_pc_offset);
        } else {
            let r1 = (ins >> 6) & 0x7;
            let t = self.register(r1);
            self.set_pc(t);
        }
    }

    /// LD: the destination gets the word at PC plus the 9-bit offset.
    pub fn ld(&mut self, ins: u16)
        requires
            old(self).wf(),
        ensures
            final(self).wf(),
            final(self)@ == crate::semantics::ld_spec(old(self)@, ins),
    {
        proof {
            lemma_fields_bounded(ins);
        }
        let r0 = (ins >> 9) & 0x7;
        let pc_offset = sign_extend(ins & 0x1FF, 9);
        let addr = self.pc().wrapping_add(pc_offset);
        let val = self.read_address(addr);
        self.write_reg(r0, val);
        self.update_flag(r0);
    }

    /// LDI: the word at PC plus offset names the address to load from.
    pub fn ldi(&mut self, ins: u16)
        requires
            old(self).wf(),
        ensures
            final(self).wf(),
            final(self)@ == crate::semantics::ldi_spec(old(self)@, ins),
    {
        proof {
            lemma_fields_bounded(ins);
        }
        let r0 = (ins >> 9) & 0x7;
        let pc_offset = sign_extend(ins & 0x1FF, 9);
        let first = self.pc().wrapping_add(pc_offset);
        let address = self.read_address(first);
        let val = self.read_address(address);
        self.write_reg(r0, val);
        self.update_flag(r0);
    }

    /// LDR: the destination gets the word at SR1 plus the 6-bit offset.
    pub fn ldr(&mut self, ins: u16)
        requires
            old(self).wf(),
        ensures
            final(self).wf(),
            final(self)@ == crate::semantics::ldr_spec(old(self)@, ins),
    {
        proof {
            lemma_fields_bounded(ins);
        }
        let r0 = (ins >> 9) & 0x7;
        let r1 = (ins >> 6) & 0x7;
        let offset = sign_extend(ins & 0x3F, 6);
        let addr = self.register(r1).wrapping_add(offset);
        let val = self.read_address(addr);
        self.write_reg(r0, val);
        self.update_flag(r0);
    }

    /// LEA: the destination gets the effective address itself.
    pub fn lea(&mut self, ins: u16)
        requires
            old(self).wf(),
        ensures
            final(self).wf(),
            final(self)@ == crate::semantics::lea_spec(old(self)@, ins),
    {
        proof {
            lemma_fields_bounded(ins);
        }
        let r0 = (ins >> 9) & 0x7;
        let pc_offset = sign_extend(ins & 0x1FF, 9);
        let v = self.pc().wrapping_add(pc_offset);
        self.write_reg(r0, v);
        self.update_flag(r0);
    }

    /// ST: the register named by the DR field goes to PC plus offset.
    pub fn st(&mut self, ins: u16)
        requires
            old(self).wf(),
        ensures
            final(self).wf(),
            final(self)@ == crate::semantics::st_spec(old(self)@, ins),
    {
        proof {
            lemma_fields_bounded(ins);
        }
        let r0 = (ins >> 9) & 0x7;
        let pc_offset = sign_extend(ins & 0x1FF, 9);
        let addr = self.pc().wrapping_add(pc_offset);
        let v = self.register(r0);
        self.write_address(addr, v);
    }

    /// STI: the word at PC plus offset names the target address.
    pub fn sti(&mut self, ins: u16)
        requires
            old(self).wf(),
        ensures
            final(self).wf(),
            final(self)@ == crate::semantics::sti_spec(old(self)@, ins),
    {
        proof {
            lemma_fields_bounded(ins);
        }
        let r0 = (ins >> 9) & 0x7;
        let pc_offset = sign_extend(ins & 0x1FF, 9);
        let probe = self.pc().wrapping_add(pc_offset);
        let target = self.read_address(probe);
        let v = self.register(r0);
        self.write_address(target, v);
    }

    /// STR: the register goes to SR1 plus the 6-bit offset.
    pub fn str(&mut self, ins: u16)
        requires
            old(self).wf(),
        ensures
            final(self).wf(),
            final(self)@ == crate::semantics::str_spec(old(self)@, ins),
    {
        proof {
            lemma_fields_bounded(ins);
        }
        let r0 = (ins >> 9) & 0x7;
        let r1 = (ins >> 6) & 0x7;
        let offset = sign_extend(ins & 0x3F, 6);
        let addr = self.register(r1).wrapping_add(offset);
        let v = self.register(r0);
        self.write_address(addr, v);
    }

    /// Appends the IN trap's prompt to the console output.
    fn emit_prompt(&mut self)
        requires
            old(self).wf(),
        ensures
            final(self).wf(),
            final(self)@ == old(self)@.push_out(in_prompt()),
    {
        self.out.push(0x45);
        self.out.push(0x6E);
        self.out.push(0x74);
        self.out.push(0x65);
        self.out.push(0x72);
        self.out.push(0x20);
        self.out.push(0x61);
        self.out.push(0x20);
        self.out.push(0x63);
        self.out.push(0x68);
        self.out.push(0x61);
        self.out.push(0x72);
        self.out.push(0x61);
        self.out.push(0x63);
        self.out.push(0x74);
        self.out.push(0x65);
        self.out.push(0x72);
        self.out.push(0x20);
        self.out.push(0x3A);
        self.out.push(0x20);
        proof {
            assert(self@.out =~= old(self)@.out + in_prompt());
            assert(self@ =~= old(self)@.push_out(in_prompt()));
        }
    }

    /// Appends the halt notice to the console output.
    fn emit_halt_notice(&mut self)
        requires
            old(self).wf(),
        ensures
            final(self).wf(),
            final(self)@ == old(self)@.push_out(halt_notice()),
    {
        self.out.push(0x48);
        self.out.push(0x41);
        self.out.push(0x4C);
        self.out.push(0x54);
        self.out.push(0x20);
        self.out.push(0x64);
        self.out.push(0x65);
        self.out.push(0x74);
        self.out.push(0x65);
        self.out.push(0x63);
        self.out.push(0x74);
        self.out.push(0x65);
        self.out.push(0x64);
        self.out.push(0x0A);
        proof {
            assert(self@.out =~= old(self)@.out + halt_notice());
            assert(self@ =~= old(self)@.push_out(halt_notice()));
        }
    }

    /// TRAP: R7 takes the return address, then the low byte of the
    /// instruction picks the routine. The caller guarantees a queued key
    /// for the blocking routines GETC and IN.
    pub fn trap(&mut self, ins: u16) -> (st: Status)
        requires
            old(self).wf(),
            (crate::decode::trapvect_of(ins) == TRAP_GETC || crate::decode::trapvect_of(ins)
                == TRAP_IN) ==> old(self)@.keys.len() > 0,
        ensures
            final(self).wf(),
            final(self)@ == trap_spec(old(self)@, ins).0,
            st == trap_spec(old(self)@, ins).1,
    {
        let vect = ins & 0xFF;
        if vect == TRAP_GETC {
            let ret = self.pc();
            self.write_reg(7, ret);
            let k = self.keys.remove(0);
            proof {
                assert(self@.keys =~= old(self)@.keys.skip(1));
            }
            self.write_reg(0, k as u16);
            self.update_flag(0);
            proof {
                assert(self@ =~= trap_spec(old(self)@, ins).0);
            }
            Status::Running
        } else if vect == TRAP_OUT {
            let ret = self.pc();
            self.write_reg(7, ret);
            let c = self.register(0) as u8;
            self.out.push(c);
            proof {
                assert(self@ =~= trap_spec(old(self)@, ins).0);
            }
            Status::Running
        } else if vect == TRAP_PUTS {
            let ret = self.pc();
            self.write_reg(7, ret);
            let ghost s7 = self@;
            let start = self.register(0);
            let mut buf: Vec<u8> = Vec::new();
            let mut addr = start;
            let mut count: usize = 0;
            while count < MEMORY_SIZE
                invariant
                    self@ == s7,
                    self.wf(),
                    count <= MEMORY_SIZE,
                    buf@ + puts_bytes(s7.mem, addr, (MEMORY_SIZE - count) as nat) == puts_bytes(
                        s7.mem,
                        start,
                        MEMORY_SIZE as nat,
                    ),
                ensures
                    self@ == s7,
                    self.wf(),
                    buf@ == puts_bytes(s7.mem, start, MEMORY_SIZE as nat),
                decreases MEMORY_SIZE - count,
            {
                let ghost buf0 = buf@;
                let ghost addr0 = addr;
                let ghost b0 = (MEMORY_SIZE - count) as nat;
                let w = self.memory[addr as usize];
                if w == 0 {
                    proof {
                        assert(buf@ + puts_bytes(s7.mem, addr, b0) =~= buf@);
                    }
                    break;
                }
                buf.push(w as u8);
                addr = addr.wrapping_add(1);
                count += 1;
                proof {
                    assert(buf@ =~= buf0 + seq![s7.mem[addr0 as int] as u8]);
                    assert(buf@ + puts_bytes(s7.mem, addr, (MEMORY_SIZE - count) as nat) =~= buf0
                        + puts_bytes(s7.mem, addr0, b0));
                }
            }
            self.out.append(&mut buf);
            proof {
                assert(self@ =~= trap_spec(old(self)@, ins).0);
            }
            Status::Running
        } else if vect == TRAP_IN {
            let ret = self.pc();
            self.write_reg(7, ret);
            self.emit_prompt();
            let k = self.keys.remove(0);
            proof {
                assert(self@.keys =~= old(self)@.keys.skip(1));
            }
            self.out.push(k);
            self.write_reg(0, k as u16);
            self.update_flag(0);
            proof {
                assert(self@ =~= trap_spec(old(self)@, ins).0);
            }
            Status::Running
        } else if vect == TRAP_PUTSP {
            let ret = self.pc();
            self.write_reg(7, ret);
            let ghost s7 = self@;
            let start = self.register(0);
            let mut buf: Vec<u8> = Vec::new();
            let mut addr = start;
            let mut count: usize = 0;
            while count < MEMORY_SIZE
                invariant
                    self@ == s7,
                    self.wf(),
                    count <= MEMORY_SIZE,
                    buf@ + putsp_bytes(s7.mem, addr, (MEMORY_SIZE - count) as nat) == putsp_bytes(
                        s7.mem,
                        start,
                        MEMORY_SIZE as nat,
                    ),
                ensures
                    self@ == s7,
                    self.wf(),
                    buf@ == putsp_bytes(s7.mem, start, MEMORY_SIZE as nat),
                decreases MEMORY_SIZE - count,
            {
                let ghost buf0 = buf@;
                let ghost addr0 = addr;
                let ghost b0 = (MEMORY_SIZE - count) as nat;
                let w = self.memory[addr as usize];
                if w == 0 {
                    proof {
                        assert(buf@ + putsp_bytes(s7.mem, addr, b0) =~= buf@);
                    }
                    break;
                }
                buf.push(w as u8);
                if (w >> 8) != 0 {
                    buf.push((w >> 8) as u8);
                    proof {
                        assert(buf@ =~= buf0 + seq![
                            s7.mem[addr0 as int] as u8,
                            (s7.mem[addr0 as int] >> 8) as u8,
                        ]);
                    }
                } else {
                    proof {
                        assert(buf@ =~= buf0 + seq![s7.mem[addr0 as int] as u8]);
                    }
                }
                addr = addr.wrapping_add(1);
                count += 1;
                proof {
                    assert(buf@ + putsp_bytes(s7.mem, addr, (MEMORY_SIZE - count) as nat) =~= buf0
                        + putsp_bytes(s7.mem, addr0, b0));
                }
            }
            self.out.append(&mut buf);
            proof {
                assert(self@ =~= trap_spec(old(self)@, ins).0);
            }
            Status::Running
        } else if vect == TRAP_HALT {
            let ret = self.pc();
            self.write_reg(7, ret);
            self.emit_halt_notice();
            proof {
                assert(self@ =~= trap_spec(old(self)@, ins).0);
            }
            Status::Halted
        } else {
            Status::Fatal(VmError::UnknownTrap)
        }
    }

    /// One fetch-decode-execute step: reads the word at PC through the
    /// keyboard side effect, moves PC past it, and runs the opcode's
    /// handler. A blocking console trap with no queued key reports
    /// `WantsKey` before PC moves, so the host can queue a key and retry.
    pub fn step(&mut self) -> (st: Status)
        requires
            old(self).wf(),
        ensures
            final(self).wf(),
            final(self)@ == step_spec(old(self)@).0,
            st == step_spec(old(self)@).1,
    {
        let p = self.pc();
        let ins = self.read_address(p);
        let opcode = ins >> 12;
        proof {
            lemma_fields_bounded(ins);
        }
        if opcode == 15 && (ins & 0xFF == TRAP_GETC || ins & 0xFF == TRAP_IN) && self.keys.len()
            == 0 {
            return Status::WantsKey;
        }
        self.inc_pc(1);
        if opcode == 0 {
            self.br(ins);
            Status::Running
        } else if opcode == 1 {
            self.add(ins);
            Status::Running
        } else if opcode == 2 {
            self.ld(ins);
            Status::Running
        } else if opcode == 3 {
            self.st(ins);
            Status::Running
        } else if opcode == 4 {
            self.jsr(ins);
            Status::Running
        } else if opcode == 5 {
            self.and(ins);
            Status::Running
        } else if opcode == 6 {
            self.ldr(ins);
            Status::Running
        } else if opcode == 7 {
            self.str(ins);
            Status::Running
        } else if opcode == 8 {
            Status::Fatal(VmError::PrivilegedOpcode)
        } else if opcode == 9 {
            self.not(ins);
            Status::Running
        } else if opcode == 10 {
            self.ldi(ins);
            Status::Running
        } else if opcode == 11 {
            self.sti(ins);
            Status::Running
        } else if opcode == 12 {
            self.jmp(ins);
            Status::Running
        } else if opcode == 13 {
            Status::Fatal(VmError::ReservedOpcode)
        } else if opcode == 14 {
            self.lea(ins);
            Status::Running
        } else {
            self.trap(ins)
        }
    }

    /// The dispatch loop: steps the machine until a step stops running,
    /// produces console output for the host to drain, or the fuel bound
    /// runs out. The result and the machine agree with the model after the
    /// fewest steps, within the bound, at which a step stopped running or
    /// new output appeared; `Running` comes back only with new output
    /// pending or the fuel spent.
    pub fn execute(&mut self, fuel: u64) -> (st: Status)
        requires
            old(self).wf(),
        ensures
            final(self).wf(),
            exists|n: nat|
                n <= fuel && #[trigger] run_spec(old(self)@, n) == (final(self)@, st) && (st
                    == Status::Running ==> n == fuel || final(self)@.out.len() > old(
                    self,
                )@.out.len()) && (forall|m: nat|
                    m < n ==> #[trigger] run_spec(old(self)@, m).1 == Status::Running && run_spec(
                        old(self)@,
                        m,
                    ).0.out.len() == old(self)@.out.len()),
    {
        let ghost s0 = self@;
        let out0 = self.out.len();
        let mut i: u64 = 0;
        let mut st = Status::Running;
        while i < fuel
            invariant_except_break
                i <= fuel,
                st == Status::Running,
                run_spec(s0, i as nat) == (self@, Status::Running),
                self@.out.len() == out0,
            invariant
                self.wf(),
                out0 == s0.out.len(),
                forall|m: nat|
                    m < i ==> #[trigger] run_spec(s0, m).1 == Status::Running && run_spec(
                        s0,
                        m,
                    ).0.out.len() == out0,
            ensures
                self.wf(),
                exists|n: nat|
                    n <= fuel && #[trigger] run_spec(s0, n) == (self@, st) && (st
                        == Status::Running ==> n == fuel || self@.out.len() > s0.out.len()) && (
                    forall|m: nat|
                        m < n ==> #[trigger] run_spec(s0, m).1 == Status::Running && run_spec(
                            s0,
                            m,
                        ).0.out.len() == out0),
            decreases fuel - i,
        {
            proof {
                assert(run_spec(s0, i as nat).1 == Status::Running);
            }
            st = self.step();
            proof {
                assert(run_spec(s0, (i + 1) as nat) == (self@, st));
            }
            i = i + 1;
            if !matches!(st, Status::Running) {
                break;
            }
            if self.out.len() > out0 {
                break;
            }
        }
        st
    }

    /// Loads an object image into memory: the first big-endian word is the
    /// origin, and each following word lands at consecutive addresses from
    /// there, wrapping at the top of memory. An image too short to hold an
    /// origin, or one with a dangling final byte, is rejected unchanged.
    pub fn load(&mut self, image: &Vec<u8>) -> (r: Result<(), VmError>)
        requires
            old(self).wf(),
        ensures
            final(self).wf(),
            image@.len() < 2 || image@.len() % 2 != 0 ==> r == Err::<(), VmError>(
                VmError::TruncatedImage,
            ) && final(self)@ == old(self)@,
            image@.len() >= 2 && image@.len() % 2 == 0 ==> r == Ok::<(), VmError>(())
                && final(self)@ == (VmState {
                mem: load_words(old(self)@.mem, be_word(image@[0], image@[1]), image@.skip(2)),
                ..old(self)@
            }),
    {
        if image.len() < 2 || image.len() % 2 != 0 {
            return Err(VmError::TruncatedImage);
        }
        let origin = ((image[0] as u16) << 8) | (image[1] as u16);
        let mut addr = origin;
        let mut i: usize = 2;
        while i < image.len()
            invariant
                self.wf(),
                2 <= i <= image@.len(),
                i % 2 == 0,
                image@.len() % 2 == 0,
                load_words(old(self)@.mem, origin, image@.skip(2)) == load_words(
                    self@.mem,
                    addr,
                    image@.skip(i as int),
                ),
                self@.regs == old(self)@.regs,
                self@.pc == old(self)@.pc,
                self@.cond == old(self)@.cond,
                self@.keys == old(self)@.keys,
                self@.out == old(self)@.out,
            decreases image@.len() - i,
        {
            let ghost mem0 = self@.mem;
            let ghost addr0 = addr;
            let ghost i0 = i as int;
            let w = ((image[i] as u16) << 8) | (image[i + 1] as u16);
            self.write_address(addr, w);
            addr = addr.wrapping_add(1);
            i += 2;
            proof {
                let tail = image@.skip(i0);
                assert(tail.len() >= 2);
                assert(tail[0] == image@[i0] && tail[1] == image@[i0 + 1]);
                assert(tail.skip(2) =~= image@.skip(i0 + 2));
                assert(load_words(mem0, addr0, tail) == load_words(
                    mem0.update(addr0 as int, be_word(tail[0], tail[1])),
                    wadd(addr0, 1),
                    tail.skip(2),
                ));
            }
        }
        proof {
            assert(image@.skip(image@.len() as int).len() == 0);
            assert(self@ =~= (VmState {
                mem: load_words(old(self)@.mem, origin, image@.skip(2)),
                ..old(self)@
            }));
        }
        Ok(())
    }

    /// Hands the accumulated console output to the host and clears it.
    pub fn take_output(&mut self) -> (bytes: Vec<u8>)
        requires
            old(self).wf(),
        ensures
            final(self).wf(),
            bytes@ == old(self)@.out,
            final(self)@ == (VmState { out: Seq::empty(), ..old(self)@ }),
    {
        let mut bytes: Vec<u8> = Vec::new();
        core::mem::swap(&mut bytes, &mut self.out);
        bytes
    }
}

} // verus!
