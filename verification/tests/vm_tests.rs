use lc3_vm::decode::sign_extend;
use lc3_vm::machine::LC3VM;
use lc3_vm::semantics::{Status, VmError};

#[test]
fn test() {
    let vm = LC3VM::new();
    let _ = vm;
}

#[test]
fn new_machine_starts_at_origin() {
    let mut vm = LC3VM::new();
    assert_eq!(vm.pc(), 0x3000);
    assert_eq!(vm.cond(), 2);
    for r in 0..8u16 {
        assert_eq!(vm.register(r), 0);
    }
    assert_eq!(vm.read_address(0x3000), 0);
    assert_eq!(vm.read_address(0xFFFF), 0);
}

#[test]
fn add_immediate_positive() {
    // Origin 0x3000; ADD R1, R1, #1; HALT.
    let image = vec![0x30, 0x00, 0x12, 0x61, 0xF0, 0x25];
    let mut vm = LC3VM::new();
    assert_eq!(vm.load(&image), Ok(()));
    let st = vm.execute(1000);
    assert_eq!(st, Status::Halted);
    assert_eq!(vm.register(1), 1);
    assert_eq!(vm.cond(), 1);
    assert_eq!(vm.take_output(), b"HALT detected\n".to_vec());
}

#[test]
fn add_immediate_negative() {
    // ADD R2, R2, #-1 (imm5 = 0b11111).
    let mut vm = LC3VM::new();
    vm.write_reg(2, 0x0005);
    vm.add(0x14BF);
    assert_eq!(vm.register(2), 0x0004);
    assert_eq!(vm.cond(), 1);

    vm.write_reg(2, 0x0001);
    vm.add(0x14BF);
    assert_eq!(vm.register(2), 0x0000);
    assert_eq!(vm.cond(), 2);
}

#[test]
fn add_wraps_mod_two_to_sixteen() {
    let mut vm = LC3VM::new();
    vm.write_reg(1, 0xFFFF);
    vm.add(0x1261); // ADD R1, R1, #1
    assert_eq!(vm.register(1), 0x0000);
    assert_eq!(vm.cond(), 2);
}

#[test]
fn not_then_add_one_negates() {
    // NOT R3, R3; ADD R3, R3, #1 starting from R3 = 1.
    let mut vm = LC3VM::new();
    vm.write_reg(3, 0x0001);
    vm.not(0x96FF);
    vm.add(0x16E1);
    assert_eq!(vm.register(3), 0xFFFF);
    assert_eq!(vm.cond(), 4);
}

#[test]
fn and_register_and_immediate() {
    let mut vm = LC3VM::new();
    vm.write_reg(1, 0x0F0F);
    vm.write_reg(2, 0x00FF);
    // AND R0, R1, R2.
    vm.and(0x5042);
    assert_eq!(vm.register(0), 0x000F);
    assert_eq!(vm.cond(), 1);
    // AND R0, R1, #0.
    vm.and(0x5060);
    assert_eq!(vm.register(0), 0x0000);
    assert_eq!(vm.cond(), 2);
}

#[test]
fn br_taken_and_not_taken() {
    let mut vm = LC3VM::new();
    vm.write_reg(0, 0);
    vm.update_flag(0); // condition = Z
    vm.set_pc(0x3001);
    vm.br(0x0402); // BRz +2
    assert_eq!(vm.pc(), 0x3003);

    vm.set_pc(0x3001);
    vm.br(0x0802); // BRn +2
    assert_eq!(vm.pc(), 0x3001);
}

#[test]
fn jmp_sets_pc_from_register() {
    let mut vm = LC3VM::new();
    vm.write_reg(3, 0x4242);
    vm.jmp(0xC0C0); // JMP R3
    assert_eq!(vm.pc(), 0x4242);
}

#[test]
fn jsr_saves_return_address() {
    let mut vm = LC3VM::new();
    vm.set_pc(0x3001);
    vm.jsr(0x4802); // JSR +2
    assert_eq!(vm.register(7), 0x3001);
    assert_eq!(vm.pc(), 0x3003);
}

#[test]
fn jsrr_jumps_through_register() {
    let mut vm = LC3VM::new();
    vm.set_pc(0x3001);
    vm.write_reg(3, 0x4000);
    vm.jsr(0x40C0); // JSRR R3
    assert_eq!(vm.register(7), 0x3001);
    assert_eq!(vm.pc(), 0x4000);
}

#[test]
fn jsrr_through_r7_uses_return_address() {
    // R7 is written before the PC moves, so JSRR R7 lands on the
    // instruction after the call.
    let mut vm = LC3VM::new();
    vm.set_pc(0x3001);
    vm.write_reg(7, 0x1234);
    vm.jsr(0x41C0); // JSRR R7
    assert_eq!(vm.register(7), 0x3001);
    assert_eq!(vm.pc(), 0x3001);
}

#[test]
fn ld_reads_pc_relative() {
    let mut vm = LC3VM::new();
    vm.write_address(0x3010, 0x7777);
    vm.set_pc(0x3001);
    vm.ld(0x200F); // LD R0, +0x0F
    assert_eq!(vm.register(0), 0x7777);
    assert_eq!(vm.cond(), 1);
}

#[test]
fn ldi_round_trip() {
    let mut vm = LC3VM::new();
    vm.write_address(0x3050, 0x4000);
    vm.write_address(0x4000, 0xBEEF);
    vm.set_pc(0x3001);
    vm.ldi(0xA04F); // LDI R0, +0x4F
    assert_eq!(vm.register(0), 0xBEEF);
    assert_eq!(vm.cond(), 4);
}

#[test]
fn ldr_reads_register_relative() {
    let mut vm = LC3VM::new();
    vm.write_reg(1, 0x4000);
    vm.write_address(0x3FFF, 0x1234);
    vm.ldr(0x607F); // LDR R0, R1, #-1
    assert_eq!(vm.register(0), 0x1234);
    assert_eq!(vm.cond(), 1);
}

#[test]
fn lea_loads_effective_address() {
    let mut vm = LC3VM::new();
    vm.set_pc(0x3001);
    vm.lea(0xE1FF); // LEA R0, #-1
    assert_eq!(vm.register(0), 0x3000);
    assert_eq!(vm.cond(), 1);
}

#[test]
fn st_writes_pc_relative() {
    let mut vm = LC3VM::new();
    let cond_before = vm.cond();
    vm.write_reg(0, 0xABCD);
    vm.set_pc(0x3001);
    vm.st(0x3001); // ST R0, +1
    assert_eq!(vm.read_address(0x3002), 0xABCD);
    assert_eq!(vm.cond(), cond_before);
}

#[test]
fn sti_writes_through_pointer() {
    let mut vm = LC3VM::new();
    vm.write_reg(0, 0x5555);
    vm.write_address(0x3002, 0x4000);
    vm.set_pc(0x3001);
    vm.sti(0xB001); // STI R0, +1
    assert_eq!(vm.read_address(0x4000), 0x5555);
}

#[test]
fn str_writes_register_relative() {
    let mut vm = LC3VM::new();
    vm.write_reg(0, 0x9999);
    vm.write_reg(1, 0x4000);
    vm.str(0x7041); // STR R0, R1, #1
    assert_eq!(vm.read_address(0x4001), 0x9999);
}

#[test]
fn puts_emits_string_and_returns() {
    let mut vm = LC3VM::new();
    vm.write_reg(0, 0x3100);
    vm.write_address(0x3100, 0x0048);
    vm.write_address(0x3101, 0x0069);
    vm.write_address(0x3102, 0x0000);
    vm.set_pc(0x3001);
    let st = vm.trap(0xF022);
    assert_eq!(st, Status::Running);
    assert_eq!(vm.take_output(), vec![0x48, 0x69]);
    assert_eq!(vm.register(7), 0x3001);
}

#[test]
fn putsp_emits_packed_pairs() {
    let mut vm = LC3VM::new();
    vm.write_reg(0, 0x3200);
    vm.write_address(0x3200, 0x6948); // 'H' low, 'i' high
    vm.write_address(0x3201, 0x0021); // '!' low, zero high
    vm.write_address(0x3202, 0x0000);
    let st = vm.trap(0xF024);
    assert_eq!(st, Status::Running);
    assert_eq!(vm.take_output(), vec![0x48, 0x69, 0x21]);
}

#[test]
fn out_emits_low_byte_and_keeps_cond() {
    let mut vm = LC3VM::new();
    vm.write_reg(0, 0x4921); // low byte '!'
    let cond_before = vm.cond();
    let st = vm.trap(0xF021);
    assert_eq!(st, Status::Running);
    assert_eq!(vm.take_output(), vec![0x21]);
    assert_eq!(vm.cond(), cond_before);
}

#[test]
fn getc_blocks_then_reads_key() {
    let mut vm = LC3VM::new();
    vm.write_address(0x3000, 0xF020); // TRAP GETC
    let st = vm.step();
    assert_eq!(st, Status::WantsKey);
    assert_eq!(vm.pc(), 0x3000);

    vm.push_key(0x41);
    let st = vm.step();
    assert_eq!(st, Status::Running);
    assert_eq!(vm.register(0), 0x41);
    assert_eq!(vm.cond(), 1);
    assert_eq!(vm.register(7), 0x3001);
    assert_eq!(vm.pc(), 0x3001);
    assert_eq!(vm.take_output(), Vec::<u8>::new());
}

#[test]
fn in_trap_prompts_echoes_and_reads() {
    let mut vm = LC3VM::new();
    vm.set_pc(0x3001);
    vm.push_key(0x5A);
    let st = vm.trap(0xF023);
    assert_eq!(st, Status::Running);
    assert_eq!(vm.register(0), 0x5A);
    assert_eq!(vm.take_output(), b"Enter a character : Z".to_vec());
}

#[test]
fn kbsr_poll_delivers_key() {
    let mut vm = LC3VM::new();
    vm.push_key(0x61);
    assert_eq!(vm.read_address(0xFE00), 0x8000);
    assert_eq!(vm.read_address(0xFE02), 0x0061);
}

#[test]
fn kbsr_poll_without_key_clears_status() {
    let mut vm = LC3VM::new();
    vm.write_address(0xFE00, 0x8000);
    assert_eq!(vm.read_address(0xFE00), 0x0000);
}

#[test]
fn rti_is_fatal() {
    let mut vm = LC3VM::new();
    vm.write_address(0x3000, 0x8000);
    assert_eq!(vm.step(), Status::Fatal(VmError::PrivilegedOpcode));
}

#[test]
fn reserved_opcode_is_fatal() {
    let mut vm = LC3VM::new();
    vm.write_address(0x3000, 0xD000);
    assert_eq!(vm.step(), Status::Fatal(VmError::ReservedOpcode));
}

#[test]
fn unknown_trap_vector_is_fatal() {
    let mut vm = LC3VM::new();
    vm.write_address(0x3000, 0xF026);
    assert_eq!(vm.step(), Status::Fatal(VmError::UnknownTrap));
}

#[test]
fn load_rejects_truncated_images() {
    let mut vm = LC3VM::new();
    assert_eq!(vm.load(&vec![0x30]), Err(VmError::TruncatedImage));
    assert_eq!(vm.load(&vec![0x30, 0x00, 0x12]), Err(VmError::TruncatedImage));
    assert_eq!(vm.load(&Vec::new()), Err(VmError::TruncatedImage));
    assert_eq!(vm.pc(), 0x3000);
    assert_eq!(vm.read_address(0x3000), 0);
}

#[test]
fn load_places_words_from_origin() {
    let mut vm = LC3VM::new();
    let image = vec![0x40, 0x00, 0x12, 0x34, 0xAB, 0xCD];
    assert_eq!(vm.load(&image), Ok(()));
    assert_eq!(vm.read_address(0x4000), 0x1234);
    assert_eq!(vm.read_address(0x4001), 0xABCD);
    assert_eq!(vm.read_address(0x4002), 0x0000);
    assert_eq!(vm.pc(), 0x3000);
}

#[test]
fn execute_returns_when_output_appears() {
    let mut vm = LC3VM::new();
    vm.write_reg(0, 0x2A); // '*'
    vm.write_address(0x3000, 0xF021); // TRAP OUT
    vm.write_address(0x3001, 0xF021); // TRAP OUT again
    let st = vm.execute(100);
    assert_eq!(st, Status::Running);
    assert_eq!(vm.take_output(), vec![0x2A]);
    assert_eq!(vm.pc(), 0x3001);
}

#[test]
fn execute_stops_at_fuel_bound() {
    // All-zero memory decodes as BR with an empty mask: never taken, so
    // the PC walks forward one address per step.
    let mut vm = LC3VM::new();
    let st = vm.execute(5);
    assert_eq!(st, Status::Running);
    assert_eq!(vm.pc(), 0x3005);
    assert_eq!(vm.take_output(), Vec::<u8>::new());
}

#[test]
fn execute_echo_program_end_to_end() {
    // Origin 0x3000; GETC; OUT; HALT — read one key, echo it, halt.
    let image = vec![0x30, 0x00, 0xF0, 0x20, 0xF0, 0x21, 0xF0, 0x25];
    let mut vm = LC3VM::new();
    assert_eq!(vm.load(&image), Ok(()));

    let st = vm.execute(100);
    assert_eq!(st, Status::WantsKey);
    assert_eq!(vm.take_output(), Vec::<u8>::new());

    vm.push_key(0x51); // 'Q'
    let st = vm.execute(100);
    assert_eq!(st, Status::Running);
    assert_eq!(vm.take_output(), vec![0x51]);

    let st = vm.execute(100);
    assert_eq!(st, Status::Halted);
    assert_eq!(vm.take_output(), b"HALT detected\n".to_vec());
    assert_eq!(vm.register(0), 0x51);
}

#[test]
fn sign_extend_small_fields() {
    assert_eq!(sign_extend(0x0F, 5), 0x000F);
    assert_eq!(sign_extend(0x1F, 5), 0xFFFF);
    assert_eq!(sign_extend(0x10, 5), 0xFFF0);
    assert_eq!(sign_extend(0x2F, 6), 0xFFEF);
    assert_eq!(sign_extend(0x0FF, 9), 0x00FF);
    assert_eq!(sign_extend(0x1FF, 9), 0xFFFF);
    assert_eq!(sign_extend(0x400, 11), 0xFC00);
}

#[test]
fn sign_extend_round_trips_signed_values() {
    // -5 in 5 bits, -200 in 9 bits, 1000 in 11 bits.
    assert_eq!(sign_extend((-5i16 as u16) & 0x1F, 5) as i16, -5);
    assert_eq!(sign_extend((-200i16 as u16) & 0x1FF, 9) as i16, -200);
    assert_eq!(sign_extend(1000u16 & 0x7FF, 11) as i16, 1000);
}
