use lc3_vm::instruction::{
    add, and, br, execute_instruction, get_op_code, jmp, jsr, ld, ldi, ldr, lea, not, sign_extend,
    st, sti, str, OpCode, Outcome,
};
use lc3_vm::program::{execute_program, load_image, step, ImageError};
use lc3_vm::register::{ConditionFlag, Registers, PC_START};
use lc3_vm::trap::trap;
use lc3_vm::vm::{MemoryMappedReg, KBDR, KBSR, VM};

fn machine_with(words: &[u16]) -> VM {
    let mut vm = VM::new();
    for (i, w) in words.iter().enumerate() {
        vm.write_memory(PC_START as usize + i, *w);
    }
    vm
}

#[test]
fn halt_after_add_immediate() {
    let mut vm = VM::new();
    let image = vec![0x30, 0x00, 0x10, 0x25, 0xF0, 0x25];
    assert_eq!(load_image(&mut vm, &image), Ok(0x3000));
    assert_eq!(step(&mut vm), Outcome::Continue);
    assert_eq!(vm.registers.r0, 5);
    assert_eq!(vm.registers.cond, ConditionFlag::POS.bits());
    assert_eq!(step(&mut vm), Outcome::Halt);
    assert_eq!(vm.registers.r7, 0x3002);
}

#[test]
fn halt_program_runs_to_halt() {
    let mut vm = machine_with(&[0x1025, 0xF025]);
    assert_eq!(execute_program(&mut vm, 100), Outcome::Halt);
    assert_eq!(vm.registers.r0, 5);
}

#[test]
fn puts_prints_exactly_hi() {
    // LEA R0,#2; TRAP x22; TRAP x25; "H", "I", 0, "X"
    let mut vm = machine_with(&[0xE002, 0xF022, 0xF025, 0x48, 0x49, 0x00, 0x58]);
    assert_eq!(execute_program(&mut vm, 100), Outcome::Output(b"HI".to_vec()));
    assert_eq!(execute_program(&mut vm, 100), Outcome::Halt);
}

#[test]
fn jsr_long_then_ret_returns_after_call() {
    // JSR #2; (0x3001) ...; (0x3003) JMP R7
    let mut vm = machine_with(&[0x4802, 0x0000, 0x0000, 0xC1C0]);
    assert_eq!(step(&mut vm), Outcome::Continue);
    assert_eq!(vm.registers.r7, 0x3001);
    assert_eq!(vm.registers.pc, 0x3003);
    assert_eq!(step(&mut vm), Outcome::Continue);
    assert_eq!(vm.registers.pc, 0x3001);
}

#[test]
fn invalid_trap_vector_is_reported() {
    let mut vm = machine_with(&[0xF099]);
    assert_eq!(execute_program(&mut vm, 10), Outcome::InvalidTrap(0x99));
}

#[test]
fn sign_extend_negative_fills_high_bits() {
    assert_eq!(sign_extend(0x1F, 5), 0xFFFF);
    assert_eq!(sign_extend(0x10, 5), 0xFFF0);
    assert_eq!(sign_extend(0x100, 9), 0xFF00);
    assert_eq!(sign_extend(0x7FF, 11), 0xFFFF);
}

#[test]
fn sign_extend_positive_keeps_low_bits() {
    assert_eq!(sign_extend(0x0F, 5), 0x000F);
    assert_eq!(sign_extend(0xFF, 9), 0x00FF);
    assert_eq!(sign_extend(0x20, 6), 0xFFE0);
    assert_eq!(sign_extend(0x1F, 6), 0x001F);
}

#[test]
fn sign_extend_takes_only_the_field() {
    assert_eq!(sign_extend(0xF00F, 5), 0x000F);
    assert_eq!(sign_extend(0x0E1F, 5), 0xFFFF);
}

#[test]
fn add_immediate_overflow_wraps_to_negative() {
    let mut vm = VM::new();
    vm.registers.r1 = 0x7FFF;
    add(0x1061, &mut vm); // ADD R0,R1,#1
    assert_eq!(vm.registers.r0, 0x8000);
    assert_eq!(vm.registers.cond, 0x4);
}

#[test]
fn add_register_mode_uses_second_source() {
    let mut vm = VM::new();
    vm.registers.r0 = 0xFFFF;
    vm.registers.r1 = 2;
    add(0x1401, &mut vm); // ADD R2,R0,R1
    assert_eq!(vm.registers.r2, 1);
    assert_eq!(vm.registers.cond, 0x1);
}

#[test]
fn add_immediate_ignores_second_register_field() {
    let mut vm = VM::new();
    vm.registers.r1 = 10;
    vm.registers.r3 = 100;
    add(0x107F, &mut vm); // ADD R0,R1,#-1 (low bits also name R7)
    assert_eq!(vm.registers.r0, 9);
    vm.registers.r7 = 1000;
    add(0x1063, &mut vm); // ADD R0,R1,#3 (low bits also name R3)
    assert_eq!(vm.registers.r0, 13);
}

#[test]
fn and_immediate_and_register() {
    let mut vm = VM::new();
    vm.registers.r0 = 0x1234;
    and(0x5020, &mut vm); // AND R0,R0,#0
    assert_eq!(vm.registers.r0, 0);
    assert_eq!(vm.registers.cond, 0x2);
    vm.registers.r1 = 0xF0F0;
    vm.registers.r2 = 0xFF00;
    and(0x5642, &mut vm); // AND R3,R1,R2
    assert_eq!(vm.registers.r3, 0xF000);
    assert_eq!(vm.registers.cond, 0x4);
    and(0x587F, &mut vm); // AND R4,R1,#-1
    assert_eq!(vm.registers.r4, 0xF0F0);
}

#[test]
fn not_complements() {
    let mut vm = VM::new();
    vm.registers.r1 = 0x00FF;
    not(0x907F, &mut vm); // NOT R0,R1
    assert_eq!(vm.registers.r0, 0xFF00);
    assert_eq!(vm.registers.cond, 0x4);
    vm.registers.r1 = 0xFFFF;
    not(0x907F, &mut vm);
    assert_eq!(vm.registers.r0, 0);
    assert_eq!(vm.registers.cond, 0x2);
}

#[test]
fn condition_flags_follow_value() {
    let mut regs = Registers::new();
    regs.update(3, 0);
    regs.update_r_cond_register(3);
    assert_eq!(regs.get(9), 0x2);
    regs.update(3, 0x8001);
    regs.update_r_cond_register(3);
    assert_eq!(regs.get(9), 0x4);
    regs.update(3, 0x7FFF);
    regs.update_r_cond_register(3);
    assert_eq!(regs.get(9), 0x1);
    assert_eq!(ConditionFlag::ZRO.bits(), 2);
    assert_eq!(ConditionFlag::NEG.bits(), 4);
}

#[test]
fn registers_start_state() {
    let regs = Registers::new();
    assert_eq!(regs.pc, 0x3000);
    for i in 0..8u16 {
        assert_eq!(regs.get(i), 0);
    }
    assert_eq!(regs.get(8), 0x3000);
    assert_eq!(regs.get(9), 0);
}

#[test]
fn ldi_loads_through_pointer() {
    let mut vm = VM::new();
    vm.registers.pc = 0x3001;
    vm.write_memory(0x3003, 0x4000);
    vm.write_memory(0x4000, 0x1234);
    ldi(0xA002, &mut vm); // LDI R0,#2
    assert_eq!(vm.registers.r0, 0x1234);
    assert_eq!(vm.registers.cond, 0x1);
}

#[test]
fn ld_and_ldr_and_lea() {
    let mut vm = VM::new();
    vm.registers.pc = 0x3001;
    vm.write_memory(0x3000, 0x8765);
    ld(0x23FF, &mut vm); // LD R1,#-1
    assert_eq!(vm.registers.r1, 0x8765);
    assert_eq!(vm.registers.cond, 0x4);
    vm.registers.r2 = 0x4000;
    vm.write_memory(0x4005, 42);
    ldr(0x6685, &mut vm); // LDR R3,R2,#5
    assert_eq!(vm.registers.r3, 42);
    lea(0xE9FE, &mut vm); // LEA R4,#-2
    assert_eq!(vm.registers.r4, 0x2FFF);
}

#[test]
fn pc_relative_address_wraps() {
    let mut vm = VM::new();
    vm.registers.pc = 0xFFFF;
    lea(0xE002, &mut vm); // LEA R0,#2
    assert_eq!(vm.registers.r0, 0x0001);
}

#[test]
fn stores_write_memory() {
    let mut vm = VM::new();
    vm.registers.pc = 0x3001;
    vm.registers.r1 = 0xBEEF;
    st(0x3204, &mut vm); // ST R1,#4
    assert_eq!(vm.memory[0x3005], 0xBEEF);
    vm.registers.r2 = 0x5000;
    str(0x7283, &mut vm); // STR R1,R2,#3
    assert_eq!(vm.memory[0x5003], 0xBEEF);
    vm.write_memory(0x3002, 0x6000);
    sti(0xB201, &mut vm); // STI R1,#1
    assert_eq!(vm.memory[0x6000], 0xBEEF);
}

#[test]
fn branch_follows_condition() {
    let mut vm = VM::new();
    vm.registers.pc = 0x3001;
    vm.registers.cond = 0x2;
    br(0x0205, &mut vm); // BRp #5: not taken
    assert_eq!(vm.registers.pc, 0x3001);
    br(0x0405, &mut vm); // BRz #5: taken
    assert_eq!(vm.registers.pc, 0x3006);
    br(0x0FFA, &mut vm); // BRnzp #-6
    assert_eq!(vm.registers.pc, 0x3000);
}

#[test]
fn jmp_and_jsrr() {
    let mut vm = VM::new();
    vm.registers.r3 = 0x4444;
    jmp(0xC0C0, &mut vm); // JMP R3
    assert_eq!(vm.registers.pc, 0x4444);
    vm.registers.r2 = 0x5555;
    jsr(0x4080, &mut vm); // JSRR R2
    assert_eq!(vm.registers.r7, 0x4444);
    assert_eq!(vm.registers.pc, 0x5555);
}

#[test]
fn opcode_decoding() {
    assert_eq!(get_op_code(&0xF025), Some(OpCode::TRAP));
    assert_eq!(get_op_code(&0x0000), Some(OpCode::BR));
    assert_eq!(get_op_code(&0x8000), Some(OpCode::RTI));
    assert_eq!(get_op_code(&0xD123), Some(OpCode::RES));
    assert_eq!(get_op_code(&0x1025), Some(OpCode::ADD));
}

#[test]
fn unsupported_opcodes_change_nothing() {
    let mut vm = VM::new();
    vm.registers.r0 = 7;
    assert_eq!(execute_instruction(0x8000, &mut vm), Outcome::Unsupported(OpCode::RTI));
    assert_eq!(execute_instruction(0xD000, &mut vm), Outcome::Unsupported(OpCode::RES));
    assert_eq!(vm.registers, {
        let mut r = Registers::new();
        r.r0 = 7;
        r
    });
}

#[test]
fn puts_stops_at_first_zero() {
    let mut vm = VM::new();
    vm.registers.r0 = 0x4000;
    for (i, w) in [0x41u16, 0x42, 0x00, 0x43].iter().enumerate() {
        vm.write_memory(0x4000 + i, *w);
    }
    assert_eq!(trap(0xF022, &mut vm), Outcome::Output(b"AB".to_vec()));
}

#[test]
fn puts_empty_string() {
    let mut vm = VM::new();
    vm.registers.r0 = 0x4000;
    assert_eq!(trap(0xF022, &mut vm), Outcome::Output(Vec::new()));
}

#[test]
fn putsp_odd_length_prints_low_byte_last() {
    let mut vm = VM::new();
    vm.registers.r0 = 0x4000;
    vm.write_memory(0x4000, 0x4948); // "HI"
    vm.write_memory(0x4001, 0x0021); // "!"
    vm.write_memory(0x4002, 0x0000);
    vm.write_memory(0x4003, 0x4141);
    assert_eq!(trap(0xF024, &mut vm), Outcome::Output(b"HI!".to_vec()));
}

#[test]
fn out_prints_low_byte() {
    let mut vm = VM::new();
    vm.registers.r0 = 0x1241;
    vm.registers.pc = 0x3005;
    assert_eq!(trap(0xF021, &mut vm), Outcome::Output(b"A".to_vec()));
    assert_eq!(vm.registers.r7, 0x3005);
}

#[test]
fn getc_waits_for_a_key() {
    let mut vm = machine_with(&[0xF020]);
    assert_eq!(step(&mut vm), Outcome::NeedInput);
    assert_eq!(vm.registers.pc, 0x3000);
    assert_eq!(vm.registers.r7, 0);
    vm.push_key(b'q');
    assert_eq!(step(&mut vm), Outcome::Continue);
    assert_eq!(vm.registers.r0, b'q' as u16);
    assert_eq!(vm.registers.r7, 0x3001);
    assert_eq!(vm.registers.pc, 0x3001);
}

#[test]
fn in_prompts_and_echoes() {
    let mut vm = machine_with(&[0xF023]);
    vm.push_key(b'z');
    let mut expected = b"Enter a  character : ".to_vec();
    expected.push(b'z');
    assert_eq!(step(&mut vm), Outcome::Output(expected));
    assert_eq!(vm.registers.r0, b'z' as u16);
}

#[test]
fn keyboard_status_poll() {
    let mut vm = VM::new();
    assert_eq!(MemoryMappedReg::Kbsr.address(), 0xFE00);
    assert_eq!(MemoryMappedReg::Kbdr.address(), 0xFE02);
    assert_eq!(vm.read_memory(KBSR), 0);
    vm.push_key(b'k');
    assert_eq!(vm.read_memory(KBSR), 0x8000);
    assert_eq!(vm.read_memory(KBDR), b'k' as u16);
    assert_eq!(vm.read_memory(KBSR), 0);
    vm.push_key(0);
    assert_eq!(vm.read_memory(KBSR), 0);
    assert!(vm.keyboard.is_empty());
}

#[test]
fn ldi_of_keyboard_status_polls() {
    let mut vm = VM::new();
    vm.registers.pc = 0x3001;
    vm.write_memory(0x3001, KBSR as usize as u16);
    vm.push_key(b'x');
    ldi(0xA000, &mut vm); // LDI R0,#0
    assert_eq!(vm.registers.r0, 0x8000);
    assert_eq!(vm.memory[KBDR as usize], b'x' as u16);
}

#[test]
fn load_image_stores_words_big_endian() {
    let mut vm = VM::new();
    let image = vec![0x40, 0x00, 0x12, 0x34, 0xAB, 0xCD, 0xEE];
    assert_eq!(load_image(&mut vm, &image), Ok(0x4000));
    assert_eq!(vm.memory[0x4000], 0x1234);
    assert_eq!(vm.memory[0x4001], 0xABCD);
    assert_eq!(vm.memory[0x4002], 0);
}

#[test]
fn load_image_errors() {
    let mut vm = VM::new();
    assert_eq!(load_image(&mut vm, &vec![0x30]), Err(ImageError::MissingOrigin));
    assert_eq!(load_image(&mut vm, &Vec::new()), Err(ImageError::MissingOrigin));
    assert_eq!(
        load_image(&mut vm, &vec![0xFF, 0xFF, 0, 1, 0, 2]),
        Err(ImageError::TooLarge)
    );
    assert_eq!(load_image(&mut vm, &vec![0xFF, 0xFF, 0, 1]), Ok(0xFFFF));
    assert_eq!(vm.memory[0xFFFF], 1);
}

#[test]
fn step_budget_runs_out() {
    // BRnzp #-1: an endless loop
    let mut vm = machine_with(&[0x0FFF]);
    vm.registers.cond = 0x2;
    assert_eq!(execute_program(&mut vm, 50), Outcome::Continue);
    assert_eq!(vm.registers.pc, 0x3000);
}
