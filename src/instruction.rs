use vstd::prelude::*;
use crate::register::{cond_of, Registers};
use crate::vm::{Machine, VM};
use crate::trap::{trap, trap_spec};

verus! {

/// The sixteen instruction kinds, in the order of their 4-bit codes.
#[derive(Clone, Copy, Debug, PartialEq, Eq, Structural)]
pub enum OpCode {
    BR,
    ADD,
    LD,
    ST,
    JSR,
    AND,
    LDR,
    STR,
    RTI,
    NOT,
    LDI,
    STI,
    JMP,
    RES,
    LEA,
    TRAP,
}

/// What an executed instruction asks of the host.
#[derive(Debug, PartialEq, Eq)]
pub enum Outcome {
    /// Nothing: fetch the next instruction.
    Continue,
    /// These bytes go to the console; then continue.
    Output(Vec<u8>),
    /// A byte of keyboard input is needed; the machine is unchanged, and the
    /// instruction runs again once a byte has been queued.
    NeedInput,
    /// The program halted normally.
    Halt,
    /// The program asked for a trap vector that does not exist.
    InvalidTrap(u16),
    /// An opcode without an implementation (RTI, RES) was skipped.
    Unsupported(OpCode),
}

/// The abstract form of an [`Outcome`].
pub enum Signal {
    Continue,
    Output(Seq<u8>),
    NeedInput,
    Halt,
    InvalidTrap(u16),
    Unsupported(OpCode),
}

impl View for Outcome {
    type V = Signal;

    open spec fn view(&self) -> Signal {
        match self {
            Outcome::Continue => Signal::Continue,
            Outcome::Output(v) => Signal::Output(v@),
            Outcome::NeedInput => Signal::NeedInput,
            Outcome::Halt => Signal::Halt,
            Outcome::InvalidTrap(t) => Signal::InvalidTrap(*t),
            Outcome::Unsupported(o) => Signal::Unsupported(*o),
        }
    }
}

/// The opcode held in the top four bits of an instruction word.
pub open spec fn opcode_of(instr: u16) -> OpCode {
    let c = instr >> 12u16;
    if c == 0 {
        OpCode::BR
    } else if c == 1 {
        OpCode::ADD
    } else if c == 2 {
        OpCode::LD
    } else if c == 3 {
        OpCode::ST
    } else if c == 4 {
        OpCode::JSR
    } else if c == 5 {
        OpCode::AND
    } else if c == 6 {
        OpCode::LDR
    } else if c == 7 {
        OpCode::STR
    } else if c == 8 {
        OpCode::RTI
    } else if c == 9 {
        OpCode::NOT
    } else if c == 10 {
        OpCode::LDI
    } else if c == 11 {
        OpCode::STI
    } else if c == 12 {
        OpCode::JMP
    } else if c == 13 {
        OpCode::RES
    } else if c == 14 {
        OpCode::LEA
    } else {
        OpCode::TRAP
    }
}

/// Decodes the opcode of an instruction word; every word has one.
pub fn get_op_code(instr: &u16) -> (r: Option<OpCode>)
    ensures
        r == Some(opcode_of(*instr)),
{
    let op_code = *instr >> 12u16;
    assert(op_code < 16) by (bit_vector)
        requires
            op_code == *instr >> 12u16,
    ;
    match op_code {
        0 => Some(OpCode::BR),
        1 => Some(OpCode::ADD),
        2 => Some(OpCode::LD),
        3 => Some(OpCode::ST),
        4 => Some(OpCode::JSR),
        5 => Some(OpCode::AND),
        6 => Some(OpCode::LDR),
        7 => Some(OpCode::STR),
        8 => Some(OpCode::RTI),
        9 => Some(OpCode::NOT),
        10 => Some(OpCode::LDI),
        11 => Some(OpCode::STI),
        12 => Some(OpCode::JMP),
        13 => Some(OpCode::RES),
        14 => Some(OpCode::LEA),
        _ => Some(OpCode::TRAP),
    }
}

/// The low `w` bits set.
pub open spec fn low_mask(w: u16) -> u16 {
    !(0xFFFFu16 << w)
}

/// Whether bit `w - 1` of `x`, the sign bit of a `w`-bit field, is set.
pub open spec fn sign_bit(x: u16, w: u16) -> bool {
    (x >> ((w - 1) as u16)) & 1u16 == 1u16
}

/// The low `w` bits of `x` sign-extended to sixteen bits.
pub open spec fn sext(x: u16, w: u16) -> u16 {
    if sign_bit(x, w) {
        x | (0xFFFFu16 << w)
    } else {
        x & low_mask(w)
    }
}

/// Sixteen-bit addition that wraps around.
pub open spec fn add16(a: u16, b: u16) -> u16 {
    ((a as int + b as int) % 0x10000) as u16
}

/// Destination (or source, for stores) register field, bits 11 to 9.
pub open spec fn dr_field(instr: u16) -> u16 {
    (instr >> 9u16) & 7u16
}

/// First source (or base) register field, bits 8 to 6.
pub open spec fn sr1_field(instr: u16) -> u16 {
    (instr >> 6u16) & 7u16
}

/// Second source register field, bits 2 to 0.
pub open spec fn sr2_field(instr: u16) -> u16 {
    instr & 7u16
}

/// Whether bit 5 selects the immediate operand.
pub open spec fn imm_mode(instr: u16) -> bool {
    (instr >> 5u16) & 1u16 == 1u16
}

proof fn lemma_fields(instr: u16)
    ensures
        dr_field(instr) <= 7,
        sr1_field(instr) <= 7,
        sr2_field(instr) <= 7,
{
    assert((instr >> 9u16) & 7u16 <= 7) by (bit_vector);
    assert((instr >> 6u16) & 7u16 <= 7) by (bit_vector);
    assert(instr & 7u16 <= 7) by (bit_vector);
}

/// Takes the low `bit_count` bits of `x` and fills every higher bit with the
/// field's sign bit.
pub fn sign_extend(x: u16, bit_count: u8) -> (r: u16)
    requires
        1 <= bit_count <= 15,
    ensures
        r == sext(x, bit_count as u16),
        r & low_mask(bit_count as u16) == x & low_mask(bit_count as u16),
        sign_bit(x, bit_count as u16) ==> r >> (bit_count as u16) == 0xFFFFu16 >> (bit_count as u16),
        !sign_bit(x, bit_count as u16) ==> r >> (bit_count as u16) == 0,
{
    let w: u16 = bit_count as u16;
    let r = if (x >> (w - 1)) & 1 == 1 {
        x | (0xFFFFu16 << w)
    } else {
        x & !(0xFFFFu16 << w)
    };
    assert(r & low_mask(w) == x & low_mask(w)) by (bit_vector)
        requires
            1 <= w <= 15,
            r == (if (x >> ((w - 1) as u16)) & 1u16 == 1u16 { x | (0xFFFFu16 << w) } else { x & !(0xFFFFu16 << w) }),
    ;
    assert(sign_bit(x, w) ==> r >> w == 0xFFFFu16 >> w) by (bit_vector)
        requires
            1 <= w <= 15,
            r == (if (x >> ((w - 1) as u16)) & 1u16 == 1u16 { x | (0xFFFFu16 << w) } else { x & !(0xFFFFu16 << w) }),
    ;
    assert(!sign_bit(x, w) ==> r >> w == 0) by (bit_vector)
        requires
            1 <= w <= 15,
            r == (if (x >> ((w - 1) as u16)) & 1u16 == 1u16 { x | (0xFFFFu16 << w) } else { x & !(0xFFFFu16 << w) }),
    ;
    r
}

/// Adds two words with sixteen-bit wraparound.
fn wrapping_add16(a: u16, b: u16) -> (r: u16)
    ensures
        r == add16(a, b),
{
    let s: u32 = a as u32 + b as u32;
    if s >= 0x10000 {
        (s - 0x10000) as u16
    } else {
        s as u16
    }
}

/// The second operand of ADD and AND: the sign-extended immediate or a register.
pub open spec fn operand2(regs: Registers, instr: u16) -> u16 {
    if imm_mode(instr) {
        sext(instr, 5)
    } else {
        regs.reg(sr2_field(instr) as int)
    }
}

/// The machine with register `dr` set to `v` and the flags derived from `v`.
pub open spec fn set_result(m: Machine, dr: u16, v: u16) -> Machine {
    m.with_regs(m.regs.with_result(dr as int, v))
}

pub open spec fn add_spec(m: Machine, instr: u16) -> Machine {
    set_result(m, dr_field(instr), add16(m.regs.reg(sr1_field(instr) as int), operand2(m.regs, instr)))
}

pub open spec fn and_spec(m: Machine, instr: u16) -> Machine {
    set_result(m, dr_field(instr), m.regs.reg(sr1_field(instr) as int) & operand2(m.regs, instr))
}

pub open spec fn not_spec(m: Machine, instr: u16) -> Machine {
    set_result(m, dr_field(instr), !m.regs.reg(sr1_field(instr) as int))
}

/// The address `PC + PCoffset9`.
pub open spec fn pc_rel9(m: Machine, instr: u16) -> u16 {
    add16(m.regs.pc, sext(instr, 9))
}

/// The address `base register + offset6`.
pub open spec fn base_rel6(m: Machine, instr: u16) -> u16 {
    add16(m.regs.reg(sr1_field(instr) as int), sext(instr, 6))
}

pub open spec fn lea_spec(m: Machine, instr: u16) -> Machine {
    set_result(m, dr_field(instr), pc_rel9(m, instr))
}

pub open spec fn br_spec(m: Machine, instr: u16) -> Machine {
    if dr_field(instr) & m.regs.cond != 0 {
        m.with_regs(Registers { pc: pc_rel9(m, instr), ..m.regs })
    } else {
        m
    }
}

pub open spec fn jmp_spec(m: Machine, instr: u16) -> Machine {
    m.with_regs(Registers { pc: m.regs.reg(sr1_field(instr) as int), ..m.regs })
}

/// R7 receives the return address first; the register form then reads its
/// base register, R7 included, after that.
pub open spec fn jsr_spec(m: Machine, instr: u16) -> Machine {
    let linked = Registers { r7: m.regs.pc, ..m.regs };
    if (instr >> 11u16) & 1u16 != 0 {
        m.with_regs(Registers { pc: add16(m.regs.pc, sext(instr, 11)), ..linked })
    } else {
        m.with_regs(Registers { pc: linked.reg(sr1_field(instr) as int), ..linked })
    }
}

pub open spec fn ld_spec(m: Machine, instr: u16) -> Machine {
    let a = pc_rel9(m, instr);
    set_result(m.after_read(a), dr_field(instr), m.read_value(a))
}

/// The word at `PC + offset` is a pointer; the destination receives the word it points to.
pub open spec fn ldi_spec(m: Machine, instr: u16) -> Machine {
    let a = pc_rel9(m, instr);
    let m1 = m.after_read(a);
    let p = m.read_value(a);
    set_result(m1.after_read(p), dr_field(instr), m1.read_value(p))
}

pub open spec fn ldr_spec(m: Machine, instr: u16) -> Machine {
    let a = base_rel6(m, instr);
    set_result(m.after_read(a), dr_field(instr), m.read_value(a))
}

pub open spec fn st_spec(m: Machine, instr: u16) -> Machine {
    m.written(pc_rel9(m, instr), m.regs.reg(dr_field(instr) as int))
}

pub open spec fn sti_spec(m: Machine, instr: u16) -> Machine {
    let a = pc_rel9(m, instr);
    m.after_read(a).written(m.read_value(a), m.regs.reg(dr_field(instr) as int))
}

pub open spec fn str_spec(m: Machine, instr: u16) -> Machine {
    m.written(base_rel6(m, instr), m.regs.reg(dr_field(instr) as int))
}

/// Writes `v` to register `dr` and derives the flags from it.
fn set_result_reg(vm: &mut VM, dr: u16, v: u16)
    requires
        old(vm).wf(),
        dr <= 7,
    ensures
        final(vm).wf(),
        final(vm)@ == set_result(old(vm)@, dr, v),
{
    vm.registers.update(dr, v);
    vm.registers.update_r_cond_register(dr);
}

/// LEA: the destination receives `PC + PCoffset9`, not dereferenced.
pub fn lea(instr: u16, vm: &mut VM)
    requires
        old(vm).wf(),
    ensures
        final(vm).wf(),
        final(vm)@ == lea_spec(old(vm)@, instr),
{
    proof { lemma_fields(instr); }
    let dr = (instr >> 9u16) & 0x7;
    let pc_offset = sign_extend(instr & 0x1FF, 9);
    proof { lemma_sext_masked(instr); }
    let address = wrapping_add16(vm.registers.pc, pc_offset);
    set_result_reg(vm, dr, address);
}

/// ADD: the destination receives the first source plus either the
/// sign-extended imm5 or the second source register, wrapping at sixteen bits.
pub fn add(instr: u16, vm: &mut VM)
    requires
        old(vm).wf(),
    ensures
        final(vm).wf(),
        final(vm)@ == add_spec(old(vm)@, instr),
{
    proof { lemma_fields(instr); }
    let dr = (instr >> 9u16) & 0x7;
    let sr1 = (instr >> 6u16) & 0x7;
    let imm_flag = (instr >> 5u16) & 0x1;
    let operand = if imm_flag == 1 {
        proof { lemma_sext_masked(instr); }
        sign_extend(instr & 0x1F, 5)
    } else {
        vm.registers.get(instr & 0x7)
    };
    let v = wrapping_add16(vm.registers.get(sr1), operand);
    set_result_reg(vm, dr, v);
}

/// AND: the destination receives the first source ANDed with either the
/// sign-extended imm5 or the second source register.
pub fn and(instr: u16, vm: &mut VM)
    requires
        old(vm).wf(),
    ensures
        final(vm).wf(),
        final(vm)@ == and_spec(old(vm)@, instr),
{
    proof { lemma_fields(instr); }
    let dr = (instr >> 9u16) & 0x7;
    let sr1 = (instr >> 6u16) & 0x7;
    let imm_flag = (instr >> 5u16) & 0x1;
    let operand = if imm_flag == 1 {
        proof { lemma_sext_masked(instr); }
        sign_extend(instr & 0x1F, 5)
    } else {
        vm.registers.get(instr & 0x7)
    };
    let v = vm.registers.get(sr1) & operand;
    set_result_reg(vm, dr, v);
}

/// NOT: the destination receives the bitwise complement of the source.
pub fn not(instr: u16, vm: &mut VM)
    requires
        old(vm).wf(),
    ensures
        final(vm).wf(),
        final(vm)@ == not_spec(old(vm)@, instr),
{
    proof { lemma_fields(instr); }
    let dr = (instr >> 9u16) & 0x7;
    let sr1 = (instr >> 6u16) & 0x7;
    let v = !vm.registers.get(sr1);
    set_result_reg(vm, dr, v);
}

/// BR: when a tested condition bit is set in the condition register, the
/// program counter moves by PCoffset9.
pub fn br(instr: u16, vm: &mut VM)
    requires
        old(vm).wf(),
    ensures
        final(vm).wf(),
        final(vm)@ == br_spec(old(vm)@, instr),
{
    let pc_offset = sign_extend(instr & 0x1FF, 9);
    proof { lemma_sext_masked(instr); }
    let cond_flag = (instr >> 9u16) & 0x7;
    if cond_flag & vm.registers.cond != 0 {
        vm.registers.pc = wrapping_add16(vm.registers.pc, pc_offset);
    }
}

/// JMP: the program counter receives the base register (R7: return).
pub fn jmp(instr: u16, vm: &mut VM)
    requires
        old(vm).wf(),
    ensures
        final(vm).wf(),
        final(vm)@ == jmp_spec(old(vm)@, instr),
{
    proof { lemma_fields(instr); }
    let base_reg = (instr >> 6u16) & 0x7;
    vm.registers.pc = vm.registers.get(base_reg);
}

/// JSR / JSRR: R7 receives the return address, then the program counter
/// moves by PCoffset11 (bit 11 set) or takes the base register.
pub fn jsr(instr: u16, vm: &mut VM)
    requires
        old(vm).wf(),
    ensures
        final(vm).wf(),
        final(vm)@ == jsr_spec(old(vm)@, instr),
{
    proof { lemma_fields(instr); }
    let base_reg = (instr >> 6u16) & 0x7;
    let long_pc_offset = sign_extend(instr & 0x7FF, 11);
    proof { lemma_sext_masked(instr); }
    let long_flag = (instr >> 11u16) & 1;
    vm.registers.r7 = vm.registers.pc;
    if long_flag != 0 {
        vm.registers.pc = wrapping_add16(vm.registers.pc, long_pc_offset);
    } else {
        vm.registers.pc = vm.registers.get(base_reg);
    }
}

/// LD: the destination receives the word at `PC + PCoffset9`.
pub fn ld(instr: u16, vm: &mut VM)
    requires
        old(vm).wf(),
    ensures
        final(vm).wf(),
        final(vm)@ == ld_spec(old(vm)@, instr),
{
    proof { lemma_fields(instr); }
    let dr = (instr >> 9u16) & 0x7;
    let pc_offset = sign_extend(instr & 0x1FF, 9);
    proof { lemma_sext_masked(instr); }
    let address = wrapping_add16(vm.registers.pc, pc_offset);
    let value = vm.read_memory(address);
    set_result_reg(vm, dr, value);
}

/// LDI: the word at `PC + PCoffset9` is a pointer; the destination
/// receives the word it points to.
pub fn ldi(instr: u16, vm: &mut VM)
    requires
        old(vm).wf(),
    ensures
        final(vm).wf(),
        final(vm)@ == ldi_spec(old(vm)@, instr),
{
    proof { lemma_fields(instr); }
    let dr = (instr >> 9u16) & 0x7;
    let pc_offset = sign_extend(instr & 0x1FF, 9);
    proof { lemma_sext_masked(instr); }
    let address = wrapping_add16(vm.registers.pc, pc_offset);
    let pointer = vm.read_memory(address);
    let value = vm.read_memory(pointer);
    set_result_reg(vm, dr, value);
}

/// LDR: the destination receives the word at `base register + offset6`.
pub fn ldr(instr: u16, vm: &mut VM)
    requires
        old(vm).wf(),
    ensures
        final(vm).wf(),
        final(vm)@ == ldr_spec(old(vm)@, instr),
{
    proof { lemma_fields(instr); }
    let dr = (instr >> 9u16) & 0x7;
    let base_reg = (instr >> 6u16) & 0x7;
    let offset = sign_extend(instr & 0x3F, 6);
    proof { lemma_sext_masked(instr); }
    let address = wrapping_add16(vm.registers.get(base_reg), offset);
    let value = vm.read_memory(address);
    set_result_reg(vm, dr, value);
}

/// ST: the source register is stored at `PC + PCoffset9`.
pub fn st(instr: u16, vm: &mut VM)
    requires
        old(vm).wf(),
    ensures
        final(vm).wf(),
        final(vm)@ == st_spec(old(vm)@, instr),
{
    proof { lemma_fields(instr); }
    let sr = (instr >> 9u16) & 0x7;
    let pc_offset = sign_extend(instr & 0x1FF, 9);
    proof { lemma_sext_masked(instr); }
    let address = wrapping_add16(vm.registers.pc, pc_offset);
    let value = vm.registers.get(sr);
    vm.write_memory(address as usize, value);
}

/// STI: the word at `PC + PCoffset9` is a pointer; the source register is
/// stored where it points.
pub fn sti(instr: u16, vm: &mut VM)
    requires
        old(vm).wf(),
    ensures
        final(vm).wf(),
        final(vm)@ == sti_spec(old(vm)@, instr),
{
    proof { lemma_fields(instr); }
    let sr = (instr >> 9u16) & 0x7;
    let pc_offset = sign_extend(instr & 0x1FF, 9);
    proof { lemma_sext_masked(instr); }
    let address = wrapping_add16(vm.registers.pc, pc_offset);
    let pointer = vm.read_memory(address);
    let value = vm.registers.get(sr);
    vm.write_memory(pointer as usize, value);
}

/// STR: the source register is stored at `base register + offset6`.
pub fn str(instr: u16, vm: &mut VM)
    requires
        old(vm).wf(),
    ensures
        final(vm).wf(),
        final(vm)@ == str_spec(old(vm)@, instr),
{
    proof { lemma_fields(instr); }
    let sr = (instr >> 9u16) & 0x7;
    let base_reg = (instr >> 6u16) & 0x7;
    let offset = sign_extend(instr & 0x3F, 6);
    proof { lemma_sext_masked(instr); }
    let address = wrapping_add16(vm.registers.get(base_reg), offset);
    let value = vm.registers.get(sr);
    vm.write_memory(address as usize, value);
}

/// The effect of one instruction (the program counter already advanced) and
/// the signal it gives the host.
pub open spec fn instr_spec(m: Machine, instr: u16) -> (Machine, Signal) {
    match opcode_of(instr) {
        OpCode::BR => (br_spec(m, instr), Signal::Continue),
        OpCode::ADD => (add_spec(m, instr), Signal::Continue),
        OpCode::LD => (ld_spec(m, instr), Signal::Continue),
        OpCode::ST => (st_spec(m, instr), Signal::Continue),
        OpCode::JSR => (jsr_spec(m, instr), Signal::Continue),
        OpCode::AND => (and_spec(m, instr), Signal::Continue),
        OpCode::LDR => (ldr_spec(m, instr), Signal::Continue),
        OpCode::STR => (str_spec(m, instr), Signal::Continue),
        OpCode::RTI => (m, Signal::Unsupported(OpCode::RTI)),
        OpCode::NOT => (not_spec(m, instr), Signal::Continue),
        OpCode::LDI => (ldi_spec(m, instr), Signal::Continue),
        OpCode::STI => (sti_spec(m, instr), Signal::Continue),
        OpCode::JMP => (jmp_spec(m, instr), Signal::Continue),
        OpCode::RES => (m, Signal::Unsupported(OpCode::RES)),
        OpCode::LEA => (lea_spec(m, instr), Signal::Continue),
        OpCode::TRAP => trap_spec(m, instr),
    }
}

/// Decodes `instr` and runs its handler; RTI and RES change nothing.
pub fn execute_instruction(instr: u16, vm: &mut VM) -> (r: Outcome)
    requires
        old(vm).wf(),
    ensures
        final(vm).wf(),
        (final(vm)@, r@) == instr_spec(old(vm)@, instr),
{
    match get_op_code(&instr) {
        Some(OpCode::ADD) => {
            crate::instruction::add(instr, vm);
            Outcome::Continue
        },
        Some(OpCode::AND) => {
            and(instr, vm);
            Outcome::Continue
        },
        Some(OpCode::NOT) => {
            not(instr, vm);
            Outcome::Continue
        },
        Some(OpCode::BR) => {
            br(instr, vm);
            Outcome::Continue
        },
        Some(OpCode::JMP) => {
            jmp(instr, vm);
            Outcome::Continue
        },
        Some(OpCode::JSR) => {
            jsr(instr, vm);
            Outcome::Continue
        },
        Some(OpCode::LD) => {
            ld(instr, vm);
            Outcome::Continue
        },
        Some(OpCode::LDI) => {
            ldi(instr, vm);
            Outcome::Continue
        },
        Some(OpCode::LDR) => {
            ldr(instr, vm);
            Outcome::Continue
        },
        Some(OpCode::LEA) => {
            lea(instr, vm);
            Outcome::Continue
        },
        Some(OpCode::ST) => {
            st(instr, vm);
            Outcome::Continue
        },
        Some(OpCode::STI) => {
            sti(instr, vm);
            Outcome::Continue
        },
        Some(OpCode::STR) => {
            str(instr, vm);
            Outcome::Continue
        },
        Some(OpCode::TRAP) => trap(instr, vm),
        Some(OpCode::RTI) => Outcome::Unsupported(OpCode::RTI),
        Some(OpCode::RES) => Outcome::Unsupported(OpCode::RES),
        None => Outcome::Continue,
    }
}

/// ADD and AND take their second operand from the sign-extended imm5 field
/// when bit 5 is set and from register SR2 otherwise, never from the other
/// source; the destination receives the result (ADD wrapping at sixteen
/// bits) and the flags are derived from it.
pub proof fn lemma_add_and_operand(m: Machine, instr: u16)
    ensures
        imm_mode(instr) ==> add_spec(m, instr).regs == m.regs.with_result(
            dr_field(instr) as int,
            add16(m.regs.reg(sr1_field(instr) as int), sext(instr, 5)),
        ),
        !imm_mode(instr) ==> add_spec(m, instr).regs == m.regs.with_result(
            dr_field(instr) as int,
            add16(m.regs.reg(sr1_field(instr) as int), m.regs.reg(sr2_field(instr) as int)),
        ),
        imm_mode(instr) ==> and_spec(m, instr).regs == m.regs.with_result(
            dr_field(instr) as int,
            m.regs.reg(sr1_field(instr) as int) & sext(instr, 5),
        ),
        !imm_mode(instr) ==> and_spec(m, instr).regs == m.regs.with_result(
            dr_field(instr) as int,
            m.regs.reg(sr1_field(instr) as int) & m.regs.reg(sr2_field(instr) as int),
        ),
        add_spec(m, instr).regs.reg(dr_field(instr) as int) == add16(
            m.regs.reg(sr1_field(instr) as int),
            operand2(m.regs, instr),
        ),
        add_spec(m, instr).regs.cond == cond_of(add_spec(m, instr).regs.reg(dr_field(instr) as int)),
        and_spec(m, instr).regs.cond == cond_of(and_spec(m, instr).regs.reg(dr_field(instr) as int)),
        add_spec(m, instr).mem == m.mem,
        and_spec(m, instr).mem == m.mem,
{
    lemma_fields(instr);
}

/// LDI reads twice: the word at `PC + PCoffset9` is a pointer, and the
/// destination receives the word the pointer designates, not the pointer.
/// (Neither address is the keyboard status register, whose reads poll.)
pub proof fn lemma_ldi_double_indirection(m: Machine, instr: u16)
    requires
        m.wf(),
        pc_rel9(m, instr) != crate::vm::KBSR,
        m.mem[pc_rel9(m, instr) as int] != crate::vm::KBSR,
    ensures
        ldi_spec(m, instr).regs.reg(dr_field(instr) as int) == m.mem[m.mem[pc_rel9(m, instr) as int] as int],
        ldi_spec(m, instr).regs.cond == cond_of(m.mem[m.mem[pc_rel9(m, instr) as int] as int]),
        ldi_spec(m, instr).mem == m.mem,
        ldi_spec(m, instr).keys == m.keys,
{
    lemma_fields(instr);
}

/// Sign extension reads only the low bits of its input.
proof fn lemma_sext_masked(instr: u16)
    ensures
        sext(instr & 0x1F, 5) == sext(instr, 5),
        sext(instr & 0x3F, 6) == sext(instr, 6),
        sext(instr & 0x1FF, 9) == sext(instr, 9),
        sext(instr & 0x7FF, 11) == sext(instr, 11),
{
    assert(sext(instr & 0x1F, 5) == sext(instr, 5)) by (bit_vector);
    assert(sext(instr & 0x3F, 6) == sext(instr, 6)) by (bit_vector);
    assert(sext(instr & 0x1FF, 9) == sext(instr, 9)) by (bit_vector);
    assert(sext(instr & 0x7FF, 11) == sext(instr, 11)) by (bit_vector);
}

} // verus!
