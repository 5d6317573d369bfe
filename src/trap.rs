use vstd::prelude::*;
use vstd::string::{StrSliceExecFns, StringSliceAdditionalSpecFns};
use crate::instruction::{Outcome, Signal};
use crate::register::Registers;
use crate::vm::{next_addr, Machine, KBSR, VM};

verus! {

/// The prompt that the IN trap prints before it reads a character.
pub const IN_PROMPT: &'static str = "Enter a  character : ";

pub open spec fn in_prompt() -> Seq<u8> {
    IN_PROMPT.spec_bytes()
}

/// The low byte of a word, as a character.
pub open spec fn low_byte(c: u16) -> u8 {
    c as u8
}

/// The characters that PUTSP prints for one non-zero word: the low byte,
/// then the high byte unless it is zero.
pub open spec fn packed_chars(c: u16) -> Seq<u8> {
    if (c >> 8u16) != 0 {
        seq![c as u8, (c >> 8u16) as u8]
    } else {
        seq![c as u8]
    }
}

/// What PUTS prints from address `a` on, reading at most `fuel` words: one
/// character per word, up to (not including) the first zero word; and the
/// machine after those reads.
pub open spec fn puts_from(m: Machine, a: u16, fuel: nat) -> (Seq<u8>, Machine)
    decreases fuel,
{
    if fuel == 0 {
        (seq![], m)
    } else {
        let c = m.read_value(a);
        if c == 0 {
            (seq![], m.after_read(a))
        } else {
            let rest = puts_from(m.after_read(a), next_addr(a), (fuel - 1) as nat);
            (seq![low_byte(c)] + rest.0, rest.1)
        }
    }
}

/// What PUTSP prints from address `a` on, reading at most `fuel` words: two
/// characters packed per word, up to the first zero word; and the machine
/// after those reads.
pub open spec fn putsp_from(m: Machine, a: u16, fuel: nat) -> (Seq<u8>, Machine)
    decreases fuel,
{
    if fuel == 0 {
        (seq![], m)
    } else {
        let c = m.read_value(a);
        if c == 0 {
            (seq![], m.after_read(a))
        } else {
            let rest = putsp_from(m.after_read(a), next_addr(a), (fuel - 1) as nat);
            (packed_chars(c) + rest.0, rest.1)
        }
    }
}

/// A string scan reads at most one pass over memory.
pub open spec fn scan_limit() -> nat {
    0x10000
}

/// The effect of a TRAP instruction and the signal it gives the host.
/// GETC and IN without a pending key ask for one and change nothing; every
/// other case first links R7 to the program counter.
pub open spec fn trap_spec(m: Machine, instr: u16) -> (Machine, Signal) {
    let v = instr & 0xFFu16;
    let linked = m.with_regs(Registers { r7: m.regs.pc, ..m.regs });
    if v == 0x20 || v == 0x23 {
        if m.keys.len() == 0 {
            (m, Signal::NeedInput)
        } else {
            let k = m.keys[0];
            let m1 = Machine {
                regs: Registers { r0: k as u16, ..linked.regs },
                keys: m.keys.drop_first(),
                ..m
            };
            if v == 0x20 {
                (m1, Signal::Continue)
            } else {
                (m1, Signal::Output(in_prompt().push(k)))
            }
        }
    } else if v == 0x21 {
        (linked, Signal::Output(seq![low_byte(m.regs.r0)]))
    } else if v == 0x22 {
        let p = puts_from(linked, m.regs.r0, scan_limit());
        (p.1, Signal::Output(p.0))
    } else if v == 0x24 {
        let p = putsp_from(linked, m.regs.r0, scan_limit());
        (p.1, Signal::Output(p.0))
    } else if v == 0x25 {
        (linked, Signal::Halt)
    } else {
        (linked, Signal::InvalidTrap(v))
    }
}

/// The low bytes of the `k` words from address `a` on.
pub open spec fn low_bytes(mem: Seq<u16>, a: int, k: int) -> Seq<u8> {
    Seq::new(k as nat, |i: int| low_byte(mem[a + i]))
}

/// PUTS prints exactly the words before the first zero word and stops
/// there: with `k` non-zero words from `a` on and a zero word after them
/// (the keyboard status register not among them), the output is their low
/// bytes and the machine is unchanged, so nothing past the zero word is read.
pub proof fn lemma_puts_stops_at_zero(m: Machine, a: u16, k: nat, fuel: nat)
    requires
        m.wf(),
        a + k < 0x10000,
        k < fuel,
        forall|i: int| 0 <= i < k ==> #[trigger] m.mem[a + i] != 0,
        m.mem[a + k] == 0,
        KBSR < a || a + k < KBSR,
    ensures
        puts_from(m, a, fuel).0 == low_bytes(m.mem, a as int, k as int),
        puts_from(m, a, fuel).1 == m,
    decreases k,
{
    if k == 0 {
        assert(m.mem[a as int] == 0);
        assert(low_bytes(m.mem, a as int, 0) =~= Seq::<u8>::empty());
    } else {
        assert(m.mem[a + 0] != 0);
        let b = next_addr(a);
        assert(b == a + 1);
        assert forall|i: int| 0 <= i < k - 1 implies #[trigger] m.mem[b + i] != 0 by {
            assert(m.mem[a + (i + 1)] != 0);
        }
        assert(m.mem[b + (k - 1)] == 0);
        lemma_puts_stops_at_zero(m, b, (k - 1) as nat, (fuel - 1) as nat);
        assert(low_bytes(m.mem, a as int, k as int) =~= seq![low_byte(m.mem[a as int])] + low_bytes(
            m.mem,
            b as int,
            k - 1,
        ));
    }
}

/// PUTSP prints the low byte of a word, then its high byte unless that is
/// zero: a string of odd length, whose last word has a zero high byte,
/// ends with that word's low byte alone.
pub proof fn lemma_putsp_odd_tail(m: Machine, a: u16, fuel: nat)
    requires
        m.wf(),
        a + 1 < 0x10000,
        2 <= fuel,
        m.mem[a as int] != 0,
        m.mem[a as int] >> 8u16 == 0,
        m.mem[a + 1] == 0,
        a != KBSR,
        a + 1 != KBSR,
    ensures
        putsp_from(m, a, fuel).0 == seq![low_byte(m.mem[a as int])],
        putsp_from(m, a, fuel).1 == m,
{
    let b = next_addr(a);
    assert(b == a + 1);
    assert(putsp_from(m, b, (fuel - 1) as nat).0 == Seq::<u8>::empty());
    assert(seq![low_byte(m.mem[a as int])] + Seq::<u8>::empty() =~= seq![low_byte(m.mem[a as int])]);
}

/// PUTS: the characters from `start` up to the first zero word.
fn puts(vm: &mut VM, start: u16) -> (out: Vec<u8>)
    requires
        old(vm).wf(),
    ensures
        final(vm).wf(),
        out@ == puts_from(old(vm)@, start, scan_limit()).0,
        final(vm)@ == puts_from(old(vm)@, start, scan_limit()).1,
{
    let ghost m0 = vm@;
    let mut out: Vec<u8> = Vec::new();
    let mut index: u16 = start;
    let mut n: u32 = 0;
    while n < 0x10000
        invariant
            vm.wf(),
            n <= 0x10000,
            m0 == old(vm)@,
            puts_from(m0, start, scan_limit()).0 =~= out@ + puts_from(vm@, index, (0x10000 - n) as nat).0,
            puts_from(m0, start, scan_limit()).1 == puts_from(vm@, index, (0x10000 - n) as nat).1,
        decreases 0x10000 - n,
    {
        let ghost before = vm@;
        let ghost rem = (0x10000 - n) as nat;
        let c = vm.read_memory(index);
        if c == 0 {
            assert(puts_from(before, index, rem) == (Seq::<u8>::empty(), vm@));
            assert(out@ + Seq::<u8>::empty() =~= out@);
            assert(puts_from(m0, start, scan_limit()).0 == out@);
            assert(puts_from(m0, start, scan_limit()).1 == vm@);
            return out;
        }
        let ghost rest = puts_from(vm@, next_addr(index), (rem - 1) as nat);
        assert(puts_from(before, index, rem).0 == seq![low_byte(c)] + rest.0);
        out.push(#[verifier::truncate] (c as u8));
        assert(out@ + rest.0 =~= (out@.drop_last()) + (seq![low_byte(c)] + rest.0));
        index = if index == 0xFFFF { 0 } else { index + 1 };
        n = n + 1;
    }
    out
}

/// PUTSP: the packed characters from `start` up to the first zero word.
fn putsp(vm: &mut VM, start: u16) -> (out: Vec<u8>)
    requires
        old(vm).wf(),
    ensures
        final(vm).wf(),
        out@ == putsp_from(old(vm)@, start, scan_limit()).0,
        final(vm)@ == putsp_from(old(vm)@, start, scan_limit()).1,
{
    let ghost m0 = vm@;
    let mut out: Vec<u8> = Vec::new();
    let mut index: u16 = start;
    let mut n: u32 = 0;
    while n < 0x10000
        invariant
            vm.wf(),
            n <= 0x10000,
            m0 == old(vm)@,
            putsp_from(m0, start, scan_limit()).0 =~= out@ + putsp_from(vm@, index, (0x10000 - n) as nat).0,
            putsp_from(m0, start, scan_limit()).1 == putsp_from(vm@, index, (0x10000 - n) as nat).1,
        decreases 0x10000 - n,
    {
        let ghost before = vm@;
        let ghost rem = (0x10000 - n) as nat;
        let ghost out0 = out@;
        let c = vm.read_memory(index);
        if c == 0 {
            assert(putsp_from(before, index, rem) == (Seq::<u8>::empty(), vm@));
            assert(out@ + Seq::<u8>::empty() =~= out@);
            assert(putsp_from(m0, start, scan_limit()).0 == out@);
            assert(putsp_from(m0, start, scan_limit()).1 == vm@);
            return out;
        }
        let ghost rest = putsp_from(vm@, next_addr(index), (rem - 1) as nat);
        assert(putsp_from(before, index, rem).0 == packed_chars(c) + rest.0);
        out.push(#[verifier::truncate] (c as u8));
        let high = #[verifier::truncate] ((c >> 8u16) as u8);
        if (c >> 8u16) != 0 {
            out.push(high);
        }
        assert(out@ =~= out0 + packed_chars(c));
        assert(out@ + rest.0 =~= out0 + (packed_chars(c) + rest.0));
        index = if index == 0xFFFF { 0 } else { index + 1 };
        n = n + 1;
    }
    out
}

/// Runs the trap service routine selected by the low byte of `instr`.
pub fn trap(instr: u16, vm: &mut VM) -> (r: Outcome)
    requires
        old(vm).wf(),
    ensures
        final(vm).wf(),
        (final(vm)@, r@) == trap_spec(old(vm)@, instr),
{
    let trap_vector = instr & 0xFF;
    let pc = vm.registers.pc;
    if trap_vector == 0x20 || trap_vector == 0x23 {
        match vm.keyboard.pop_front() {
            None => Outcome::NeedInput,
            Some(key) => {
                vm.registers.r7 = pc;
                vm.registers.r0 = key as u16;
                if trap_vector == 0x20 {
                    Outcome::Continue
                } else {
                    let mut out = IN_PROMPT.as_bytes_vec();
                    out.push(key);
                    Outcome::Output(out)
                }
            },
        }
    } else {
        vm.registers.r7 = pc;
        if trap_vector == 0x21 {
            let mut out: Vec<u8> = Vec::new();
            out.push(#[verifier::truncate] (vm.registers.r0 as u8));
            Outcome::Output(out)
        } else if trap_vector == 0x22 {
            let start = vm.registers.r0;
            Outcome::Output(puts(vm, start))
        } else if trap_vector == 0x24 {
            let start = vm.registers.r0;
            Outcome::Output(putsp(vm, start))
        } else if trap_vector == 0x25 {
            Outcome::Halt
        } else {
            Outcome::InvalidTrap(trap_vector)
        }
    }
}

} // verus!
