use vstd::prelude::*;
use byteorder::ByteOrder;
use crate::instruction::{execute_instruction, instr_spec, opcode_of, OpCode, Outcome, Signal};
use crate::register::Registers;
use crate::vm::{next_addr, Machine, KBSR, MEMORY_SIZE, VM};

verus! {

/// One fetch-increment-execute cycle. An instruction that waits for a key
/// leaves the whole machine as it was, so that it runs again once a key has
/// been queued.
pub open spec fn step_spec(m: Machine) -> (Machine, Signal) {
    let pc = m.regs.pc;
    let fetched = m.after_read(pc);
    let advanced = fetched.with_regs(Registers { pc: next_addr(pc), ..fetched.regs });
    let r = instr_spec(advanced, m.read_value(pc));
    if r.1 is NeedInput {
        (m, Signal::NeedInput)
    } else {
        r
    }
}

/// Up to `fuel` cycles, stopping at the first that has something for the host.
pub open spec fn run_spec(m: Machine, fuel: nat) -> (Machine, Signal)
    decreases fuel,
{
    if fuel == 0 {
        (m, Signal::Continue)
    } else {
        let s = step_spec(m);
        if s.1 is Continue {
            run_spec(s.0, (fuel - 1) as nat)
        } else {
            s
        }
    }
}

/// Fetches the word at the program counter, advances the counter and
/// executes the word.
pub fn step(vm: &mut VM) -> (r: Outcome)
    requires
        old(vm).wf(),
    ensures
        final(vm).wf(),
        (final(vm)@, r@) == step_spec(old(vm)@),
{
    let ghost m0 = vm@;
    let pc = vm.registers.pc;
    let instr = vm.read_memory(pc);
    vm.registers.pc = if pc == 0xFFFF { 0 } else { pc + 1 };
    let r = execute_instruction(instr, vm);
    if let Outcome::NeedInput = r {
        proof {
            // Only TRAP waits for a key, and a fetch from the keyboard
            // status register never yields a TRAP word.
            assert(0x8000u16 >> 12u16 == 8u16) by (bit_vector);
            assert(0u16 >> 12u16 == 0u16) by (bit_vector);
            assert(opcode_of(instr) == OpCode::TRAP);
            assert(pc != KBSR);
        }
        vm.registers.pc = pc;
        assert(vm@.regs == m0.regs);
        assert(vm@ == m0);
    }
    r
}

/// Runs at most `max_steps` cycles, until one of them has something for
/// the host: output, a wait for a key, a halt, an invalid trap or an
/// unsupported opcode. `Continue` means the budget ran out.
pub fn execute_program(vm: &mut VM, max_steps: u64) -> (r: Outcome)
    requires
        old(vm).wf(),
    ensures
        final(vm).wf(),
        (final(vm)@, r@) == run_spec(old(vm)@, max_steps as nat),
{
    let mut left: u64 = max_steps;
    while left > 0
        invariant
            vm.wf(),
            left <= max_steps,
            run_spec(old(vm)@, max_steps as nat) == run_spec(vm@, left as nat),
        decreases left,
    {
        let r = step(vm);
        left = left - 1;
        match r {
            Outcome::Continue => {},
            _ => {
                return r;
            },
        }
    }
    Outcome::Continue
}

/// Why a program image could not be loaded.
#[derive(Clone, Copy, Debug, PartialEq, Eq, Structural)]
pub enum ImageError {
    /// The image holds no complete origin word.
    MissingOrigin,
    /// The words would run past the last address.
    TooLarge,
}

/// The big-endian word made of two bytes.
pub open spec fn be_word(hi: u8, lo: u8) -> u16 {
    (hi as int * 256 + lo as int) as u16
}

/// The load address: the image's first word.
pub open spec fn origin(image: Seq<u8>) -> u16 {
    be_word(image[0], image[1])
}

/// How many complete words follow the origin; a trailing odd byte is ignored.
pub open spec fn word_count(image: Seq<u8>) -> int {
    (image.len() - 2) / 2
}

/// The `j`-th word after the origin.
pub open spec fn image_word(image: Seq<u8>, j: int) -> u16 {
    be_word(image[2 + 2 * j], image[3 + 2 * j])
}

/// Relies on byteorder's `BigEndian::read_u16`: the first byte is the high one.
#[verifier::external_body]
fn read_be_word(hi: u8, lo: u8) -> (r: u16)
    ensures
        r == be_word(hi, lo),
{
    byteorder::BigEndian::read_u16(&[hi, lo])
}

/// Loads a program image: a big-endian origin word, then big-endian words
/// stored at consecutive addresses from the origin. Returns the origin.
pub fn load_image(vm: &mut VM, image: &Vec<u8>) -> (r: Result<u16, ImageError>)
    requires
        old(vm).wf(),
    ensures
        final(vm).wf(),
        image@.len() < 2 <==> r == Err::<u16, ImageError>(ImageError::MissingOrigin),
        (image@.len() >= 2 && origin(image@) + word_count(image@) > MEMORY_SIZE) <==> r
            == Err::<u16, ImageError>(ImageError::TooLarge),
        r is Err ==> final(vm)@ == old(vm)@,
        r is Ok ==> {
            &&& r == Ok::<u16, ImageError>(origin(image@))
            &&& final(vm)@.regs == old(vm)@.regs
            &&& final(vm)@.keys == old(vm)@.keys
            &&& forall|a: int|
                0 <= a < MEMORY_SIZE ==> #[trigger] final(vm)@.mem[a] == if origin(image@) <= a
                    < origin(image@) + word_count(image@) {
                    image_word(image@, a - origin(image@))
                } else {
                    old(vm)@.mem[a]
                }
        },
{
    if image.len() < 2 {
        return Err(ImageError::MissingOrigin);
    }
    let base = read_be_word(image[0], image[1]);
    let count: usize = (image.len() - 2) / 2;
    if base as usize + count > MEMORY_SIZE {
        return Err(ImageError::TooLarge);
    }
    let mut j: usize = 0;
    while j < count
        invariant
            vm.wf(),
            base == origin(image@),
            count == word_count(image@),
            base + count <= MEMORY_SIZE,
            j <= count,
            vm@.regs == old(vm)@.regs,
            vm@.keys == old(vm)@.keys,
            forall|a: int|
                0 <= a < MEMORY_SIZE ==> #[trigger] vm@.mem[a] == if base <= a < base + j {
                    image_word(image@, a - base)
                } else {
                    old(vm)@.mem[a]
                },
        decreases count - j,
    {
        let word = read_be_word(image[2 + 2 * j], image[3 + 2 * j]);
        vm.write_memory(base as usize + j, word);
        j = j + 1;
    }
    Ok(base)
}

} // verus!
