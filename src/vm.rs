use vstd::prelude::*;
use crate::register::{Registers, PC_START};
use std::collections::VecDeque;

verus! {

/// Number of addressable 16-bit words.
pub const MEMORY_SIZE: usize = 65536;

/// Address of the keyboard status register.
pub const KBSR: u16 = 0xFE00;

/// Address of the keyboard data register.
pub const KBDR: u16 = 0xFE02;

/// The memory-mapped device registers.
#[derive(Clone, Copy, Debug, PartialEq, Eq, Structural)]
pub enum MemoryMappedReg {
    Kbsr,
    Kbdr,
}

impl MemoryMappedReg {
    /// The address at which the register is mapped.
    pub fn address(&self) -> (r: u16)
        ensures
            r == (match *self {
                MemoryMappedReg::Kbsr => KBSR,
                MemoryMappedReg::Kbdr => KBDR,
            }),
    {
        match self {
            MemoryMappedReg::Kbsr => KBSR,
            MemoryMappedReg::Kbdr => KBDR,
        }
    }
}

/// The abstract state of the machine: registers, the memory as a sequence
/// of words, and the keyboard bytes not yet consumed.
pub struct Machine {
    pub regs: Registers,
    pub mem: Seq<u16>,
    pub keys: Seq<u8>,
}

/// The address that follows `a`, wrapping at the end of memory.
pub open spec fn next_addr(a: u16) -> u16 {
    ((a as int + 1) % 0x10000) as u16
}

impl Machine {
    pub open spec fn wf(self) -> bool {
        self.mem.len() == MEMORY_SIZE
    }

    /// The machine after one poll of the keyboard: a pending non-zero byte
    /// lands in the data register and sets the status register's top bit;
    /// otherwise the status register is cleared. A pending byte is consumed.
    pub open spec fn polled(self) -> Machine {
        if self.keys.len() > 0 && self.keys[0] != 0 {
            Machine {
                mem: self.mem.update(KBSR as int, 0x8000).update(KBDR as int, self.keys[0] as u16),
                keys: self.keys.drop_first(),
                ..self
            }
        } else {
            Machine {
                mem: self.mem.update(KBSR as int, 0),
                keys: if self.keys.len() > 0 { self.keys.drop_first() } else { self.keys },
                ..self
            }
        }
    }

    /// The machine after a read of address `a`: only the status register polls.
    pub open spec fn after_read(self, a: u16) -> Machine {
        if a == KBSR {
            self.polled()
        } else {
            self
        }
    }

    /// The word that a read of address `a` returns.
    pub open spec fn read_value(self, a: u16) -> u16 {
        self.after_read(a).mem[a as int]
    }

    /// The machine with `v` stored at address `a`.
    pub open spec fn written(self, a: u16, v: u16) -> Machine {
        Machine { mem: self.mem.update(a as int, v), ..self }
    }

    /// The machine with its register bank replaced.
    pub open spec fn with_regs(self, regs: Registers) -> Machine {
        Machine { regs: regs, ..self }
    }
}

/// The emulated computer: memory, registers, and the keyboard bytes that
/// the host has delivered and the program has not yet consumed.
pub struct VM {
    pub memory: Vec<u16>,
    pub registers: Registers,
    pub keyboard: VecDeque<u8>,
}

impl View for VM {
    type V = Machine;

    open spec fn view(&self) -> Machine {
        Machine { regs: self.registers, mem: self.memory@, keys: self.keyboard@ }
    }
}

impl VM {
    /// The memory has exactly one word per address.
    pub open spec fn wf(&self) -> bool {
        self@.wf()
    }

    /// Zeroed memory, fresh registers and no pending keyboard input.
    pub fn new() -> (r: VM)
        ensures
            r.wf(),
            forall|i: int| 0 <= i < MEMORY_SIZE ==> r@.mem[i] == 0,
            r@.regs == Registers::new_spec(),
            r@.keys.len() == 0,
    {
        let memory: Vec<u16> = vec![0u16; MEMORY_SIZE];
        VM { memory, registers: Registers::new(), keyboard: VecDeque::new() }
    }

    /// Queues a byte of keyboard input for the program.
    pub fn push_key(&mut self, key: u8)
        ensures
            final(self)@ == (Machine { keys: old(self)@.keys.push(key), ..old(self)@ }),
    {
        self.keyboard.push_back(key);
    }

    /// Stores `value` at `address`.
    pub fn write_memory(&mut self, address: usize, value: u16)
        requires
            old(self).wf(),
            address < MEMORY_SIZE,
        ensures
            final(self).wf(),
            final(self)@ == old(self)@.written(address as u16, value),
    {
        self.memory.set(address, value);
    }

    /// Reads the word at `address`; a read of the keyboard status register
    /// polls the keyboard first.
    pub fn read_memory(&mut self, address: u16) -> (r: u16)
        requires
            old(self).wf(),
        ensures
            final(self).wf(),
            r == old(self)@.read_value(address),
            final(self)@ == old(self)@.after_read(address),
    {
        if address == MemoryMappedReg::Kbsr.address() {
            self.handle_keyboard();
        }
        self.memory[address as usize]
    }

    fn handle_keyboard(&mut self)
        requires
            old(self).wf(),
        ensures
            final(self).wf(),
            final(self)@ == old(self)@.polled(),
    {
        let key = self.keyboard.pop_front();
        match key {
            Some(b) => {
                if b != 0 {
                    self.write_memory(KBSR as usize, 0x8000);
                    self.write_memory(KBDR as usize, b as u16);
                } else {
                    self.write_memory(KBSR as usize, 0);
                }
            },
            None => {
                self.write_memory(KBSR as usize, 0);
            },
        }
        assert(self@ =~= old(self)@.polled());
    }
}

} // verus!
