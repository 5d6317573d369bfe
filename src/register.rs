use vstd::prelude::*;

verus! {

/// Address at which execution starts.
pub const PC_START: u16 = 0x3000;

/// The three mutually exclusive condition codes.
#[derive(Clone, Copy, Debug, PartialEq, Eq, Structural)]
pub enum ConditionFlag {
    POS,
    ZRO,
    NEG,
}

/// The bit pattern that the condition register holds for a flag.
pub open spec fn flag_bits(f: ConditionFlag) -> u16 {
    match f {
        ConditionFlag::POS => 0x1,
        ConditionFlag::ZRO => 0x2,
        ConditionFlag::NEG => 0x4,
    }
}

/// The flag that a result value sets: zero, negative (sign bit set) or positive.
pub open spec fn flag_for(v: u16) -> ConditionFlag {
    if v == 0 {
        ConditionFlag::ZRO
    } else if v >= 0x8000 {
        ConditionFlag::NEG
    } else {
        ConditionFlag::POS
    }
}

/// The condition register's content after a result `v` was written.
pub open spec fn cond_of(v: u16) -> u16 {
    flag_bits(flag_for(v))
}

impl ConditionFlag {
    /// The bit pattern of this flag in the condition register.
    pub fn bits(&self) -> (r: u16)
        ensures
            r == flag_bits(*self),
    {
        match self {
            ConditionFlag::POS => 0x1,
            ConditionFlag::ZRO => 0x2,
            ConditionFlag::NEG => 0x4,
        }
    }
}

/// Flag derivation is exact and the three outcomes exclude each other:
/// zero gives ZRO, a set sign bit gives NEG, anything else POS.
pub proof fn lemma_flags_exclusive(v: u16)
    ensures
        (cond_of(v) == 0x2) <==> v == 0,
        (cond_of(v) == 0x4) <==> (v >> 15u16) == 1,
        (cond_of(v) == 0x1) <==> (v != 0 && (v >> 15u16) == 0),
        cond_of(v) == 0x1 || cond_of(v) == 0x2 || cond_of(v) == 0x4,
{
    assert((v >> 15u16) == 1 <==> v >= 0x8000) by (bit_vector);
    assert((v >> 15u16) == 0 <==> v < 0x8000) by (bit_vector);
}

/// The register bank: eight general-purpose registers, the program counter
/// (index 8) and the condition register (index 9).
#[derive(Clone, Copy, Debug, PartialEq, Eq, Structural)]
pub struct Registers {
    pub r0: u16,
    pub r1: u16,
    pub r2: u16,
    pub r3: u16,
    pub r4: u16,
    pub r5: u16,
    pub r6: u16,
    pub r7: u16,
    pub pc: u16,
    pub cond: u16,
}

impl Registers {
    /// The register at `i` (0 to 9).
    pub open spec fn reg(self, i: int) -> u16 {
        if i == 0 {
            self.r0
        } else if i == 1 {
            self.r1
        } else if i == 2 {
            self.r2
        } else if i == 3 {
            self.r3
        } else if i == 4 {
            self.r4
        } else if i == 5 {
            self.r5
        } else if i == 6 {
            self.r6
        } else if i == 7 {
            self.r7
        } else if i == 8 {
            self.pc
        } else {
            self.cond
        }
    }

    /// This bank with the register at `i` (0 to 9) set to `v`.
    pub open spec fn with_reg(self, i: int, v: u16) -> Registers {
        if i == 0 {
            Registers { r0: v, ..self }
        } else if i == 1 {
            Registers { r1: v, ..self }
        } else if i == 2 {
            Registers { r2: v, ..self }
        } else if i == 3 {
            Registers { r3: v, ..self }
        } else if i == 4 {
            Registers { r4: v, ..self }
        } else if i == 5 {
            Registers { r5: v, ..self }
        } else if i == 6 {
            Registers { r6: v, ..self }
        } else if i == 7 {
            Registers { r7: v, ..self }
        } else if i == 8 {
            Registers { pc: v, ..self }
        } else {
            Registers { cond: v, ..self }
        }
    }

    /// This bank with the register at `i` set to `v` and the flags derived from `v`.
    pub open spec fn with_result(self, i: int, v: u16) -> Registers {
        self.with_reg(i, v).with_reg(9, cond_of(v))
    }

    /// The bank at start-up: all registers zero, the program counter at the start address.
    pub open spec fn new_spec() -> Registers {
        Registers { r0: 0, r1: 0, r2: 0, r3: 0, r4: 0, r5: 0, r6: 0, r7: 0, pc: PC_START, cond: 0 }
    }

    /// All registers zero, the program counter at the start address.
    pub fn new() -> (r: Registers)
        ensures
            r == Registers::new_spec(),
    {
        Registers { r0: 0, r1: 0, r2: 0, r3: 0, r4: 0, r5: 0, r6: 0, r7: 0, pc: PC_START, cond: 0 }
    }

    /// Sets the register at `index`; an index above 9 is not a register.
    pub fn update(&mut self, index: u16, value: u16)
        requires
            index <= 9,
        ensures
            *final(self) == old(self).with_reg(index as int, value),
    {
        match index {
            0 => self.r0 = value,
            1 => self.r1 = value,
            2 => self.r2 = value,
            3 => self.r3 = value,
            4 => self.r4 = value,
            5 => self.r5 = value,
            6 => self.r6 = value,
            7 => self.r7 = value,
            8 => self.pc = value,
            _ => self.cond = value,
        }
    }

    /// Reads the register at `index`; an index above 9 is not a register.
    pub fn get(&self, index: u16) -> (r: u16)
        requires
            index <= 9,
        ensures
            r == self.reg(index as int),
    {
        match index {
            0 => self.r0,
            1 => self.r1,
            2 => self.r2,
            3 => self.r3,
            4 => self.r4,
            5 => self.r5,
            6 => self.r6,
            7 => self.r7,
            8 => self.pc,
            _ => self.cond,
        }
    }

    /// Derives the condition register from the value of register `r`.
    pub fn update_r_cond_register(&mut self, r: u16)
        requires
            r <= 9,
        ensures
            *final(self) == old(self).with_reg(9, cond_of(old(self).reg(r as int))),
    {
        let v = self.get(r);
        if v == 0 {
            self.update(9, ConditionFlag::ZRO.bits());
        } else if (v >> 15u16) != 0 {
            assert((v >> 15u16) != 0 <==> v >= 0x8000) by (bit_vector);
            self.update(9, ConditionFlag::NEG.bits());
        } else {
            assert((v >> 15u16) == 0 <==> v < 0x8000) by (bit_vector);
            self.update(9, ConditionFlag::POS.bits());
        }
    }
}

} // verus!
