//! The register and status-flag state of the emulated 8-bit processor.

use vstd::prelude::*;

verus! {

/// One 8-bit general-purpose register (the accumulator or an index register).
///
/// Values are not range-checked against any semantic meaning: every byte is a
/// valid register content.
#[derive(Clone, Copy, Debug, PartialEq, Eq, Structural)]
pub struct Register {
    pub value: u8,
}

impl Register {
    pub fn get(&self) -> (r: u8)
        ensures
            r == self.value,
    {
        self.value
    }

    pub fn set(&mut self, value: u8)
        ensures
            final(self).value == value,
    {
        self.value = value;
    }
}

/// The 16-bit cursor into the instruction stream.
///
/// Advancing past 0xFFFF wraps to zero; it never fails.
#[derive(Clone, Copy, Debug, PartialEq, Eq, Structural)]
pub struct ProgramCounter {
    pub value: u16,
}

/// The program-counter value after one advance: one more, wrapping at the
/// 16-bit boundary.
pub open spec fn spec_pc_next(value: u16) -> u16 {
    if value == 0xFFFF {
        0
    } else {
        (value + 1) as u16
    }
}

impl ProgramCounter {
    pub fn get(&self) -> (r: u16)
        ensures
            r == self.value,
    {
        self.value
    }

    pub fn increment(&mut self)
        ensures
            final(self).value == spec_pc_next(old(self).value),
    {
        if self.value == 0xFFFF {
            self.value = 0;
        } else {
            self.value = self.value + 1;
        }
    }
}

/// The independent boolean condition flags recomputed after the register
/// mutations that document a flag side effect.
#[derive(Clone, Copy, Debug, PartialEq, Eq, Structural)]
pub struct CpuFlags {
    pub zero: bool,
    pub negative: bool,
}

/// The flag values that follow from a freshly written register value: Zero
/// exactly for zero, Negative exactly when bit 7 is set.
pub open spec fn spec_flags_for(value: u8) -> CpuFlags {
    CpuFlags { zero: value == 0, negative: (value & 0x80) != 0 }
}

/// Bit 7 of a byte is set exactly for the values 0x80 and above, so those are
/// exactly the values that set the Negative flag.
pub proof fn lemma_negative_is_high_bit(value: u8)
    ensures
        spec_flags_for(value).negative == (value >= 0x80),
{
    assert(((value & 0x80) != 0) == (value >= 0x80)) by (bit_vector);
}

/// The full register file: accumulator, index register, program counter and
/// status flags.
#[derive(Clone, Copy, Debug, PartialEq, Eq, Structural)]
pub struct Cpu {
    pub register_a: Register,
    pub register_x: Register,
    pub program_counter: ProgramCounter,
    pub flags: CpuFlags,
}

impl Default for Cpu {
    /// A freshly powered-on processor: all registers zero, all flags clear.
    fn default() -> (r: Self)
        ensures
            r.register_a.value == 0,
            r.register_x.value == 0,
            r.program_counter.value == 0,
            !r.flags.zero,
            !r.flags.negative,
    {
        Cpu {
            register_a: Register { value: 0 },
            register_x: Register { value: 0 },
            program_counter: ProgramCounter { value: 0 },
            flags: CpuFlags { zero: false, negative: false },
        }
    }
}

impl Cpu {
    /// Recompute the Zero flag from a freshly written register value.
    pub fn update_zero_flag(&mut self, value: u8)
        ensures
            final(self).flags.zero == (value == 0),
            final(self).flags.negative == old(self).flags.negative,
            final(self).register_a == old(self).register_a,
            final(self).register_x == old(self).register_x,
            final(self).program_counter == old(self).program_counter,
    {
        self.flags.zero = value == 0;
    }

    /// Recompute the Negative flag from a freshly written register value.
    pub fn update_negative_flag(&mut self, value: u8)
        ensures
            final(self).flags.negative == ((value & 0x80) != 0),
            final(self).flags.zero == old(self).flags.zero,
            final(self).register_a == old(self).register_a,
            final(self).register_x == old(self).register_x,
            final(self).program_counter == old(self).program_counter,
    {
        self.flags.negative = (value & 0x80) != 0;
    }
}

} // verus!
