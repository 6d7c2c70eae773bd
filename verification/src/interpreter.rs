//! The fetch-decode-execute loop over a borrowed instruction stream.
//!
//! The meaning of interpretation is pinned down by a small-step relation:
//! [`spec_step`] gives the outcome of one fetch-decode-execute cycle, and
//! [`spec_run`] iterates it under a fuel bound. The executable interpreter is
//! proved to return exactly what some iteration of [`spec_step`] yields; the
//! fuel is only a proof device, since a stream may loop forever once the
//! program counter wraps.

use vstd::prelude::*;
use crate::cpu::{Cpu, Register, ProgramCounter, spec_flags_for, spec_pc_next};
use crate::error::Error;

verus! {

/// The reserved halt opcode: ends interpretation cleanly.
pub const OPCODE_HALT: u8 = 0x00;

/// Load-accumulator-immediate: one operand byte follows the opcode.
pub const OPCODE_LDA_IMMEDIATE: u8 = 0xA9;

/// Transfer-accumulator-to-index: no operand.
pub const OPCODE_TAX: u8 = 0xAA;

/// The byte fetched at a program-counter position: present exactly when the
/// position lies inside the stream.
pub open spec fn spec_fetch(source: Seq<u8>, pc: u16) -> Option<u8> {
    if pc < source.len() {
        Some(source[pc as int])
    } else {
        None
    }
}

/// The processor with its program counter advanced by one, wrapping at the
/// 16-bit boundary; nothing else changes.
pub open spec fn spec_pc_incremented(cpu: Cpu) -> Cpu {
    Cpu {
        program_counter: ProgramCounter { value: spec_pc_next(cpu.program_counter.value) },
        ..cpu
    }
}

/// The processor after load-accumulator-immediate stored `value`: the
/// accumulator holds exactly `value` and both flags are recomputed from it.
pub open spec fn spec_lda(cpu: Cpu, value: u8) -> Cpu {
    Cpu { register_a: Register { value }, flags: spec_flags_for(value), ..cpu }
}

/// The processor after transfer-accumulator-to-index: the index register
/// holds exactly the accumulator value and both flags are recomputed from
/// that new index value.
pub open spec fn spec_tax(cpu: Cpu) -> Cpu {
    Cpu {
        register_x: cpu.register_a,
        flags: spec_flags_for(cpu.register_a.value),
        ..cpu
    }
}

/// The outcome of one fetch-decode-execute cycle.
pub enum Step {
    /// Interpretation ends cleanly with this processor state: the counter ran
    /// past the stream, or the fetched opcode was the halt opcode.
    Halted(Cpu),
    /// Interpretation ends with an error, leaving this processor state.
    Failed(Cpu, Error),
    /// The cycle completed; interpretation goes on from this state.
    Continue(Cpu),
}

/// One cycle of the interpretation loop: fetch the opcode at the counter
/// (running past the stream is a natural halt), stop cleanly on the halt
/// opcode, otherwise advance the counter past the opcode and dispatch.
///
/// Dispatch is total: load-accumulator-immediate fetches one operand byte the
/// same way (its absence is an error naming the position where it was
/// expected), transfer-accumulator-to-index takes none, and every other
/// opcode byte is an error carrying that exact byte.
pub open spec fn spec_step(source: Seq<u8>, cpu: Cpu) -> Step {
    match spec_fetch(source, cpu.program_counter.value) {
        None => Step::Halted(cpu),
        Some(opcode) => {
            if opcode == OPCODE_HALT {
                Step::Halted(cpu)
            } else {
                let fetched = spec_pc_incremented(cpu);
                if opcode == OPCODE_LDA_IMMEDIATE {
                    match spec_fetch(source, fetched.program_counter.value) {
                        Some(value) => Step::Continue(spec_lda(spec_pc_incremented(fetched), value)),
                        None => Step::Failed(
                            fetched,
                            Error::ExpectedParameter(fetched.program_counter.value),
                        ),
                    }
                } else if opcode == OPCODE_TAX {
                    Step::Continue(spec_tax(fetched))
                } else {
                    Step::Failed(fetched, Error::UnsupportedOpcode(opcode))
                }
            }
        },
    }
}

/// Iterated interpretation under a fuel bound: `None` while the loop is still
/// running after `fuel` cycles, otherwise the final processor state paired
/// with the clean or failed outcome. The relation is deterministic, so any
/// two sufficient fuels agree.
pub open spec fn spec_run(source: Seq<u8>, cpu: Cpu, fuel: nat) -> Option<(Cpu, Result<(), Error>)>
    decreases fuel,
{
    if fuel == 0 {
        None
    } else {
        match spec_step(source, cpu) {
            Step::Halted(c) => Some((c, Ok(()))),
            Step::Failed(c, e) => Some((c, Err(e))),
            Step::Continue(c) => spec_run(source, c, (fuel - 1) as nat),
        }
    }
}

/// The interpreter: a borrowed, immutable instruction stream (swappable
/// between runs) and the processor state it drives.
#[derive(Debug)]
pub struct Interpreter<'a> {
    pub source: Option<&'a [u8]>,
    pub cpu: Cpu,
}

impl<'a> Interpreter<'a> {
    /// Whether an instruction stream is present.
    pub open spec fn loaded(self) -> bool {
        self.source.is_some()
    }

    /// The bytes of the loaded instruction stream.
    pub open spec fn src(self) -> Seq<u8> {
        self.source.unwrap()@
    }

    pub fn new(source: Option<&'a [u8]>, cpu: Cpu) -> (r: Self)
        ensures
            r.loaded() == source.is_some(),
            source matches Some(s) ==> r.src() == s@,
            r.cpu == cpu,
    {
        Interpreter { source, cpu }
    }

    /// Swap in an instruction stream for the next run.
    pub fn load(&mut self, source: &'a [u8])
        ensures
            final(self).loaded(),
            final(self).src() == source@,
            final(self).cpu == old(self).cpu,
    {
        self.source = Some(source);
    }

    /// Fetch the byte at the current program-counter position, if the stream
    /// still holds one.
    fn get_current_opcode(&self) -> (r: Option<u8>)
        requires
            self.loaded(),
        ensures
            r == spec_fetch(self.src(), self.cpu.program_counter.value),
    {
        let pc = self.cpu.program_counter.get();
        match self.source {
            Some(src) => {
                if (pc as usize) < src.len() {
                    Some(src[pc as usize])
                } else {
                    None
                }
            },
            None => None,
        }
    }

    /// The load-accumulator-immediate handler: fetch one operand byte, store
    /// it into the accumulator, recompute both flags from it. Without an
    /// operand byte nothing is mutated.
    fn lda_immediate(&mut self) -> (r: Result<(), Error>)
        requires
            old(self).loaded(),
        ensures
            final(self).loaded(),
            final(self).src() == old(self).src(),
            (match spec_fetch(old(self).src(), old(self).cpu.program_counter.value) {
                Some(value) => r == Ok::<(), Error>(()) && final(self).cpu == spec_lda(
                    spec_pc_incremented(old(self).cpu),
                    value,
                ),
                None => r == Err::<(), Error>(Error::ExpectedParameter(
                    old(self).cpu.program_counter.value,
                )) && final(self).cpu == old(self).cpu,
            }),
    {
        match self.get_current_opcode() {
            Some(value) => {
                self.cpu.program_counter.increment();
                self.cpu.register_a.set(value);
                let register_a = self.cpu.register_a.get();
                self.cpu.update_zero_flag(register_a);
                self.cpu.update_negative_flag(register_a);
                Ok(())
            },
            None => Err(Error::ExpectedParameter(self.cpu.program_counter.get())),
        }
    }

    /// The transfer-accumulator-to-index handler: copy the accumulator into
    /// the index register, recompute both flags from the new index value.
    fn tax(&mut self) -> (r: Result<(), Error>)
        ensures
            final(self).loaded() == old(self).loaded(),
            old(self).loaded() ==> final(self).src() == old(self).src(),
            r == Ok::<(), Error>(()),
            final(self).cpu == spec_tax(old(self).cpu),
    {
        let register_a = self.cpu.register_a.get();
        self.cpu.register_x.set(register_a);
        let register_x = self.cpu.register_x.get();
        self.cpu.update_zero_flag(register_x);
        self.cpu.update_negative_flag(register_x);
        Ok(())
    }

    /// The opcode table: dispatch a fetched opcode byte to its handler. Total
    /// by construction: any byte without a registered handler is an
    /// unsupported-opcode error carrying that byte, never silently skipped.
    fn handle_opcode(&mut self, opcode: u8) -> (r: Result<(), Error>)
        requires
            old(self).loaded(),
        ensures
            final(self).loaded(),
            final(self).src() == old(self).src(),
            opcode == OPCODE_LDA_IMMEDIATE ==> (match spec_fetch(
                old(self).src(),
                old(self).cpu.program_counter.value,
            ) {
                Some(value) => r == Ok::<(), Error>(()) && final(self).cpu == spec_lda(
                    spec_pc_incremented(old(self).cpu),
                    value,
                ),
                None => r == Err::<(), Error>(Error::ExpectedParameter(
                    old(self).cpu.program_counter.value,
                )) && final(self).cpu == old(self).cpu,
            }),
            opcode == OPCODE_TAX ==> (r == Ok::<(), Error>(()) && final(self).cpu == spec_tax(
                old(self).cpu,
            )),
            opcode != OPCODE_LDA_IMMEDIATE && opcode != OPCODE_TAX ==> (r == Err::<(), Error>(
                Error::UnsupportedOpcode(opcode),
            ) && final(self).cpu == old(self).cpu),
    {
        match opcode {
            0xA9 => self.lda_immediate(),
            0xAA => self.tax(),
            code => Err(Error::UnsupportedOpcode(code)),
        }
    }

    /// One full cycle past the fetch: advance the counter over the already
    /// fetched opcode, then dispatch. The caller has ruled out the halt
    /// opcode, so the cycle either continues or fails as [`spec_step`] says.
    fn step(&mut self, opcode: u8) -> (r: Result<(), Error>)
        requires
            old(self).loaded(),
            old(self).cpu.program_counter.value < old(self).src().len(),
            opcode == old(self).src()[old(self).cpu.program_counter.value as int],
            opcode != OPCODE_HALT,
        ensures
            final(self).loaded(),
            final(self).src() == old(self).src(),
            (match spec_step(old(self).src(), old(self).cpu) {
                Step::Continue(c) => r == Ok::<(), Error>(()) && final(self).cpu == c,
                Step::Failed(c, e) => r == Err::<(), Error>(e) && final(self).cpu == c,
                Step::Halted(_) => false,
            }),
    {
        self.cpu.program_counter.increment();
        self.handle_opcode(opcode)
    }

    /// Drive the fetch-decode-execute loop until a clean halt (the halt
    /// opcode, or the counter running past the stream) or the first error.
    ///
    /// Without a loaded stream nothing is mutated and the call fails. With
    /// one, the returned outcome and the final processor state are exactly
    /// what iterating [`spec_step`] from the starting state yields.
    ///
    /// The stream must fit strictly inside the program counter's range: on a
    /// stream one past it the counter could wrap back into the stream and
    /// re-execute it without ever running past the end, so interpretation
    /// could not be shown to come back at all.
    pub fn interpret(&mut self) -> (r: Result<(), Error>)
        requires
            old(self).loaded() ==> old(self).src().len() <= 0xFFFF,
        ensures
            final(self).loaded() == old(self).loaded(),
            old(self).loaded() ==> final(self).src() == old(self).src(),
            !old(self).loaded() ==> (r == Err::<(), Error>(Error::NoSourceLoaded)
                && final(self).cpu == old(self).cpu),
            old(self).loaded() ==> (exists|fuel: nat|
                #[trigger] spec_run(old(self).src(), old(self).cpu, fuel) == Some(
                    (final(self).cpu, r),
                )),
    {
        if self.source.is_none() {
            return Err(Error::NoSourceLoaded);
        }
        let ghost source = self.src();
        let ghost cpu0 = self.cpu;
        let ghost mut steps: nat = 0;
        loop
            invariant
                self.loaded(),
                self.src() == source,
                old(self).loaded(),
                source == old(self).src(),
                cpu0 == old(self).cpu,
                source.len() <= 0xFFFF,
                forall|f: nat|
                    spec_run(source, cpu0, steps + f) == #[trigger] spec_run(source, self.cpu, f),
            decreases source.len() - self.cpu.program_counter.value,
        {
            let opcode_opt = self.get_current_opcode();
            match opcode_opt {
                None => {
                    proof {
                        assert(spec_step(source, self.cpu) == Step::Halted(self.cpu));
                        assert(spec_run(source, self.cpu, 1nat) == Some(
                            (self.cpu, Ok::<(), Error>(())),
                        ));
                        assert(spec_run(source, cpu0, steps + 1nat) == Some(
                            (self.cpu, Ok::<(), Error>(())),
                        ));
                    }
                    return Ok(());
                },
                Some(opcode) => {
                    if opcode == OPCODE_HALT {
                        proof {
                            assert(spec_step(source, self.cpu) == Step::Halted(self.cpu));
                            assert(spec_run(source, self.cpu, 1nat) == Some(
                                (self.cpu, Ok::<(), Error>(())),
                            ));
                            assert(spec_run(source, cpu0, steps + 1nat) == Some(
                                (self.cpu, Ok::<(), Error>(())),
                            ));
                        }
                        return Ok(());
                    }
                    let ghost pre = self.cpu;
                    let res = self.step(opcode);
                    match res {
                        Ok(_) => {
                            proof {
                                assert(spec_step(source, pre) == Step::Continue(self.cpu));
                                assert(self.cpu.program_counter.value
                                    > pre.program_counter.value);
                                assert forall|f: nat|
                                    spec_run(source, cpu0, (steps + 1nat) + f)
                                        == #[trigger] spec_run(source, self.cpu, f) by {
                                    assert(spec_run(source, cpu0, steps + (f + 1nat)) == spec_run(
                                        source,
                                        pre,
                                        f + 1nat,
                                    ));
                                    assert(spec_run(source, pre, f + 1nat) == spec_run(
                                        source,
                                        self.cpu,
                                        f,
                                    ));
                                }
                                steps = steps + 1;
                            }
                        },
                        Err(e) => {
                            proof {
                                assert(spec_step(source, pre) == Step::Failed(self.cpu, e));
                                assert(spec_run(source, pre, 1nat) == Some(
                                    (self.cpu, Err::<(), Error>(e)),
                                ));
                                assert(spec_run(source, cpu0, steps + 1nat) == Some(
                                    (self.cpu, Err::<(), Error>(e)),
                                ));
                            }
                            return Err(e);
                        },
                    }
                },
            }
        }
    }
}

/// Iterated interpretation is deterministic in the fuel: once enough fuel
/// brings the loop to its outcome, any larger fuel yields the same outcome.
/// Together with the contract of [`Interpreter::interpret`] this pins the
/// returned state and result down uniquely.
pub proof fn lemma_run_fuel_monotonic(source: Seq<u8>, cpu: Cpu, f1: nat, f2: nat)
    requires
        f1 <= f2,
        spec_run(source, cpu, f1) is Some,
    ensures
        spec_run(source, cpu, f2) == spec_run(source, cpu, f1),
    decreases f1,
{
    if f1 > 0 {
        match spec_step(source, cpu) {
            Step::Continue(c) => {
                lemma_run_fuel_monotonic(source, c, (f1 - 1) as nat, (f2 - 1) as nat);
            },
            _ => {},
        }
    }
}

/// Loading a value into the accumulator stores exactly that value, leaves the
/// index register alone, and recomputes the flags from the new value: Zero
/// exactly for zero, Negative exactly when bit 7 is set, which are the values
/// 0x80 and above.
pub proof fn lemma_load_accumulator_flags(cpu: Cpu, value: u8)
    ensures
        spec_lda(cpu, value).register_a.value == value,
        spec_lda(cpu, value).register_x == cpu.register_x,
        spec_lda(cpu, value).flags.zero == (value == 0),
        spec_lda(cpu, value).flags.negative == ((value & 0x80) != 0),
        spec_lda(cpu, value).flags.negative == (value >= 0x80),
{
    crate::cpu::lemma_negative_is_high_bit(value);
}

/// Transfer-accumulator-to-index copies the exact accumulator value into the
/// index register and recomputes the flags from that new index value.
pub proof fn lemma_transfer_copies_accumulator(cpu: Cpu)
    ensures
        spec_tax(cpu).register_x.value == cpu.register_a.value,
        spec_tax(cpu).register_a == cpu.register_a,
        spec_tax(cpu).flags == spec_flags_for(cpu.register_a.value),
{
}

/// The flags after a transfer depend only on the accumulator value: any two
/// processors with equal accumulators agree on them, whatever flag history
/// either carries.
pub proof fn lemma_transfer_flags_ignore_history(a: Cpu, b: Cpu)
    requires
        a.register_a == b.register_a,
    ensures
        spec_tax(a).flags == spec_tax(b).flags,
{
}

/// The halt opcode terminates interpretation cleanly wherever it stands in
/// the stream, leaving the processor state exactly as it was.
pub proof fn lemma_halt_opcode_terminates(source: Seq<u8>, cpu: Cpu, fuel: nat)
    requires
        cpu.program_counter.value < source.len(),
        source[cpu.program_counter.value as int] == OPCODE_HALT,
        fuel >= 1,
    ensures
        spec_run(source, cpu, fuel) == Some((cpu, Ok::<(), Error>(()))),
{
}

/// An opcode byte outside the table fails with exactly that byte, and
/// mutates no register and no flag; only the program counter has moved past
/// the offending opcode.
pub proof fn lemma_unsupported_opcode_preserves_cpu(source: Seq<u8>, cpu: Cpu, fuel: nat)
    requires
        cpu.program_counter.value < source.len(),
        source[cpu.program_counter.value as int] != OPCODE_HALT,
        source[cpu.program_counter.value as int] != OPCODE_LDA_IMMEDIATE,
        source[cpu.program_counter.value as int] != OPCODE_TAX,
        fuel >= 1,
    ensures
        spec_run(source, cpu, fuel) == Some(
            (
                spec_pc_incremented(cpu),
                Err::<(), Error>(Error::UnsupportedOpcode(
                    source[cpu.program_counter.value as int],
                )),
            ),
        ),
        spec_pc_incremented(cpu).register_a == cpu.register_a,
        spec_pc_incremented(cpu).register_x == cpu.register_x,
        spec_pc_incremented(cpu).flags == cpu.flags,
{
}

/// A load-accumulator-immediate whose stream ends right after the opcode
/// fails with the expected-parameter position just past the opcode, and
/// mutates no register and no flag.
pub proof fn lemma_missing_operand(source: Seq<u8>, cpu: Cpu, fuel: nat)
    requires
        cpu.program_counter.value < source.len(),
        source[cpu.program_counter.value as int] == OPCODE_LDA_IMMEDIATE,
        source.len() <= spec_pc_next(cpu.program_counter.value),
        fuel >= 1,
    ensures
        spec_run(source, cpu, fuel) == Some(
            (
                spec_pc_incremented(cpu),
                Err::<(), Error>(Error::ExpectedParameter(spec_pc_next(cpu.program_counter.value))),
            ),
        ),
        spec_pc_incremented(cpu).register_a == cpu.register_a,
        spec_pc_incremented(cpu).register_x == cpu.register_x,
        spec_pc_incremented(cpu).flags == cpu.flags,
{
}

} // verus!
