use emu6502::{Cpu, Error, Interpreter};

#[test]
fn lda_zero_sets_zero_clears_negative() {
    let program = [0xA9, 0x00, 0x00];
    let mut interp = Interpreter::new(Some(&program), Cpu::default());
    assert_eq!(interp.interpret(), Ok(()));
    assert_eq!(interp.cpu.register_a.get(), 0x00);
    assert!(interp.cpu.flags.zero);
    assert!(!interp.cpu.flags.negative);
}

#[test]
fn lda_high_bit_sets_negative_clears_zero() {
    let program = [0xA9, 0x80, 0x00];
    let mut interp = Interpreter::new(Some(&program), Cpu::default());
    assert_eq!(interp.interpret(), Ok(()));
    assert_eq!(interp.cpu.register_a.get(), 0x80);
    assert!(!interp.cpu.flags.zero);
    assert!(interp.cpu.flags.negative);
}

#[test]
fn lda_one_clears_both_flags() {
    let program = [0xA9, 0x01, 0x00];
    let mut interp = Interpreter::new(Some(&program), Cpu::default());
    assert_eq!(interp.interpret(), Ok(()));
    assert_eq!(interp.cpu.register_a.get(), 0x01);
    assert!(!interp.cpu.flags.zero);
    assert!(!interp.cpu.flags.negative);
}

#[test]
fn tax_copies_accumulator_into_index() {
    let program = [0xA9, 0x05, 0xAA, 0x00];
    let mut interp = Interpreter::new(Some(&program), Cpu::default());
    assert_eq!(interp.interpret(), Ok(()));
    assert_eq!(interp.cpu.register_a.get(), 0x05);
    assert_eq!(interp.cpu.register_x.get(), 0x05);
    assert!(!interp.cpu.flags.zero);
    assert!(!interp.cpu.flags.negative);
}

#[test]
fn tax_recomputes_flags_from_new_index_value() {
    let program = [0xA9, 0x90, 0xAA, 0x00];
    let mut interp = Interpreter::new(Some(&program), Cpu::default());
    assert_eq!(interp.interpret(), Ok(()));
    assert_eq!(interp.cpu.register_x.get(), 0x90);
    assert!(!interp.cpu.flags.zero);
    assert!(interp.cpu.flags.negative);
}

#[test]
fn tax_on_zero_accumulator_sets_zero_flag() {
    let program = [0xA9, 0x01, 0xA9, 0x00, 0xAA, 0x00];
    let mut interp = Interpreter::new(Some(&program), Cpu::default());
    assert_eq!(interp.interpret(), Ok(()));
    assert_eq!(interp.cpu.register_x.get(), 0x00);
    assert!(interp.cpu.flags.zero);
    assert!(!interp.cpu.flags.negative);
}

#[test]
fn halt_as_first_byte_terminates_without_error() {
    let program = [0x00];
    let mut interp = Interpreter::new(Some(&program), Cpu::default());
    assert_eq!(interp.interpret(), Ok(()));
    assert_eq!(interp.cpu.program_counter.get(), 0);
    assert_eq!(interp.cpu.register_a.get(), 0);
}

#[test]
fn halt_mid_stream_stops_before_later_bytes() {
    let program = [0xA9, 0x01, 0x00, 0xA9, 0xFF];
    let mut interp = Interpreter::new(Some(&program), Cpu::default());
    assert_eq!(interp.interpret(), Ok(()));
    assert_eq!(interp.cpu.register_a.get(), 0x01);
    assert_eq!(interp.cpu.program_counter.get(), 2);
}

#[test]
fn empty_stream_halts_naturally() {
    let program = [];
    let mut interp = Interpreter::new(Some(&program), Cpu::default());
    assert_eq!(interp.interpret(), Ok(()));
    assert_eq!(interp.cpu.program_counter.get(), 0);
}

#[test]
fn exhaustion_after_full_instruction_halts_naturally() {
    let program = [0xA9, 0x42];
    let mut interp = Interpreter::new(Some(&program), Cpu::default());
    assert_eq!(interp.interpret(), Ok(()));
    assert_eq!(interp.cpu.register_a.get(), 0x42);
    assert_eq!(interp.cpu.program_counter.get(), 2);
}

#[test]
fn unsupported_opcode_carries_exact_byte() {
    let program = [0xFF];
    let mut interp = Interpreter::new(Some(&program), Cpu::default());
    assert_eq!(interp.interpret(), Err(Error::UnsupportedOpcode(0xFF)));
}

#[test]
fn unsupported_opcode_leaves_registers_and_flags() {
    let program = [0xA9, 0x42, 0x07];
    let mut interp = Interpreter::new(Some(&program), Cpu::default());
    assert_eq!(interp.interpret(), Err(Error::UnsupportedOpcode(0x07)));
    assert_eq!(interp.cpu.register_a.get(), 0x42);
    assert_eq!(interp.cpu.register_x.get(), 0x00);
    assert!(!interp.cpu.flags.zero);
    assert!(!interp.cpu.flags.negative);
    assert_eq!(interp.cpu.program_counter.get(), 3);
}

#[test]
fn missing_operand_reports_position_after_opcode() {
    let program = [0xA9];
    let mut interp = Interpreter::new(Some(&program), Cpu::default());
    assert_eq!(interp.interpret(), Err(Error::ExpectedParameter(1)));
    assert_eq!(interp.cpu.register_a.get(), 0x00);
}

#[test]
fn missing_operand_after_earlier_instruction() {
    let program = [0xAA, 0xA9];
    let mut interp = Interpreter::new(Some(&program), Cpu::default());
    assert_eq!(interp.interpret(), Err(Error::ExpectedParameter(2)));
    assert_eq!(interp.cpu.register_x.get(), 0x00);
    assert!(interp.cpu.flags.zero);
}

#[test]
fn interpret_without_source_fails() {
    let mut interp = Interpreter::new(None, Cpu::default());
    assert_eq!(interp.interpret(), Err(Error::NoSourceLoaded));
    assert_eq!(interp.cpu.program_counter.get(), 0);
}

#[test]
fn load_swaps_in_a_stream_for_the_next_run() {
    let mut interp = Interpreter::new(None, Cpu::default());
    assert_eq!(interp.interpret(), Err(Error::NoSourceLoaded));
    let program = [0xA9, 0x07, 0x00];
    interp.load(&program);
    assert_eq!(interp.interpret(), Ok(()));
    assert_eq!(interp.cpu.register_a.get(), 0x07);
}

#[test]
fn long_program_executes_every_instruction() {
    let mut program = vec![0xAA; 1000];
    program[0] = 0xA9;
    program[1] = 0x2A;
    program.push(0x00);
    let mut interp = Interpreter::new(Some(&program), Cpu::default());
    assert_eq!(interp.interpret(), Ok(()));
    assert_eq!(interp.cpu.register_a.get(), 0x2A);
    assert_eq!(interp.cpu.register_x.get(), 0x2A);
    assert_eq!(interp.cpu.program_counter.get(), 1000);
}

#[test]
fn interpreting_twice_resumes_from_counter() {
    let program = [0xA9, 0x07, 0x00, 0xAA, 0x00];
    let mut interp = Interpreter::new(Some(&program), Cpu::default());
    assert_eq!(interp.interpret(), Ok(()));
    assert_eq!(interp.cpu.program_counter.get(), 2);
    // The halt opcode at the counter stops the second run at once as well.
    assert_eq!(interp.interpret(), Ok(()));
    assert_eq!(interp.cpu.program_counter.get(), 2);
}
