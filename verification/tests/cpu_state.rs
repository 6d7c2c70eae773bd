use emu6502::{Cpu, ProgramCounter, Register};

#[test]
fn default_cpu_is_all_zero_with_clear_flags() {
    let cpu = Cpu::default();
    assert_eq!(cpu.register_a.get(), 0);
    assert_eq!(cpu.register_x.get(), 0);
    assert_eq!(cpu.program_counter.get(), 0);
    assert!(!cpu.flags.zero);
    assert!(!cpu.flags.negative);
}

#[test]
fn register_set_get_round_trip() {
    let mut r = Register { value: 0 };
    r.set(0xC3);
    assert_eq!(r.get(), 0xC3);
}

#[test]
fn update_zero_flag_follows_value() {
    let mut cpu = Cpu::default();
    cpu.update_zero_flag(0);
    assert!(cpu.flags.zero);
    cpu.update_zero_flag(1);
    assert!(!cpu.flags.zero);
}

#[test]
fn update_negative_flag_follows_bit_seven() {
    let mut cpu = Cpu::default();
    cpu.update_negative_flag(0x7F);
    assert!(!cpu.flags.negative);
    cpu.update_negative_flag(0x80);
    assert!(cpu.flags.negative);
    cpu.update_negative_flag(0xFF);
    assert!(cpu.flags.negative);
}

#[test]
fn flag_updates_do_not_touch_registers() {
    let mut cpu = Cpu::default();
    cpu.register_a.set(0x12);
    cpu.register_x.set(0x34);
    cpu.update_zero_flag(0);
    cpu.update_negative_flag(0xFF);
    assert_eq!(cpu.register_a.get(), 0x12);
    assert_eq!(cpu.register_x.get(), 0x34);
}

#[test]
fn program_counter_increments_by_one() {
    let mut pc = ProgramCounter { value: 41 };
    pc.increment();
    assert_eq!(pc.get(), 42);
}

#[test]
fn program_counter_wraps_at_sixteen_bits() {
    let mut pc = ProgramCounter { value: 0xFFFF };
    pc.increment();
    assert_eq!(pc.get(), 0);
}
