use emu6502::{Device, Error, Ram, Read, Rom, SubComponent, Write, RAM_SIZE, ROM_SIZE};

#[test]
fn device_dispatches_reads_to_the_wrapped_ram() {
    let mut ram = Ram::default();
    ram.load(3, &[0x42]).unwrap();
    let device = Device::Ram(ram);
    assert_eq!(device.read_byte(3), Ok(0x42));
    assert_eq!(device.read_byte(RAM_SIZE as u16), Err(Error::OutOfRangeAccess(RAM_SIZE as u16)));
}

#[test]
fn device_dispatches_writes_to_the_wrapped_ram() {
    let mut device = Device::Ram(Ram::default());
    assert_eq!(device.write_byte(7, 0x99), Ok(()));
    assert_eq!(device.read_byte(7), Ok(0x99));
}

#[test]
fn device_keeps_rom_read_only() {
    let mut rom = Rom::default();
    rom.load(0, &[0x10]).unwrap();
    let mut device = Device::Rom(rom);
    assert_eq!(device.write_byte(0, 0xFF), Ok(()));
    assert_eq!(device.read_byte(0), Ok(0x10));
}

#[test]
fn device_reports_the_wrapped_size() {
    assert_eq!(Device::Ram(Ram::default()).size(), RAM_SIZE);
    assert_eq!(Device::Rom(Rom::default()).size(), ROM_SIZE);
}
