use emu6502::{Error, Ram, Read, Rom, SubComponent, Write, RAM_SIZE, ROM_SIZE};

#[test]
fn ram_load_round_trips_every_byte() {
    let mut ram = Ram::default();
    assert_eq!(ram.load(5, &[1, 2, 3]), Ok(()));
    assert_eq!(ram.read_byte(5), Ok(1));
    assert_eq!(ram.read_byte(6), Ok(2));
    assert_eq!(ram.read_byte(7), Ok(3));
    assert_eq!(ram.read_byte(4), Ok(0));
    assert_eq!(ram.read_byte(8), Ok(0));
}

#[test]
fn ram_dump_equals_full_contents_after_writes() {
    let mut ram = Ram::default();
    assert_eq!(ram.write_byte(0, 0xAB), Ok(()));
    assert_eq!(ram.write_byte(100, 0xCD), Ok(()));
    assert_eq!(ram.load(200, &[9, 8]), Ok(()));
    let dump = ram.dump();
    let mut expected = vec![0u8; RAM_SIZE];
    expected[0] = 0xAB;
    expected[100] = 0xCD;
    expected[200] = 9;
    expected[201] = 8;
    assert_eq!(dump, expected);
}

#[test]
fn ram_dump_does_not_alias_storage() {
    let mut ram = Ram::default();
    let dump = ram.dump();
    assert_eq!(ram.write_byte(0, 0xFF), Ok(()));
    assert_eq!(dump[0], 0);
}

#[test]
fn ram_load_to_the_last_byte_succeeds() {
    let mut ram = Ram::default();
    let offset = (RAM_SIZE - 3) as u16;
    assert_eq!(ram.load(offset, &[7, 8, 9]), Ok(()));
    assert_eq!(ram.read_byte((RAM_SIZE - 1) as u16), Ok(9));
}

#[test]
fn ram_load_past_capacity_fails_and_changes_nothing() {
    let mut ram = Ram::default();
    let offset = (RAM_SIZE - 1) as u16;
    assert_eq!(ram.load(offset, &[1, 2]), Err(Error::OutOfRangeAccess(offset)));
    assert_eq!(ram.dump(), vec![0u8; RAM_SIZE]);
}

#[test]
fn ram_load_at_offset_beyond_capacity_fails() {
    let mut ram = Ram::default();
    assert_eq!(ram.load(3000, &[1]), Err(Error::OutOfRangeAccess(3000)));
}

#[test]
fn ram_write_then_read_byte() {
    let mut ram = Ram::default();
    assert_eq!(ram.write_byte(0, 0xAB), Ok(()));
    assert_eq!(ram.read_byte(0), Ok(0xAB));
}

#[test]
fn ram_read_out_of_range_fails() {
    let ram = Ram::default();
    let addr = RAM_SIZE as u16;
    assert_eq!(ram.read_byte(addr), Err(Error::OutOfRangeAccess(addr)));
}

#[test]
fn ram_write_out_of_range_fails_and_changes_nothing() {
    let mut ram = Ram::default();
    assert_eq!(ram.write_byte(9999, 1), Err(Error::OutOfRangeAccess(9999)));
    assert_eq!(ram.dump(), vec![0u8; RAM_SIZE]);
}

#[test]
fn ram_reports_its_size() {
    let ram = Ram::default();
    assert_eq!(ram.size(), RAM_SIZE);
}

#[test]
fn rom_load_then_read() {
    let mut rom = Rom::default();
    assert_eq!(rom.load(0, &[0xDE, 0xAD]), Ok(()));
    assert_eq!(rom.read_byte(0), Ok(0xDE));
    assert_eq!(rom.read_byte(1), Ok(0xAD));
    assert_eq!(rom.read_byte(2), Ok(0));
}

#[test]
fn rom_write_is_accepted_and_ignored() {
    let mut rom = Rom::default();
    assert_eq!(rom.load(0, &[0x22]), Ok(()));
    assert_eq!(rom.write_byte(0, 0x99), Ok(()));
    assert_eq!(rom.read_byte(0), Ok(0x22));
    assert_eq!(rom.dump()[0], 0x22);
}

#[test]
fn rom_write_out_of_range_fails() {
    let mut rom = Rom::default();
    let addr = ROM_SIZE as u16;
    assert_eq!(rom.write_byte(addr, 1), Err(Error::OutOfRangeAccess(addr)));
}

#[test]
fn rom_read_out_of_range_fails() {
    let rom = Rom::default();
    let addr = ROM_SIZE as u16;
    assert_eq!(rom.read_byte(addr), Err(Error::OutOfRangeAccess(addr)));
}

#[test]
fn rom_load_past_capacity_fails() {
    let mut rom = Rom::default();
    let offset = (ROM_SIZE - 1) as u16;
    assert_eq!(rom.load(offset, &[1, 2]), Err(Error::OutOfRangeAccess(offset)));
    assert_eq!(rom.dump(), vec![0u8; ROM_SIZE]);
}

#[test]
fn rom_reports_its_size() {
    let rom = Rom::default();
    assert_eq!(rom.size(), ROM_SIZE);
}
