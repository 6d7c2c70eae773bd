//! The capability contract a device must satisfy to be attachable to the
//! bus: fallible byte-level read and write, plus size reporting. The closed
//! set of storage devices this crate ships is packaged in [`Device`], so a
//! bus can own a heterogeneous collection without knowing concrete types.

use vstd::prelude::*;
use crate::error::Error;
use crate::ram::Ram;
use crate::rom::Rom;

verus! {

/// Byte-level read capability: a single fallible read at a device-local
/// offset. What a read returns is pinned down per device by `spec_read`.
pub trait Read {
    /// What reading offset `addr` returns, as a function of the device state.
    spec fn spec_read(&self, addr: u16) -> Result<u8, Error>;

    /// Read the byte stored at the device-local offset `addr`.
    fn read_byte(&self, addr: u16) -> (r: Result<u8, Error>)
        ensures
            r == self.spec_read(addr),
    ;
}

/// Byte-level write capability: a single fallible write at a device-local
/// offset. The relation between the state before, the state after and the
/// result is pinned down per device by `spec_write`.
pub trait Write: Sized {
    /// Whether a write of `byte` at offset `addr` may take the device from
    /// `self` to `post` with result `r`.
    spec fn spec_write(&self, addr: u16, byte: u8, post: Self, r: Result<(), Error>) -> bool;

    /// Write `byte` at the device-local offset `addr`.
    fn write_byte(&mut self, addr: u16, byte: u8) -> (r: Result<(), Error>)
        ensures
            old(self).spec_write(addr, byte, *final(self), r),
    ;
}

/// The full capability set a device needs for bus attachment: reads, writes
/// and size reporting.
pub trait SubComponent: Read + Write {
    /// The device capacity in bytes, as a function of the device state.
    spec fn spec_size(&self) -> usize;

    /// Report the device capacity in bytes.
    fn size(&self) -> (r: usize)
        ensures
            r == self.spec_size(),
    ;
}

/// One attachable device: either writable [`Ram`] or read-only [`Rom`].
#[derive(Debug)]
pub enum Device {
    Ram(Ram),
    Rom(Rom),
}

impl Read for Device {
    open spec fn spec_read(&self, addr: u16) -> Result<u8, Error> {
        match *self {
            Device::Ram(d) => d.spec_read(addr),
            Device::Rom(d) => d.spec_read(addr),
        }
    }

    fn read_byte(&self, addr: u16) -> (r: Result<u8, Error>) {
        match self {
            Device::Ram(d) => d.read_byte(addr),
            Device::Rom(d) => d.read_byte(addr),
        }
    }
}

impl Write for Device {
    open spec fn spec_write(&self, addr: u16, byte: u8, post: Device, r: Result<(), Error>) -> bool {
        match *self {
            Device::Ram(d) => post matches Device::Ram(p) && d.spec_write(addr, byte, p, r),
            Device::Rom(d) => post matches Device::Rom(p) && d.spec_write(addr, byte, p, r),
        }
    }

    fn write_byte(&mut self, addr: u16, byte: u8) -> (r: Result<(), Error>) {
        match self {
            Device::Ram(d) => d.write_byte(addr, byte),
            Device::Rom(d) => d.write_byte(addr, byte),
        }
    }
}

impl SubComponent for Device {
    open spec fn spec_size(&self) -> usize {
        match *self {
            Device::Ram(d) => d.spec_size(),
            Device::Rom(d) => d.spec_size(),
        }
    }

    fn size(&self) -> (r: usize) {
        match self {
            Device::Ram(d) => d.size(),
            Device::Rom(d) => d.size(),
        }
    }
}

} // verus!
