//! An 8-bit CPU emulator core: registers and status flags, fixed-size RAM and
//! ROM devices, an address-routing bus over a byte-level device capability,
//! and a fetch-decode-execute interpreter over a borrowed instruction stream.

pub mod bus;
pub mod cpu;
pub mod device;
pub mod error;
pub mod interpreter;
pub mod ram;
pub mod rom;

pub use bus::{AddressRange, Bus, Mapping};
pub use cpu::{Cpu, CpuFlags, ProgramCounter, Register};
pub use device::{Device, Read, SubComponent, Write};
pub use error::Error;
pub use interpreter::Interpreter;
pub use ram::{Ram, RAM_SIZE};
pub use rom::{Rom, ROM_SIZE};
