//! The recoverable error kinds that the emulator's fallible operations
//! return. Nothing in the core aborts: every failure is reported to the
//! immediate caller as one of these values.

use vstd::prelude::*;
use crate::bus::AddressRange;

verus! {

#[derive(Clone, Copy, Debug, PartialEq, Eq, Structural)]
pub enum Error {
    /// `interpret` was invoked while no instruction stream was loaded.
    NoSourceLoaded,
    /// A fetched opcode byte has no registered handler; carries that byte.
    UnsupportedOpcode(u8),
    /// A handler required an operand byte that the stream did not hold;
    /// carries the program-counter position where the operand was expected.
    ExpectedParameter(u16),
    /// A device was asked to read or write an offset outside its capacity;
    /// carries the offending device-local offset.
    OutOfRangeAccess(u16),
    /// The bus received a request for an address no attached device claims.
    UnmappedAddress(u16),
    /// An attach request's range collides with an existing mapping.
    OverlappingAttachment(AddressRange),
}

} // verus!
