//! Fixed-capacity read-only byte storage: bulk-initialized once, then read
//! per byte. Per-byte writes through the device capability are ignored.

use vstd::prelude::*;
use crate::device::{Read, SubComponent, Write};
use crate::error::Error;
use crate::ram::spec_loaded;

verus! {

/// The capacity of a [`Rom`] device, in bytes.
pub const ROM_SIZE: usize = 32768;

/// Fixed-size read-only byte storage with a capacity of [`ROM_SIZE`].
///
/// Write attempts through the device capability are defined as bounds-checked
/// no-ops: an in-range write succeeds without changing anything, an
/// out-of-range write is rejected like any other out-of-range access. The
/// only way to place contents into the device is [`Rom::load`] at
/// initialization time.
#[derive(Debug)]
pub struct Rom {
    data: Vec<u8>,
}

impl View for Rom {
    type V = Seq<u8>;

    closed spec fn view(&self) -> Seq<u8> {
        self.data@
    }
}

impl Rom {
    /// The storage invariant: exactly [`ROM_SIZE`] bytes are held, so every
    /// offset in `[0, ROM_SIZE)` is addressable and no other offset is.
    pub open spec fn wf(self) -> bool {
        self@.len() == ROM_SIZE
    }

    /// Bulk-copy an image into storage starting at `offset`.
    ///
    /// Succeeds exactly when the copied window fits inside the capacity;
    /// otherwise nothing is changed and the requested offset is reported as
    /// out of range.
    pub fn load(&mut self, offset: u16, data: &[u8]) -> (r: Result<(), Error>)
        requires
            old(self).wf(),
        ensures
            final(self).wf(),
            offset + data@.len() <= ROM_SIZE ==> (r == Ok::<(), Error>(())
                && final(self)@ == spec_loaded(old(self)@, offset as int, data@)),
            offset + data@.len() > ROM_SIZE ==> (r == Err::<(), Error>(Error::OutOfRangeAccess(
                offset,
            )) && final(self)@ == old(self)@),
    {
        let offset_us: usize = offset as usize;
        if offset_us > ROM_SIZE || data.len() > ROM_SIZE - offset_us {
            return Err(Error::OutOfRangeAccess(offset));
        }
        let ghost orig = self@;
        let mut i: usize = 0;
        while i < data.len()
            invariant
                i <= data@.len(),
                offset_us + data@.len() <= ROM_SIZE,
                offset_us == offset,
                self@.len() == ROM_SIZE,
                orig.len() == ROM_SIZE,
                forall|j: int| 0 <= j < i ==> self@[offset_us + j] == data@[j],
                forall|j: int|
                    0 <= j < ROM_SIZE && !(offset_us <= j < offset_us + i) ==> self@[j] == orig[j],
            decreases data@.len() - i,
        {
            self.data[offset_us + i] = data[i];
            i = i + 1;
        }
        proof {
            assert(self@ =~= spec_loaded(orig, offset as int, data@));
        }
        Ok(())
    }

    /// A full, read-only snapshot of the storage contents; the returned
    /// buffer does not alias the live storage.
    pub fn dump(&self) -> (r: Vec<u8>)
        ensures
            r@ == self@,
    {
        let mut out: Vec<u8> = Vec::new();
        let mut i: usize = 0;
        while i < self.data.len()
            invariant
                i <= self@.len(),
                out@ == self@.subrange(0, i as int),
            decreases self@.len() - i,
        {
            out.push(self.data[i]);
            proof {
                assert(out@ =~= self@.subrange(0, i + 1));
            }
            i = i + 1;
        }
        proof {
            assert(out@ =~= self@);
        }
        out
    }
}

impl Read for Rom {
    /// Every offset inside the capacity reads back the stored byte; every
    /// other offset is rejected as out of range.
    open spec fn spec_read(&self, addr: u16) -> Result<u8, Error> {
        if addr < self@.len() {
            Ok(self@[addr as int])
        } else {
            Err(Error::OutOfRangeAccess(addr))
        }
    }

    fn read_byte(&self, addr: u16) -> (r: Result<u8, Error>) {
        if (addr as usize) < self.data.len() {
            Ok(self.data[addr as usize])
        } else {
            Err(Error::OutOfRangeAccess(addr))
        }
    }
}

impl Write for Rom {
    /// The read-only policy: an in-range write is accepted and ignored, an
    /// out-of-range write is rejected; the contents never change.
    open spec fn spec_write(&self, addr: u16, byte: u8, post: Rom, r: Result<(), Error>) -> bool {
        post@ == self@ && r == (if addr < self@.len() {
            Ok::<(), Error>(())
        } else {
            Err::<(), Error>(Error::OutOfRangeAccess(addr))
        })
    }

    fn write_byte(&mut self, addr: u16, byte: u8) -> (r: Result<(), Error>) {
        if (addr as usize) < self.data.len() {
            Ok(())
        } else {
            Err(Error::OutOfRangeAccess(addr))
        }
    }
}

impl SubComponent for Rom {
    open spec fn spec_size(&self) -> usize {
        self@.len() as usize
    }

    fn size(&self) -> (r: usize) {
        self.data.len()
    }
}

impl Default for Rom {
    /// A blank image: all [`ROM_SIZE`] bytes are zero.
    fn default() -> (r: Self)
        ensures
            r.wf(),
            forall|i: int| 0 <= i < ROM_SIZE ==> r@[i] == 0,
    {
        let mut data: Vec<u8> = Vec::new();
        let mut i: usize = 0;
        while i < ROM_SIZE
            invariant
                i <= ROM_SIZE,
                data@.len() == i,
                forall|j: int| 0 <= j < i ==> data@[j] == 0,
            decreases ROM_SIZE - i,
        {
            data.push(0);
            i = i + 1;
        }
        Rom { data }
    }
}

} // verus!
