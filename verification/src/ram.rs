//! Fixed-capacity random-access byte storage: bulk-loadable, bounds-checked,
//! readable and writable per byte.

use vstd::prelude::*;
use crate::device::{Read, SubComponent, Write};
use crate::error::Error;

verus! {

/// The capacity of a [`Ram`] device, in bytes.
pub const RAM_SIZE: usize = 2048;

/// The contents of a byte store after bulk-copying `data` into `base` at
/// `offset`: the loaded window holds `data`, everything else is untouched.
pub open spec fn spec_loaded(base: Seq<u8>, offset: int, data: Seq<u8>) -> Seq<u8> {
    Seq::new(base.len(), |i: int| if offset <= i < offset + data.len() {
        data[i - offset]
    } else {
        base[i]
    })
}

/// Every loaded byte of [`spec_loaded`] reads back exactly as it was given,
/// and every byte outside the loaded window keeps its old value.
pub proof fn lemma_loaded_round_trip(base: Seq<u8>, offset: int, data: Seq<u8>)
    requires
        0 <= offset,
        offset + data.len() <= base.len(),
    ensures
        forall|i: int| 0 <= i < data.len() ==> spec_loaded(base, offset, data)[offset + i] == data[i],
        forall|i: int|
            0 <= i < base.len() && !(offset <= i < offset + data.len())
                ==> spec_loaded(base, offset, data)[i] == base[i],
{
}

/// After a successful bulk load, reading any loaded offset through the
/// device capability returns exactly the byte that was given for it.
pub proof fn lemma_load_read_back(before: Ram, after: Ram, offset: u16, data: Seq<u8>, i: int)
    requires
        before.wf(),
        after@ == spec_loaded(before@, offset as int, data),
        offset + data.len() <= RAM_SIZE,
        0 <= i < data.len(),
    ensures
        after.spec_read((offset + i) as u16) == Ok::<u8, Error>(data[i]),
{
}

/// Fixed-size writable byte storage with a capacity of [`RAM_SIZE`].
#[derive(Debug)]
pub struct Ram {
    data: Vec<u8>,
}

impl View for Ram {
    type V = Seq<u8>;

    closed spec fn view(&self) -> Seq<u8> {
        self.data@
    }
}

impl Ram {
    /// The storage invariant: exactly [`RAM_SIZE`] bytes are held, so every
    /// offset in `[0, RAM_SIZE)` is addressable and no other offset is.
    pub open spec fn wf(self) -> bool {
        self@.len() == RAM_SIZE
    }

    /// Bulk-copy `data` into storage starting at `offset`.
    ///
    /// Succeeds exactly when the copied window fits inside the capacity;
    /// otherwise nothing is changed and the requested offset is reported as
    /// out of range.
    pub fn load(&mut self, offset: u16, data: &[u8]) -> (r: Result<(), Error>)
        requires
            old(self).wf(),
        ensures
            final(self).wf(),
            offset + data@.len() <= RAM_SIZE ==> (r == Ok::<(), Error>(())
                && final(self)@ == spec_loaded(old(self)@, offset as int, data@)),
            offset + data@.len() > RAM_SIZE ==> (r == Err::<(), Error>(Error::OutOfRangeAccess(
                offset,
            )) && final(self)@ == old(self)@),
    {
        let offset_us: usize = offset as usize;
        if offset_us > RAM_SIZE || data.len() > RAM_SIZE - offset_us {
            return Err(Error::OutOfRangeAccess(offset));
        }
        let ghost orig = self@;
        let mut i: usize = 0;
        while i < data.len()
            invariant
                i <= data@.len(),
                offset_us + data@.len() <= RAM_SIZE,
                offset_us == offset,
                self@.len() == RAM_SIZE,
                orig.len() == RAM_SIZE,
                forall|j: int| 0 <= j < i ==> self@[offset_us + j] == data@[j],
                forall|j: int|
                    0 <= j < RAM_SIZE && !(offset_us <= j < offset_us + i) ==> self@[j] == orig[j],
            decreases data@.len() - i,
        {
            self.data[offset_us + i] = data[i];
            i = i + 1;
        }
        proof {
            assert(self@ =~= spec_loaded(orig, offset as int, data@));
        }
        Ok(())
    }

    /// A full, read-only snapshot of the storage contents; the returned
    /// buffer does not alias the live storage.
    pub fn dump(&self) -> (r: Vec<u8>)
        ensures
            r@ == self@,
    {
        let mut out: Vec<u8> = Vec::new();
        let mut i: usize = 0;
        while i < self.data.len()
            invariant
                i <= self@.len(),
                out@ == self@.subrange(0, i as int),
            decreases self@.len() - i,
        {
            out.push(self.data[i]);
            proof {
                assert(out@ =~= self@.subrange(0, i + 1));
            }
            i = i + 1;
        }
        proof {
            assert(out@ =~= self@);
        }
        out
    }
}

impl Read for Ram {
    /// Every offset inside the capacity reads back the stored byte; every
    /// other offset is rejected as out of range.
    open spec fn spec_read(&self, addr: u16) -> Result<u8, Error> {
        if addr < self@.len() {
            Ok(self@[addr as int])
        } else {
            Err(Error::OutOfRangeAccess(addr))
        }
    }

    fn read_byte(&self, addr: u16) -> (r: Result<u8, Error>) {
        if (addr as usize) < self.data.len() {
            Ok(self.data[addr as usize])
        } else {
            Err(Error::OutOfRangeAccess(addr))
        }
    }
}

impl Write for Ram {
    /// An in-range write stores exactly the given byte and changes nothing
    /// else; an out-of-range write is rejected and changes nothing.
    open spec fn spec_write(&self, addr: u16, byte: u8, post: Ram, r: Result<(), Error>) -> bool {
        if addr < self@.len() {
            post@ == self@.update(addr as int, byte) && r == Ok::<(), Error>(())
        } else {
            post@ == self@ && r == Err::<(), Error>(Error::OutOfRangeAccess(addr))
        }
    }

    fn write_byte(&mut self, addr: u16, byte: u8) -> (r: Result<(), Error>) {
        if (addr as usize) < self.data.len() {
            self.data[addr as usize] = byte;
            Ok(())
        } else {
            Err(Error::OutOfRangeAccess(addr))
        }
    }
}

impl SubComponent for Ram {
    open spec fn spec_size(&self) -> usize {
        self@.len() as usize
    }

    fn size(&self) -> (r: usize) {
        self.data.len()
    }
}

impl Default for Ram {
    /// A fresh device: all [`RAM_SIZE`] bytes are zero.
    fn default() -> (r: Self)
        ensures
            r.wf(),
            forall|i: int| 0 <= i < RAM_SIZE ==> r@[i] == 0,
    {
        let mut data: Vec<u8> = Vec::new();
        let mut i: usize = 0;
        while i < RAM_SIZE
            invariant
                i <= RAM_SIZE,
                data@.len() == i,
                forall|j: int| 0 <= j < i ==> data@[j] == 0,
            decreases RAM_SIZE - i,
        {
            data.push(0);
            i = i + 1;
        }
        Ram { data }
    }
}

} // verus!
