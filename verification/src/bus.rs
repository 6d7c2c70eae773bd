//! The address-routing layer: half-open ranges of the 16-bit address space,
//! and the bus that routes byte-level reads and writes to the device attached
//! over the range that contains the requested address.

use vstd::prelude::*;
use crate::device::{Read, SubComponent, Write};
use crate::error::Error;

verus! {

/// A half-open window `[start, end)` of the global address space.
///
/// The bounds are kept as 32-bit numbers so that a range may end exactly at
/// 0x10000, one past the highest 16-bit address. A range with `start >= end`,
/// or lying entirely above 0xFFFF, simply contains no address.
#[derive(Clone, Copy, Debug, PartialEq, Eq, Structural)]
pub struct AddressRange {
    pub start: u32,
    pub end: u32,
}

impl AddressRange {
    /// Whether the global address `addr` falls inside this window.
    pub open spec fn spec_contains(self, addr: u16) -> bool {
        self.start <= addr < self.end
    }

    /// Whether some 16-bit address falls inside both windows, which is what
    /// would make routing ambiguous.
    pub open spec fn spec_overlaps(self, other: AddressRange) -> bool {
        exists|addr: u16| self.spec_contains(addr) && other.spec_contains(addr)
    }

    pub fn contains(&self, addr: u16) -> (r: bool)
        ensures
            r == self.spec_contains(addr),
    {
        self.start <= addr as u32 && (addr as u32) < self.end
    }

    pub fn overlaps(&self, other: &AddressRange) -> (r: bool)
        ensures
            r == self.spec_overlaps(*other),
    {
        let lo: u32 = if self.start >= other.start {
            self.start
        } else {
            other.start
        };
        let hi: u32 = if self.end <= other.end {
            self.end
        } else {
            other.end
        };
        let r = lo < hi && lo <= 0xFFFF;
        proof {
            if r {
                assert(self.spec_contains(lo as u16) && other.spec_contains(lo as u16));
            }
        }
        r
    }
}

/// One attached device together with the window of the address space it
/// claims.
pub struct Mapping<D> {
    pub range: AddressRange,
    pub device: D,
}

/// Which mapping a global address routes to: the first attached one whose
/// range contains the address, scanning in attachment order. Under the
/// no-overlap invariant at most one range can contain an address, so the
/// scan order never matters.
pub open spec fn spec_route<D>(mappings: Seq<Mapping<D>>, addr: u16) -> Option<int>
    decreases mappings.len(),
{
    if mappings.len() == 0 {
        None
    } else if mappings[0].range.spec_contains(addr) {
        Some(0)
    } else {
        match spec_route(mappings.drop_first(), addr) {
            Some(i) => Some(i + 1),
            None => None,
        }
    }
}

/// If the first `k` mappings miss an address, routing is decided by what
/// stands at position `k`: a hit there routes to `k`, and missing everything
/// routes nowhere.
proof fn lemma_route_after_misses<D>(mappings: Seq<Mapping<D>>, addr: u16, k: int)
    requires
        0 <= k <= mappings.len(),
        forall|i: int| 0 <= i < k ==> !(#[trigger] mappings[i].range).spec_contains(addr),
    ensures
        k == mappings.len() ==> spec_route(mappings, addr) is None,
        k < mappings.len() && mappings[k].range.spec_contains(addr) ==> spec_route(mappings, addr)
            == Some(k),
    decreases k,
{
    if k > 0 {
        let rest = mappings.drop_first();
        assert forall|i: int| 0 <= i < k - 1 implies !(#[trigger] rest[i].range).spec_contains(
            addr,
        ) by {
            assert(rest[i] == mappings[i + 1]);
        }
        lemma_route_after_misses(rest, addr, k - 1);
        if k < mappings.len() {
            assert(rest[k - 1] == mappings[k]);
        }
    }
}

/// The address-routing layer: an ordered collection of range-to-device
/// bindings, owning its attached devices.
pub struct Bus<D> {
    mappings: Vec<Mapping<D>>,
}

impl<D> View for Bus<D> {
    type V = Seq<Mapping<D>>;

    closed spec fn view(&self) -> Seq<Mapping<D>> {
        self.mappings@
    }
}

impl<D: SubComponent> Bus<D> {
    /// The routing invariant: no two attached ranges claim a common address,
    /// so routing is unambiguous.
    pub open spec fn wf(self) -> bool {
        forall|i: int, j: int|
            0 <= i < j < self@.len() ==> !(#[trigger] self@[i].range).spec_overlaps(
                #[trigger] self@[j].range,
            )
    }

    /// A bus with nothing attached.
    pub fn new() -> (r: Self)
        ensures
            r@ == Seq::<Mapping<D>>::empty(),
            r.wf(),
    {
        Bus { mappings: Vec::new() }
    }

    /// Register a device for a contiguous window of the address space.
    ///
    /// Fails exactly when the requested range shares an address with an
    /// already attached one, and then leaves every existing mapping
    /// unchanged; otherwise the binding is appended.
    pub fn attach(&mut self, range: AddressRange, device: D) -> (r: Result<(), Error>)
        ensures
            (exists|i: int|
                0 <= i < old(self)@.len() && (#[trigger] old(self)@[i].range).spec_overlaps(range))
                ==> (r == Err::<(), Error>(Error::OverlappingAttachment(range)) && final(self)@
                == old(self)@),
            (forall|i: int|
                0 <= i < old(self)@.len() ==> !(#[trigger] old(self)@[i].range).spec_overlaps(
                    range,
                )) ==> (r == Ok::<(), Error>(()) && final(self)@ == old(self)@.push(
                Mapping { range, device },
            )),
            old(self).wf() ==> final(self).wf(),
    {
        let ghost orig = *self;
        let mut i: usize = 0;
        while i < self.mappings.len()
            invariant
                i <= self@.len(),
                *self == orig,
                orig == *old(self),
                forall|j: int| 0 <= j < i ==> !(#[trigger] self@[j].range).spec_overlaps(range),
            decreases self@.len() - i,
        {
            if self.mappings[i].range.overlaps(&range) {
                return Err(Error::OverlappingAttachment(range));
            }
            i = i + 1;
        }
        self.mappings.push(Mapping { range, device });
        proof {
            if orig.wf() {
                assert forall|p: int, q: int| 0 <= p < q < self@.len() implies !(self@[p].range)
                    .spec_overlaps(self@[q].range) by {
                    if q < self@.len() - 1 {
                        assert(!(orig@[p].range).spec_overlaps(orig@[q].range));
                    } else {
                        assert(!(orig@[p].range).spec_overlaps(range));
                    }
                }
            }
        }
        Ok(())
    }

    /// Route a read at a global address to the owning device, translated to
    /// the device-local offset.
    ///
    /// Fails with an unmapped-address error exactly when no attached range
    /// contains the address; a routed read returns whatever the device
    /// returns for the local offset.
    pub fn read_byte(&self, addr: u16) -> (r: Result<u8, Error>)
        ensures
            (match spec_route(self@, addr) {
                Some(i) => r == self@[i].device.spec_read((addr - self@[i].range.start) as u16),
                None => r == Err::<u8, Error>(Error::UnmappedAddress(addr)),
            }),
    {
        let mut i: usize = 0;
        while i < self.mappings.len()
            invariant
                i <= self@.len(),
                forall|j: int| 0 <= j < i ==> !(#[trigger] self@[j].range).spec_contains(addr),
            decreases self@.len() - i,
        {
            let m = &self.mappings[i];
            if m.range.contains(addr) {
                proof {
                    lemma_route_after_misses(self@, addr, i as int);
                }
                let offset: u16 = (addr as u32 - m.range.start) as u16;
                return m.device.read_byte(offset);
            }
            i = i + 1;
        }
        proof {
            lemma_route_after_misses(self@, addr, self@.len() as int);
        }
        Err(Error::UnmappedAddress(addr))
    }

    /// Route a write at a global address to the owning device, translated to
    /// the device-local offset.
    ///
    /// Fails with an unmapped-address error exactly when no attached range
    /// contains the address; a routed write changes exactly the owning
    /// device, in whatever way that device defines.
    pub fn write_byte(&mut self, addr: u16, byte: u8) -> (r: Result<(), Error>)
        ensures
            (match spec_route(old(self)@, addr) {
                Some(i) => final(self)@.len() == old(self)@.len() && final(self)@[i].range == old(
                    self,
                )@[i].range && old(self)@[i].device.spec_write(
                    (addr - old(self)@[i].range.start) as u16,
                    byte,
                    final(self)@[i].device,
                    r,
                ) && (forall|j: int|
                    0 <= j < old(self)@.len() && j != i ==> final(self)@[j] == old(self)@[j]),
                None => r == Err::<(), Error>(Error::UnmappedAddress(addr)) && final(self)@ == old(
                    self,
                )@,
            }),
            old(self).wf() ==> final(self).wf(),
    {
        let ghost orig = *self;
        let mut i: usize = 0;
        while i < self.mappings.len()
            invariant
                i <= self@.len(),
                *self == orig,
                orig == *old(self),
                forall|j: int| 0 <= j < i ==> !(#[trigger] self@[j].range).spec_contains(addr),
            decreases self@.len() - i,
        {
            if self.mappings[i].range.contains(addr) {
                proof {
                    lemma_route_after_misses(self@, addr, i as int);
                }
                let offset: u16 = (addr as u32 - self.mappings[i].range.start) as u16;
                let mut m = self.mappings.remove(i);
                let r = m.device.write_byte(offset, byte);
                let ghost after = m;
                self.mappings.insert(i, m);
                proof {
                    assert(self@ =~= orig@.update(i as int, after));
                    if orig.wf() {
                        assert forall|p: int, q: int| 0 <= p < q < self@.len() implies !(self@[p]
                            .range).spec_overlaps(self@[q].range) by {
                            assert(self@[p].range == orig@[p].range);
                            assert(self@[q].range == orig@[q].range);
                            assert(!(orig@[p].range).spec_overlaps(orig@[q].range));
                        }
                    }
                }
                return r;
            }
            i = i + 1;
        }
        proof {
            lemma_route_after_misses(self@, addr, self@.len() as int);
        }
        Err(Error::UnmappedAddress(addr))
    }
}

} // verus!
