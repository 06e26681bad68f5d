//! Physical frame allocation over the boot-time memory map: the map is
//! handed in as plain address ranges, and frames are dealt out in order
//! from the usable regions.  Page-table programming belongs to the
//! surrounding kernel.

use vstd::prelude::*;

verus! {

/// Size in bytes of one physical frame.
pub const FRAME_SIZE: u64 = 4096;

/// Memory mapping errors.
#[derive(Clone, Copy, PartialEq, Eq, Structural, Debug)]
pub enum MapError {
    MapperNotInitialized,
    AllocatorNotInitialized,
    MapFailed,
}

/// One region of the boot memory map: a half-open address range and
/// whether it is usable RAM.
#[derive(Clone, Copy, PartialEq, Eq, Structural, Debug)]
pub struct MemoryRegion {
    /// First address of the region.
    pub start: u64,
    /// First address past the region.
    pub end: u64,
    /// Whether the region is usable RAM.
    pub usable: bool,
}

/// Number of frame-sized steps that start inside the region.
pub open spec fn region_frame_count(r: MemoryRegion) -> int {
    if r.start >= r.end {
        0
    } else {
        (r.end - r.start - 1) / (FRAME_SIZE as int) + 1
    }
}

/// The frame start addresses stepped through a region.
pub open spec fn region_frames(r: MemoryRegion) -> Seq<u64> {
    Seq::new(region_frame_count(r) as nat, |k: int| (r.start + k * FRAME_SIZE) as u64)
}

/// All usable frame addresses of a memory map, region by region.
pub open spec fn usable_frames(regions: Seq<MemoryRegion>) -> Seq<u64>
    decreases regions.len(),
{
    if regions.len() == 0 {
        Seq::empty()
    } else {
        (if regions[0].usable {
            region_frames(regions[0])
        } else {
            Seq::empty()
        }) + usable_frames(regions.drop_first())
    }
}

/// Frame allocator over the boot memory map: deals out the usable frames
/// in order, never reusing one.
pub struct BootInfoFrameAllocator {
    regions: Vec<MemoryRegion>,
    next: usize,
}

impl BootInfoFrameAllocator {
    /// The memory map.
    pub closed spec fn map(self) -> Seq<MemoryRegion> {
        self.regions@
    }

    /// Position in the usable-frame sequence.
    pub closed spec fn position(self) -> int {
        self.next as int
    }

    /// Create a frame allocator from the boot memory map.
    pub fn init(regions: Vec<MemoryRegion>) -> (a: Self)
        ensures
            a.map() == regions@,
            a.position() == 0,
    {
        Self { regions, next: 0 }
    }

    /// Deal out the next usable frame's start address; `None` once the
    /// map is exhausted (the position is consumed either way).
    pub fn allocate_frame(&mut self) -> (r: Option<u64>)
        requires
            old(self).position() < usize::MAX,
        ensures
            final(self).map() == old(self).map(),
            final(self).position() == old(self).position() + 1,
            r == if old(self).position() < usable_frames(old(self).map()).len() {
                Some(usable_frames(old(self).map())[old(self).position()])
            } else {
                None::<u64>
            },
    {
        let n = self.regions.len();
        let mut remaining = self.next;
        let mut i: usize = 0;
        proof {
            assert(self.map().skip(0) =~= self.map());
        }
        while i < n
            invariant
                *self == *old(self),
                old(self).position() < usize::MAX,
                n == self.map().len(),
                i <= n,
                remaining <= self.next,
                usable_frames(self.map()).len() - self.position() == usable_frames(
                    self.map().skip(i as int),
                ).len() - remaining,
                self.position() < usable_frames(self.map()).len() ==> usable_frames(self.map())[
                self.position()] == usable_frames(self.map().skip(i as int))[remaining as int],
            decreases n - i,
        {
            let region = self.regions[i];
            let ghost rest = self.map().skip(i as int);
            proof {
                assert(rest[0] == self.map()[i as int]);
                assert(rest.drop_first() =~= self.map().skip(i as int + 1));
            }
            if region.usable && region.end > region.start {
                let span = region.end - region.start;
                let count = (span - 1) / FRAME_SIZE + 1;
                proof {
                    assert(count == region_frame_count(region));
                    vstd::arithmetic::div_mod::lemma_fundamental_div_mod(
                        span - 1,
                        FRAME_SIZE as int,
                    );
                    vstd::arithmetic::div_mod::lemma_mod_bound(span - 1, FRAME_SIZE as int);
                }
                if (remaining as u64) < count {
                    proof {
                        assert((count - 1) * (FRAME_SIZE as int) <= span - 1);
                        assert((remaining as int) * (FRAME_SIZE as int) <= (count - 1) * (
                        FRAME_SIZE as int)) by (nonlinear_arith)
                            requires
                                remaining as int <= count - 1,
                                FRAME_SIZE as int > 0,
                        ;
                    }
                    let frame = region.start + (remaining as u64) * FRAME_SIZE;
                    proof {
                        assert(usable_frames(rest).len() >= region_frames(region).len());
                        assert(self.position() < usable_frames(self.map()).len());
                        assert(usable_frames(rest)[remaining as int] == region_frames(region)[
                        remaining as int]);
                        assert(usable_frames(self.map())[self.position()] == frame);
                    }
                    self.next = self.next + 1;
                    return Some(frame);
                } else {
                    proof {
                        assert(usable_frames(rest).len() == region_frames(region).len()
                            + usable_frames(rest.drop_first()).len());
                        if self.position() < usable_frames(self.map()).len() {
                            assert(usable_frames(rest)[remaining as int] == usable_frames(
                                rest.drop_first(),
                            )[remaining as int - count]);
                        }
                    }
                    remaining = remaining - (count as usize);
                }
            } else {
                proof {
                    assert(usable_frames(rest) =~= usable_frames(rest.drop_first()));
                }
            }
            i = i + 1;
        }
        proof {
            assert(usable_frames(self.map().skip(n as int)) =~= Seq::<u64>::empty());
            assert(self.position() >= usable_frames(self.map()).len());
        }
        self.next = self.next + 1;
        None
    }
}

} // verus!
