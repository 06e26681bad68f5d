//! Bump allocator bookkeeping for the kernel heap: the placement
//! arithmetic and allocation accounting, kept apart from the raw-pointer
//! glue that hands the addresses out.

use vstd::prelude::*;

verus! {

/// Heap start address in the reference memory layout (an x86-64 virtual
/// address, so wider than a 32-bit word).
pub const HEAP_START: u64 = 0x4444_4444_0000;

/// Heap size in bytes (1 MiB).
pub const HEAP_SIZE: u64 = 0x10_0000;

/// True when `align` is a power of two.
pub open spec fn is_power_of_two(align: usize) -> bool {
    exists|n: nat| n < usize::BITS && align == vstd::arithmetic::power2::pow2(n)
}

/// `addr` rounded up to the next multiple of `align`.
pub open spec fn spec_align_up(addr: int, align: int) -> int {
    align * ((addr + align - 1) / align)
}

/// Round `addr` up to the next multiple of `align`.
pub fn align_up(addr: usize, align: usize) -> (r: usize)
    requires
        is_power_of_two(align),
        addr + align - 1 <= usize::MAX,
    ensures
        r == spec_align_up(addr as int, align as int),
        r % align == 0,
        addr <= r < addr + align,
{
    proof {
        let n = choose|n: nat| n < usize::BITS && align == vstd::arithmetic::power2::pow2(n);
        vstd::arithmetic::power2::lemma_pow2_pos(n);
    }
    let t = addr + (align - 1);
    let r = t & !(align - 1);
    proof {
        let n = choose|n: nat| n < usize::BITS && align == vstd::arithmetic::power2::pow2(n);
        vstd::arithmetic::power2::lemma_pow2_pos(n);
        let m = (align - 1) as usize;
        assert(m == vstd::bits::low_bits_mask(n));
        // The masked-off part is exactly the remainder modulo the power
        // of two, so the bit trick rounds down to a multiple.
        vstd::bits::lemma_usize_low_bits_mask_is_mod(t, n);
        assert(t & !m == t - (t & m)) by (bit_vector);
        vstd::arithmetic::div_mod::lemma_fundamental_div_mod(t as int, align as int);
        vstd::arithmetic::div_mod::lemma_mod_bound(t as int, align as int);
        assert(r == align * ((t as int) / (align as int)));
        vstd::arithmetic::div_mod::lemma_mod_multiples_basic(
            (t as int) / (align as int),
            align as int,
        );
    }
    r
}

/// Bump allocator state: a half-open heap window, the next free address
/// and the count of live allocations.  Addresses only move forward; all
/// space is reclaimed at once when the last allocation is returned.
pub struct BumpAllocator {
    heap_start: usize,
    heap_end: usize,
    next: usize,
    allocations: usize,
}

impl BumpAllocator {
    /// Start of the heap window.
    pub closed spec fn start(self) -> int {
        self.heap_start as int
    }

    /// End of the heap window (exclusive).
    pub closed spec fn end(self) -> int {
        self.heap_end as int
    }

    /// The next free address.
    pub closed spec fn next_free(self) -> int {
        self.next as int
    }

    /// Number of live allocations.
    pub closed spec fn live(self) -> int {
        self.allocations as int
    }

    /// Structural invariant.
    pub open spec fn wf(self) -> bool {
        self.start() <= self.next_free() <= self.end()
    }

    /// Create an uninitialized allocator (an empty window at address 0).
    pub fn new() -> (a: Self)
        ensures
            a.wf(),
            a.start() == 0,
            a.end() == 0,
            a.next_free() == 0,
            a.live() == 0,
    {
        Self { heap_start: 0, heap_end: 0, next: 0, allocations: 0 }
    }

    /// Point the allocator at its heap window.
    pub fn init(&mut self, heap_start: usize, heap_size: usize)
        requires
            heap_start + heap_size <= usize::MAX,
        ensures
            final(self).wf(),
            final(self).start() == heap_start,
            final(self).end() == heap_start + heap_size,
            final(self).next_free() == heap_start,
            final(self).live() == old(self).live(),
    {
        self.heap_start = heap_start;
        self.heap_end = heap_start + heap_size;
        self.next = heap_start;
    }

    /// Place an allocation: round the next free address up to `align`,
    /// and claim `size` bytes there if they fit the window.  `None` (and
    /// no state change) when the aligned block does not fit.
    pub fn allocate(&mut self, size: usize, align: usize) -> (r: Option<usize>)
        requires
            old(self).wf(),
            is_power_of_two(align),
            old(self).live() < usize::MAX,
        ensures
            final(self).wf(),
            final(self).start() == old(self).start(),
            final(self).end() == old(self).end(),
            match r {
                Some(p) => {
                    &&& p == spec_align_up(old(self).next_free(), align as int)
                    &&& p % align == 0
                    &&& old(self).next_free() <= p < old(self).next_free() + align
                    &&& p + size <= old(self).end()
                    &&& final(self).next_free() == p + size
                    &&& final(self).live() == old(self).live() + 1
                },
                None => {
                    &&& *final(self) == *old(self)
                    &&& (old(self).next_free() + align - 1 > usize::MAX || spec_align_up(
                        old(self).next_free(),
                        align as int,
                    ) + size > old(self).end())
                },
            },
    {
        proof {
            let n = choose|n: nat|
                n < usize::BITS && align == vstd::arithmetic::power2::pow2(n);
            vstd::arithmetic::power2::lemma_pow2_pos(n);
        }
        if self.next > usize::MAX - (align - 1) {
            return None;
        }
        let alloc_start = align_up(self.next, align);
        let alloc_end = match alloc_start.checked_add(size) {
            Some(end) => end,
            None => {
                return None;
            },
        };
        if alloc_end > self.heap_end {
            return None;
        }
        self.next = alloc_end;
        self.allocations = self.allocations + 1;
        Some(alloc_start)
    }

    /// Account for a freed allocation; when the last one is returned the
    /// whole window is reclaimed at once.
    pub fn dealloc(&mut self)
        requires
            old(self).wf(),
            old(self).live() >= 1,
        ensures
            final(self).wf(),
            final(self).start() == old(self).start(),
            final(self).end() == old(self).end(),
            final(self).live() == old(self).live() - 1,
            final(self).next_free() == if old(self).live() == 1 {
                old(self).start()
            } else {
                old(self).next_free()
            },
    {
        self.allocations = self.allocations - 1;
        if self.allocations == 0 {
            self.next = self.heap_start;
        }
    }
}

} // verus!
