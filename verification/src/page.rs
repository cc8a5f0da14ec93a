//! Page-granular bump allocator over the boot-time heap extent, and the two
//! page-alignment helpers.  The cursor only ever moves forward; nothing is
//! freed or reused — this is a one-shot boot-time allocator.

use vstd::prelude::*;

verus! {

pub const PAGE_SIZE: usize = 0x1000;

/// Round down to a page boundary.
pub fn align_down(bytes: usize) -> (r: usize)
    ensures
        r == (bytes as int / PAGE_SIZE as int) * (PAGE_SIZE as int),
        r <= bytes,
        bytes - r < PAGE_SIZE,
        r % PAGE_SIZE == 0,
{
    let r = bytes & !0xFFFusize;
    proof {
        assert(bytes & !0xFFFusize == (bytes / 0x1000) * 0x1000) by (bit_vector);
        vstd::arithmetic::div_mod::lemma_fundamental_div_mod(bytes as int, PAGE_SIZE as int);
        vstd::arithmetic::div_mod::lemma_mod_multiples_basic(bytes as int / PAGE_SIZE as int, PAGE_SIZE as int);
    }
    r
}

/// Round up to a page boundary; the input must leave room for the rounding.
pub fn align_up(bytes: usize) -> (r: usize)
    requires
        bytes + PAGE_SIZE - 1 <= usize::MAX,
    ensures
        r == ((bytes + PAGE_SIZE - 1) / PAGE_SIZE as int) * (PAGE_SIZE as int),
        bytes <= r,
        r - bytes < PAGE_SIZE,
        r % PAGE_SIZE == 0,
{
    align_down(bytes + (PAGE_SIZE - 1))
}

/// The bump allocator's state: the extent still unallocated.  Both bounds
/// zero means the extent was never handed over (nothing to allocate).
pub struct PageAllocator {
    pub start: usize,
    pub end: usize,
}

impl PageAllocator {
    pub open spec fn wf(self) -> bool {
        self.start <= self.end
    }

    /// How many whole pages the remaining extent covers; zero while
    /// uninitialized.
    pub open spec fn remaining(self) -> int {
        if self.start == 0 || self.end == 0 {
            0
        } else {
            (self.end - self.start) / (PAGE_SIZE as int)
        }
    }

    /// Adopt the heap extent the platform hands over at boot.
    pub fn page_init(start: usize, end: usize) -> (pa: PageAllocator)
        requires
            start <= end,
        ensures
            pa.wf(),
            pa.start == start,
            pa.end == end,
    {
        PageAllocator { start, end }
    }

    /// Number of raw pages still available.
    pub fn pages_remaining(&self) -> (n: usize)
        requires
            self.wf(),
        ensures
            n == self.remaining(),
    {
        if self.end == 0 || self.start == 0 {
            0
        } else {
            (self.end - self.start) / PAGE_SIZE
        }
    }

    /// Allocate `num` consecutive pages: hand out the cursor and advance it,
    /// or refuse when fewer than `num` pages remain.
    pub fn alloc_page(&mut self, num: usize) -> (r: Option<usize>)
        requires
            old(self).wf(),
        ensures
            final(self).wf(),
            old(self).remaining() < num ==> r is None && *final(self) == *old(self),
            old(self).remaining() >= num ==> r == Some(old(self).start) && final(self).start == old(
                self,
            ).start + num * PAGE_SIZE && final(self).end == old(self).end,
    {
        if self.pages_remaining() < num {
            None
        } else {
            let ret = self.start;
            proof {
                let gap = self.end - self.start;
                vstd::arithmetic::div_mod::lemma_fundamental_div_mod(gap, PAGE_SIZE as int);
                vstd::arithmetic::mul::lemma_mul_inequality(
                    num as int,
                    gap / (PAGE_SIZE as int),
                    PAGE_SIZE as int,
                );
            }
            self.start = self.start + PAGE_SIZE * num;
            Some(ret)
        }
    }
}

} // verus!
