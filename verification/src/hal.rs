//! Device-facing DMA allocation adapter: the policy behind the driver's
//! memory requests.
//!
//! Large one-time requests are special-cased against the pre-mapped
//! framebuffer window: the first request over 1 MiB that fits is served
//! from the window, which is thereby claimed, one-shot. Every other request
//! is served from a freshly verified contiguous buffer, which is tracked in
//! a table keyed by its virtual base so that deallocation can tell buffers
//! this adapter issued from addresses it never saw.

use vstd::prelude::*;

verus! {

use crate::PAGE_SIZE;
use crate::phys::DmaPhysBuf;
use crate::phys::PhysBuf;

/// Requests strictly larger than this are candidates for the framebuffer
/// window.
pub const DMA_WINDOW_THRESHOLD: u64 = 1024 * 1024;

/// The kernel's DMA adapter state: the fixed window, whether it has been
/// claimed, the table of issued dynamic buffers, and the boot-time
/// physical-memory offset for MMIO translation.
pub struct MyKernelHal {
    pub window: DmaPhysBuf,
    pub fb_allocated: bool,
    pub buffers: Vec<PhysBuf>,
    pub phys_mem_offset: u64,
}

impl MyKernelHal {
    /// Buffer-table well-formedness: virtual bases are unique keys.
    pub open spec fn wf(self) -> bool {
        forall|i: int, j: int|
            0 <= i < j < self.buffers@.len() ==> (#[trigger] self.buffers@[i]).spec_virt_base()
                != (#[trigger] self.buffers@[j]).spec_virt_base()
    }

    /// Whether a request of `size` bytes is served from the framebuffer
    /// window: over the threshold, window not yet claimed, and it fits.
    pub open spec fn window_path(self, size: int) -> bool {
        &&& size > DMA_WINDOW_THRESHOLD
        &&& !self.fb_allocated
        &&& size <= self.window.size
    }

    /// A fresh adapter over the boot-established window, nothing issued
    /// yet.
    pub fn new(window: DmaPhysBuf, phys_mem_offset: u64) -> (r: Self)
        ensures
            r.wf(),
            r.window == window,
            r.fb_allocated == false,
            r.buffers@.len() == 0,
            r.phys_mem_offset == phys_mem_offset,
    {
        MyKernelHal { window, fb_allocated: false, buffers: Vec::new(), phys_mem_offset }
    }

    /// Serves a DMA request of `pages` frames, returning the physical and
    /// virtual base of the memory handed to the device. A request over
    /// 1 MiB, while the window is unclaimed and fits, claims the window and
    /// returns its fixed addresses; every other request consumes `fresh`,
    /// a verified contiguous buffer of exactly the requested size, and
    /// registers it under its virtual base.
    pub fn dma_alloc(&mut self, pages: usize, fresh: Option<PhysBuf>) -> (r: (u64, u64))
        requires
            old(self).wf(),
            pages * PAGE_SIZE <= usize::MAX,
            !old(self).window_path((pages * PAGE_SIZE) as int) ==> (fresh matches Some(b)
                && b@.len() == pages * PAGE_SIZE),
        ensures
            final(self).wf(),
            final(self).window == old(self).window,
            final(self).phys_mem_offset == old(self).phys_mem_offset,
            if old(self).window_path((pages * PAGE_SIZE) as int) {
                &&& r == (old(self).window.phys_start, old(self).window.virt_start)
                &&& final(self).fb_allocated == true
                &&& final(self).buffers@ == old(self).buffers@
            } else {
                &&& (fresh matches Some(b) && {
                    &&& r == (b.spec_addr(), b.spec_virt_base())
                    &&& final(self).fb_allocated == old(self).fb_allocated
                    &&& (if (exists|i: int|
                        0 <= i < old(self).buffers@.len()
                            && (#[trigger] old(self).buffers@[i]).spec_virt_base()
                            == b.spec_virt_base()) {
                        final(self).buffers@ == old(self).buffers@.update(
                            choose|i: int|
                                0 <= i < old(self).buffers@.len()
                                    && (#[trigger] old(self).buffers@[i]).spec_virt_base()
                                    == b.spec_virt_base(),
                            b,
                        )
                    } else {
                        final(self).buffers@ == old(self).buffers@.push(b)
                    })
                })
            },
    {
        let size: usize = pages * PAGE_SIZE as usize;

        // Special allocation for the framebuffer, which is larger than the
        // threshold: hand out the pre-mapped window once.
        if size as u64 > DMA_WINDOW_THRESHOLD && !self.fb_allocated && size as u64
            <= self.window.size {
            self.fb_allocated = true;
            return (self.window.phys_start, self.window.virt_start);
        }

        let buf = match fresh {
            Some(buf) => buf,
            // excluded by the precondition: the dynamic path always comes
            // with a fresh buffer
            None => vstd::pervasive::unreached(),
        };
        let phys = buf.addr();
        let virt = buf.virt_addr();
        let ghost b = buf;

        // Insert keyed by virtual base, replacing a stale entry if one
        // exists.
        let n = self.buffers.len();
        let mut i: usize = 0;
        while i < n
            invariant
                self.wf(),
                self.window == old(self).window,
                self.phys_mem_offset == old(self).phys_mem_offset,
                self.fb_allocated == old(self).fb_allocated,
                self.buffers@ == old(self).buffers@,
                n == self.buffers@.len(),
                i <= n,
                forall|k: int|
                    0 <= k < i ==> (#[trigger] self.buffers@[k]).spec_virt_base()
                        != b.spec_virt_base(),
                buf == b,
                phys == b.spec_addr(),
                virt == b.spec_virt_base(),
                fresh == Some(b),
                !old(self).window_path((pages * PAGE_SIZE) as int),
            decreases n - i,
        {
            let candidate = self.buffers[i].virt_addr();
            if candidate == virt {
                proof {
                    assert((old(self).buffers@[i as int]).spec_virt_base() == b.spec_virt_base());
                }
                self.buffers.set(i, buf);
                proof {
                    assert(exists|w: int|
                        0 <= w < old(self).buffers@.len()
                            && (#[trigger] old(self).buffers@[w]).spec_virt_base()
                            == b.spec_virt_base()) by {
                        assert((old(self).buffers@[i as int]).spec_virt_base()
                            == b.spec_virt_base());
                    }
                    let w = choose|w: int|
                        0 <= w < old(self).buffers@.len()
                            && (#[trigger] old(self).buffers@[w]).spec_virt_base()
                            == b.spec_virt_base();
                    assert(w == i as int);
                    assert forall|a: int, c: int|
                        0 <= a < c < self.buffers@.len() implies (
                    #[trigger] self.buffers@[a]).spec_virt_base() != (
                    #[trigger] self.buffers@[c]).spec_virt_base() by {
                        assert(old(self).buffers@[a].spec_virt_base() != old(
                            self,
                        ).buffers@[c].spec_virt_base());
                    }
                }
                return (phys, virt);
            }
            i = i + 1;
        }
        self.buffers.push(buf);
        proof {
            assert forall|a: int, c: int|
                0 <= a < c < self.buffers@.len() implies (
            #[trigger] self.buffers@[a]).spec_virt_base() != (
            #[trigger] self.buffers@[c]).spec_virt_base() by {
                if c < self.buffers@.len() - 1 {
                    assert(old(self).buffers@[a].spec_virt_base() != old(
                        self,
                    ).buffers@[c].spec_virt_base());
                }
            }
        }
        (phys, virt)
    }

    /// Releases DMA memory the device is done with. The framebuffer window
    /// (recognised by its physical base) is only un-claimed, never freed:
    /// the adapter does not own it. Anything else is removed from the
    /// buffer table by its virtual base; an address this adapter never
    /// issued is reported with `-1`, the documented leak-not-crash policy.
    pub fn dma_dealloc(&mut self, paddr: u64, vaddr: u64) -> (r: i32)
        requires
            old(self).wf(),
        ensures
            final(self).wf(),
            final(self).window == old(self).window,
            final(self).phys_mem_offset == old(self).phys_mem_offset,
            if paddr == old(self).window.phys_start {
                &&& r == 0
                &&& final(self).fb_allocated == false
                &&& final(self).buffers@ == old(self).buffers@
            } else {
                &&& final(self).fb_allocated == old(self).fb_allocated
                &&& (if (exists|i: int|
                    0 <= i < old(self).buffers@.len()
                        && (#[trigger] old(self).buffers@[i]).spec_virt_base() == vaddr) {
                    &&& r == 0
                    &&& final(self).buffers@ == old(self).buffers@.remove(
                        choose|i: int|
                            0 <= i < old(self).buffers@.len()
                                && (#[trigger] old(self).buffers@[i]).spec_virt_base() == vaddr,
                    )
                } else {
                    &&& r == -1
                    &&& final(self).buffers@ == old(self).buffers@
                })
            },
    {
        // The pre-mapped framebuffer region is never deallocated, only
        // released for a potential re-initialization of the driver.
        if paddr == self.window.phys_start {
            self.fb_allocated = false;
            return 0;
        }

        let n = self.buffers.len();
        let mut i: usize = 0;
        while i < n
            invariant
                self.wf(),
                self.window == old(self).window,
                self.phys_mem_offset == old(self).phys_mem_offset,
                self.fb_allocated == old(self).fb_allocated,
                self.buffers@ == old(self).buffers@,
                n == self.buffers@.len(),
                i <= n,
                forall|k: int|
                    0 <= k < i ==> (#[trigger] self.buffers@[k]).spec_virt_base() != vaddr,
                paddr != old(self).window.phys_start,
            decreases n - i,
        {
            let candidate = self.buffers[i].virt_addr();
            if candidate == vaddr {
                self.buffers.remove(i);
                proof {
                    assert(exists|w: int|
                        0 <= w < old(self).buffers@.len()
                            && (#[trigger] old(self).buffers@[w]).spec_virt_base() == vaddr) by {
                        assert((old(self).buffers@[i as int]).spec_virt_base() == vaddr);
                    }
                    let w = choose|w: int|
                        0 <= w < old(self).buffers@.len()
                            && (#[trigger] old(self).buffers@[w]).spec_virt_base() == vaddr;
                    assert(w == i as int);
                    assert forall|a: int, c: int|
                        0 <= a < c < self.buffers@.len() implies (
                    #[trigger] self.buffers@[a]).spec_virt_base() != (
                    #[trigger] self.buffers@[c]).spec_virt_base() by {
                        let a0 = if a < i as int {
                            a
                        } else {
                            a + 1
                        };
                        let c0 = if c < i as int {
                            c
                        } else {
                            c + 1
                        };
                        assert(old(self).buffers@[a0].spec_virt_base() != old(
                            self,
                        ).buffers@[c0].spec_virt_base());
                    }
                }
                return 0;
            }
            i = i + 1;
        }
        -1
    }

    /// Translation for MMIO regions: the boot-time offset is added to the
    /// physical address. The bound on the inputs keeps the sum inside the
    /// address space.
    pub fn mmio_phys_to_virt(&self, paddr: u64) -> (r: u64)
        requires
            paddr + self.phys_mem_offset <= u64::MAX,
        ensures
            r == paddr + self.phys_mem_offset,
    {
        paddr + self.phys_mem_offset
    }
}

/// The DMA window is handed out exactly once. A request over the threshold
/// that fits, made before the window is claimed, is served from the window
/// (so `dma_alloc` returns exactly its fixed physical base); once the
/// window is claimed no request whatsoever is served from it, so a second
/// large request is served from its fresh buffer, whose physical base —
/// lying outside the reserved window — differs from the window's.
pub proof fn lemma_dma_window_one_shot(h0: MyKernelHal, h1: MyKernelHal, size1: int, size2: int)
    requires
        !h0.fb_allocated,
        DMA_WINDOW_THRESHOLD < size1 <= h0.window.size,
        h1.fb_allocated,
    ensures
        h0.window_path(size1),
        !h1.window_path(size2),
{
}

} // verus!
