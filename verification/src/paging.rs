//! Virtual page mapper model: installs and removes page-to-frame mappings
//! with access flags, and translates virtual addresses.
//!
//! The mapper is modelled as a flat table of `(page, frame, flags)` entries
//! with unique page keys, plus the boot-supplied physical-memory offset used
//! for the fixed offset translation.

use vstd::prelude::*;

verus! {

use crate::PAGE_SIZE;
use crate::page_aligned;
use crate::aligned4k;
use crate::align4k;
use crate::lemma_align4k_aligned;
use crate::mem::BootInfoFrameAllocator;
use crate::mem::lemma_frame_scan_props;

/// Access flags of one mapping.
#[derive(Clone, Copy, PartialEq, Eq, Structural, Debug)]
pub struct PageFlags {
    pub present: bool,
    pub writable: bool,
    pub user_accessible: bool,
    pub no_cache: bool,
    pub accessed: bool,
    pub global: bool,
}

/// The flags used for general-purpose page allocation: present, writable,
/// and reachable from user mode.
pub open spec fn user_page_flags() -> PageFlags {
    PageFlags {
        present: true,
        writable: true,
        user_accessible: true,
        no_cache: false,
        accessed: false,
        global: false,
    }
}

/// The flags used for the 1:1 MMIO-style aliasing of the framebuffer
/// window: caching disabled, marked global, no user-mode access.
pub open spec fn mmio_page_flags() -> PageFlags {
    PageFlags {
        present: true,
        writable: true,
        user_accessible: false,
        no_cache: true,
        accessed: true,
        global: true,
    }
}

/// Why a single mapping could not be installed.
#[derive(Clone, Copy, PartialEq, Eq, Structural, Debug)]
pub enum MapError {
    FrameAllocationFailed,
    PageAlreadyMapped,
}

/// The virtual page mapper. Each entry is `(page, frame, flags)`; page keys
/// are unique, and pages and frames are frame-aligned.
pub struct PageMapper {
    pub entries: Vec<(u64, u64, PageFlags)>,
    pub phys_mem_offset: u64,
}

impl PageMapper {
    /// Well-formedness: unique page keys, everything frame-aligned.
    pub open spec fn wf(self) -> bool {
        &&& forall|i: int, j: int|
            0 <= i < j < self.entries@.len() ==> (#[trigger] self.entries@[i]).0
                != (#[trigger] self.entries@[j]).0
        &&& forall|i: int|
            0 <= i < self.entries@.len() ==> page_aligned((#[trigger] self.entries@[i]).0)
                && page_aligned(self.entries@[i].1)
    }

    /// The mapping installed for a page, if any.
    pub open spec fn translation(self, page: u64) -> Option<(u64, PageFlags)> {
        if exists|i: int| 0 <= i < self.entries@.len() && (#[trigger] self.entries@[i]).0 == page {
            let i = choose|i: int|
                0 <= i < self.entries@.len() && (#[trigger] self.entries@[i]).0 == page;
            Some((self.entries@[i].1, self.entries@[i].2))
        } else {
            None
        }
    }

    /// What translating a virtual address yields: the mapped frame of the
    /// containing page, plus the offset within the page.
    pub open spec fn spec_translate_addr(self, addr: u64) -> Option<int> {
        match self.translation(align4k(addr as int) as u64) {
            Some((frame, flags)) => Some(frame + (addr - align4k(addr as int))),
            None => None,
        }
    }

    /// An empty mapper over the given physical-memory offset.
    pub fn new(phys_mem_offset: u64) -> (r: Self)
        ensures
            r.wf(),
            r.phys_mem_offset == phys_mem_offset,
            forall|q: u64| r.translation(q) is None,
    {
        PageMapper { entries: Vec::new(), phys_mem_offset }
    }

    /// Installs `page -> frame` with the given flags. Fails, changing
    /// nothing, when the page already has a mapping.
    pub fn map_to(&mut self, page: u64, frame: u64, flags: PageFlags) -> (r: Result<
        (),
        MapError,
    >)
        requires
            old(self).wf(),
            page_aligned(page),
            page_aligned(frame),
        ensures
            final(self).wf(),
            final(self).phys_mem_offset == old(self).phys_mem_offset,
            match r {
                Ok(()) => {
                    &&& old(self).translation(page) is None
                    &&& final(self).translation(page) == Some((frame, flags))
                    &&& forall|q: u64|
                        q != page ==> final(self).translation(q) == old(self).translation(q)
                },
                Err(e) => {
                    &&& e == MapError::PageAlreadyMapped
                    &&& old(self).translation(page) is Some
                    &&& final(self).entries@ == old(self).entries@
                    &&& forall|q: u64| final(self).translation(q) == old(self).translation(q)
                },
            },
    {
        let n = self.entries.len();
        let mut i: usize = 0;
        while i < n
            invariant
                self.wf(),
                self.entries@ == old(self).entries@,
                self.phys_mem_offset == old(self).phys_mem_offset,
                n == self.entries@.len(),
                i <= n,
                forall|k: int| 0 <= k < i ==> (#[trigger] self.entries@[k]).0 != page,
            decreases n - i,
        {
            if self.entries[i].0 == page {
                proof {
                    lemma_translation_at(*self, i as int);
                }
                return Err(MapError::PageAlreadyMapped);
            }
            i = i + 1;
        }
        self.entries.push((page, frame, flags));
        proof {
            let s = self.entries@;
            let olds = old(self).entries@;
            assert(s == olds.push((page, frame, flags)));
            assert(s[s.len() - 1].0 == page);
            lemma_translation_at(*self, s.len() - 1);
            assert forall|q: u64| q != page implies self.translation(q) == old(self).translation(
                q,
            ) by {
                lemma_lookup_push_other(olds, (page, frame, flags), q);
                assert(old(self).translation(q) == seq_lookup_opt(olds, q)) by {
                    lemma_translation_is_seq_lookup(*old(self), q);
                }
                lemma_translation_is_seq_lookup(*self, q);
            }
        }
        Ok(())
    }

    /// Removes the mapping of `page`, returning the frame it pointed to, or
    /// `None` (changing nothing) when the page was not mapped.
    pub fn unmap(&mut self, page: u64) -> (r: Option<u64>)
        requires
            old(self).wf(),
        ensures
            final(self).wf(),
            final(self).phys_mem_offset == old(self).phys_mem_offset,
            final(self).translation(page) is None,
            forall|q: u64| q != page ==> final(self).translation(q) == old(self).translation(q),
            match old(self).translation(page) {
                Some((frame, flags)) => r == Some(frame),
                None => {
                    &&& r == None::<u64>
                    &&& final(self).entries@ == old(self).entries@
                    &&& forall|q: u64| final(self).translation(q) == old(self).translation(q)
                },
            },
    {
        let n = self.entries.len();
        let mut i: usize = 0;
        while i < n
            invariant
                self.wf(),
                self.entries@ == old(self).entries@,
                self.phys_mem_offset == old(self).phys_mem_offset,
                n == self.entries@.len(),
                i <= n,
                forall|k: int| 0 <= k < i ==> (#[trigger] self.entries@[k]).0 != page,
            decreases n - i,
        {
            if self.entries[i].0 == page {
                proof {
                    lemma_translation_at(*self, i as int);
                }
                let frame = self.entries[i].1;
                self.entries.remove(i);
                proof {
                    lemma_lookup_remove(old(self).entries@, i as int, page);
                    lemma_translation_is_seq_lookup(*self, page);
                    assert forall|q: u64| q != page implies self.translation(q) == old(
                        self,
                    ).translation(q) by {
                        lemma_lookup_remove_other(old(self).entries@, i as int, q);
                        lemma_translation_is_seq_lookup(*self, q);
                        lemma_translation_is_seq_lookup(*old(self), q);
                    }
                }
                return Some(frame);
            }
            i = i + 1;
        }
        proof {
            assert(self.translation(page) is None);
        }
        None
    }

    /// Translates a virtual address through the installed mappings: the
    /// frame of the containing page plus the offset within the page.
    pub fn translate_addr(&self, addr: u64) -> (r: Option<u64>)
        requires
            self.wf(),
        ensures
            match self.spec_translate_addr(addr) {
                Some(p) => r == Some(p as u64) && 0 <= p <= u64::MAX,
                None => r == None::<u64>,
            },
    {
        let page: u64 = addr - addr % PAGE_SIZE;
        let within: u64 = addr % PAGE_SIZE;
        let n = self.entries.len();
        let mut i: usize = 0;
        while i < n
            invariant
                self.wf(),
                n == self.entries@.len(),
                i <= n,
                page as int == align4k(addr as int),
                within == addr - page,
                forall|k: int| 0 <= k < i ==> (#[trigger] self.entries@[k]).0 != page,
            decreases n - i,
        {
            if self.entries[i].0 == page {
                proof {
                    lemma_translation_at(*self, i as int);
                    assert(self.entries@[i as int].1 + within <= u64::MAX) by {
                        lemma_aligned_fits(self.entries@[i as int].1, within);
                    }
                }
                return Some(self.entries[i].1 + within);
            }
            i = i + 1;
        }
        proof {
            assert(self.translation(page) is None);
        }
        None
    }
}

/// Best-effort unmapping of every page of the inclusive range covering
/// `[addr, addr + size)`: pages that are not currently mapped are silently
/// skipped. Afterwards no page in the range translates; mappings outside the
/// range are untouched.
pub fn free_pages(mapper: &mut PageMapper, addr: u64, size: u64)
    requires
        old(mapper).wf(),
        size == 0 || addr + size - 1 <= u64::MAX,
    ensures
        final(mapper).wf(),
        final(mapper).phys_mem_offset == old(mapper).phys_mem_offset,
        forall|q: u64|
            aligned4k(q as int) && first_page(addr) <= q <= last_page(addr, size)
                ==> final(mapper).translation(q) is None,
        forall|q: u64|
            !(aligned4k(q as int) && first_page(addr) <= q <= last_page(addr, size))
                ==> final(mapper).translation(q) == old(mapper).translation(q),
{
    proof {
        lemma_page_range(addr, size);
    }
    let size0: u64 = if size > 0 {
        size - 1
    } else {
        0
    };
    let start_page: u64 = addr - addr % PAGE_SIZE;
    let last: u64 = addr + size0;
    let end_page: u64 = last - last % PAGE_SIZE;
    let n: u64 = (end_page - start_page) / PAGE_SIZE + 1;
    let mut k: u64 = 0;
    while k < n
        invariant
            mapper.wf(),
            mapper.phys_mem_offset == old(mapper).phys_mem_offset,
            size == 0 || addr + size - 1 <= u64::MAX,
            start_page as int == first_page(addr),
            end_page as int == last_page(addr, size),
            n as int == page_count(addr, size),
            k <= n,
            forall|j: int|
                0 <= j < k ==> mapper.translation((#[trigger] page_at(addr, j)) as u64) is None,
            forall|q: u64|
                !(aligned4k(q as int) && first_page(addr) <= q <= last_page(addr, size))
                    ==> mapper.translation(q) == old(mapper).translation(q),
        decreases n - k,
    {
        proof {
            lemma_page_range(addr, size);
        }
        let page: u64 = start_page + k * PAGE_SIZE;
        let ghost pre = *mapper;
        let _ = mapper.unmap(page);
        proof {
            assert forall|j: int|
                0 <= j < k + 1 implies mapper.translation(
                (#[trigger] page_at(addr, j)) as u64,
            ) is None by {
                if j < k {
                    lemma_page_at_injective(addr, j, k as int);
                }
            }
        }
        k = k + 1;
    }
    proof {
        lemma_page_range(addr, size);
        assert forall|q: u64|
            aligned4k(q as int) && first_page(addr) <= q <= last_page(addr, size) implies mapper
            .translation(q) is None by {
            let j = (q - first_page(addr)) / (PAGE_SIZE as int);
            assert(page_at(addr, j) == q && 0 <= j < page_count(addr, size));
        }
    }
}

/// Mapping then unmapping an arbitrary frame-aligned virtual range leaves
/// every page in that range untranslatable, and every page outside it as it
/// was before the pair of calls. `m0` is the mapper before the mapping
/// attempt, `m1` the mapper after it (whether it succeeded or failed partway,
/// `alloc_pages` touches only pages of the range), and `m2` the mapper after
/// `free_pages` over the same range; the hypotheses are exactly what those
/// two calls ensure.
pub proof fn lemma_map_then_unmap(
    m0: PageMapper,
    m1: PageMapper,
    m2: PageMapper,
    addr: u64,
    size: u64,
)
    requires
        forall|p: u64|
            !(aligned4k(p as int) && first_page(addr) <= p <= last_page(addr, size))
                ==> #[trigger] m1.translation(p) == m0.translation(p),
        forall|p: u64|
            aligned4k(p as int) && first_page(addr) <= p <= last_page(addr, size)
                ==> #[trigger] m2.translation(p) is None,
        forall|p: u64|
            !(aligned4k(p as int) && first_page(addr) <= p <= last_page(addr, size))
                ==> #[trigger] m2.translation(p) == m1.translation(p),
    ensures
        forall|p: u64|
            aligned4k(p as int) && first_page(addr) <= p <= last_page(addr, size)
                ==> #[trigger] m2.translation(p) is None,
        forall|p: u64|
            !(aligned4k(p as int) && first_page(addr) <= p <= last_page(addr, size))
                ==> #[trigger] m2.translation(p) == m0.translation(p),
{
    assert forall|p: u64|
        !(aligned4k(p as int) && first_page(addr) <= p <= last_page(addr, size)) implies m2
        .translation(p) == m0.translation(p) by {
        assert(m2.translation(p) == m1.translation(p));
        assert(m1.translation(p) == m0.translation(p));
    }
}

/// Why a page-range mapping stopped: the page that failed and the reason.
#[derive(Clone, Copy, PartialEq, Eq, Structural, Debug)]
pub struct MapRangeError {
    pub page: u64,
    pub kind: MapError,
}

/// Maps every page of the inclusive range covering `[addr, addr + size)`:
/// for each page, in ascending order, a frame is requested from the
/// allocator and the mapping installed with the general-purpose flags. The
/// walk stops on the first exhausted-pool or already-mapped page, naming the
/// failing page; pages mapped before the failure are not rolled back.
pub fn alloc_pages(
    mapper: &mut PageMapper,
    allocator: &mut BootInfoFrameAllocator,
    addr: u64,
    size: u64,
) -> (r: Result<(), MapRangeError>)
    requires
        old(mapper).wf(),
        old(allocator).wf(),
        size == 0 || addr + size - 1 <= u64::MAX,
    ensures
        final(mapper).wf(),
        final(mapper).phys_mem_offset == old(mapper).phys_mem_offset,
        final(allocator).wf(),
        final(allocator).memory_map == old(allocator).memory_map,
        final(allocator).reserved == old(allocator).reserved,
        match r {
            Ok(()) => {
                &&& forall|i: int|
                    0 <= i < page_count(addr, size) ==> {
                        &&& old(allocator).spec_frame_at(i as nat) is Some
                        &&& old(mapper).translation((#[trigger] page_at(addr, i)) as u64) is None
                        &&& final(mapper).translation(page_at(addr, i) as u64) == Some(
                            (old(allocator).spec_frame_at(i as nat)->Some_0, user_page_flags()),
                        )
                    }
                &&& *final(allocator) == old(allocator).spec_advance_n(
                    page_count(addr, size) as nat,
                )
                &&& forall|q: u64|
                    !(aligned4k(q as int) && first_page(addr) <= q <= last_page(addr, size))
                        ==> final(mapper).translation(q) == old(mapper).translation(q)
            },
            Err(e) => exists|k: int|
                #![trigger page_at(addr, k)]
                {
                    &&& 0 <= k < page_count(addr, size)
                    &&& forall|j: int|
                        0 <= j < k ==> {
                            &&& old(allocator).spec_frame_at(j as nat) is Some
                            &&& old(mapper).translation(
                                (#[trigger] page_at(addr, j)) as u64,
                            ) is None
                            &&& final(mapper).translation(page_at(addr, j) as u64) == Some(
                                (
                                    old(allocator).spec_frame_at(j as nat)->Some_0,
                                    user_page_flags(),
                                ),
                            )
                        }
                    &&& e.page == page_at(addr, k) as u64
                    &&& match old(allocator).spec_frame_at(k as nat) {
                        None => e.kind == MapError::FrameAllocationFailed,
                        Some(f) => e.kind == MapError::PageAlreadyMapped && old(
                            mapper,
                        ).translation(page_at(addr, k) as u64) is Some,
                    }
                    &&& forall|q: u64|
                        !(aligned4k(q as int) && first_page(addr) <= q < page_at(addr, k))
                            ==> final(mapper).translation(q) == old(mapper).translation(q)
                    &&& *final(allocator) == old(allocator).spec_advance_n((k + 1) as nat)
                },
        },
{
    proof {
        lemma_page_range(addr, size);
    }
    let size0: u64 = if size > 0 {
        size - 1
    } else {
        0
    };
    let start_page: u64 = addr - addr % PAGE_SIZE;
    let last: u64 = addr + size0;
    let end_page: u64 = last - last % PAGE_SIZE;
    let n: u64 = (end_page - start_page) / PAGE_SIZE + 1;
    let mut k: u64 = 0;
    while k < n
        invariant
            mapper.wf(),
            mapper.phys_mem_offset == old(mapper).phys_mem_offset,
            allocator.wf(),
            allocator.memory_map == old(allocator).memory_map,
            allocator.reserved == old(allocator).reserved,
            size == 0 || addr + size - 1 <= u64::MAX,
            start_page as int == first_page(addr),
            end_page as int == last_page(addr, size),
            n as int == page_count(addr, size),
            k <= n,
            *allocator == old(allocator).spec_advance_n(k as nat),
            forall|j: int|
                0 <= j < k ==> {
                    &&& old(allocator).spec_frame_at(j as nat) is Some
                    &&& old(mapper).translation((#[trigger] page_at(addr, j)) as u64) is None
                    &&& mapper.translation(page_at(addr, j) as u64) == Some(
                        (old(allocator).spec_frame_at(j as nat)->Some_0, user_page_flags()),
                    )
                },
            forall|q: u64|
                !(aligned4k(q as int) && first_page(addr) <= q < page_at(addr, k as int))
                    ==> mapper.translation(q) == old(mapper).translation(q),
        decreases n - k,
    {
        proof {
            lemma_page_range(addr, size);
        }
        let page: u64 = start_page + k * PAGE_SIZE;
        let frame_opt = allocator.allocate_frame();
        match frame_opt {
            None => {
                proof {
                    let kk = k as int;
                    assert(old(allocator).spec_frame_at(k as nat) is None);
                    assert(*allocator == old(allocator).spec_advance_n((kk + 1) as nat));
                }
                return Err(MapRangeError { page, kind: MapError::FrameAllocationFailed });
            },
            Some(frame) => {
                proof {
                    let pre = old(allocator).spec_advance_n(k as nat);
                    lemma_frame_scan_props(
                        pre.memory_map@,
                        pre.reserved,
                        pre.current_region_idx as int,
                        pre.current_frame_offset as int,
                    );
                    assert(page_aligned(frame));
                    assert(page_aligned(page)) by {
                        assert(aligned4k(page_at(addr, k as int)));
                    }
                }
                let flags = PageFlags {
                    present: true,
                    writable: true,
                    user_accessible: true,
                    no_cache: false,
                    accessed: false,
                    global: false,
                };
                let ghost pre_mapper = *mapper;
                let res = mapper.map_to(page, frame, flags);
                if res.is_err() {
                    proof {
                        let kk = k as int;
                        assert(old(mapper).translation(page_at(addr, kk) as u64) is Some);
                        assert(*allocator == old(allocator).spec_advance_n((kk + 1) as nat));
                    }
                    return Err(MapRangeError { page, kind: MapError::PageAlreadyMapped });
                }
                proof {
                    let kk = k as int;
                    assert(old(mapper).translation(page_at(addr, kk) as u64) is None);
                    assert forall|j: int|
                        0 <= j < kk + 1 implies {
                        &&& old(allocator).spec_frame_at(j as nat) is Some
                        &&& old(mapper).translation((#[trigger] page_at(addr, j)) as u64) is None
                        &&& mapper.translation(page_at(addr, j) as u64) == Some(
                            (old(allocator).spec_frame_at(j as nat)->Some_0, user_page_flags()),
                        )
                    } by {
                        if j < kk {
                            lemma_page_at_injective(addr, j, kk);
                        }
                    }
                    assert forall|q: u64|
                        !(aligned4k(q as int) && first_page(addr) <= q < page_at(addr, kk + 1))
                        implies mapper.translation(q) == old(mapper).translation(q) by {
                        assert(page_at(addr, kk) < page_at(addr, kk + 1));
                    }
                }
                k = k + 1;
            },
        }
    }
    proof {
        lemma_page_range(addr, size);
        assert forall|q: u64|
            !(aligned4k(q as int) && first_page(addr) <= q <= last_page(addr, size)) implies mapper
            .translation(q) == old(mapper).translation(q) by {
            assert(last_page(addr, size) < page_at(addr, n as int));
        }
    }
    Ok(())
}

/// Maps the physical interval `[phys_start, phys_start + size)` 1:1 onto
/// ascending virtual pages at `virt_start`, in ascending order, with caching
/// disabled, access marked global and no user-mode access. Both starts must
/// be frame-aligned. The frame allocator is not consulted: the physical side
/// is already owned. On the first page that is already mapped the walk stops
/// with an error; pages mapped before the failure stay mapped.
pub fn map_contiguous_physical_region(
    mapper: &mut PageMapper,
    phys_start: u64,
    virt_start: u64,
    size: u64,
) -> (r: Result<(), MapError>)
    requires
        old(mapper).wf(),
        page_aligned(phys_start),
        page_aligned(virt_start),
        size == 0 || (virt_start + size - 1 <= u64::MAX && phys_start + size - 1 <= u64::MAX),
    ensures
        final(mapper).wf(),
        final(mapper).phys_mem_offset == old(mapper).phys_mem_offset,
        size == 0 ==> r == Ok::<(), MapError>(()) && final(mapper).entries@ == old(
            mapper,
        ).entries@ && (forall|q: u64|
            final(mapper).translation(q) == old(mapper).translation(q)),
        size > 0 ==> match r {
            Ok(()) => {
                &&& forall|i: int|
                    0 <= i < page_count(virt_start, size) ==> old(mapper).translation(
                        (#[trigger] page_at(virt_start, i)) as u64,
                    ) is None
                &&& forall|i: int|
                    0 <= i < page_count(virt_start, size) ==> final(mapper).translation(
                        (#[trigger] page_at(virt_start, i)) as u64,
                    ) == Some((page_at(phys_start, i) as u64, mmio_page_flags()))
                &&& forall|q: u64|
                    !(aligned4k(q as int) && virt_start <= q <= last_page(virt_start, size))
                        ==> final(mapper).translation(q) == old(mapper).translation(q)
            },
            Err(e) => {
                &&& e == MapError::PageAlreadyMapped
                &&& exists|k: int|
                    #![trigger page_at(virt_start, k)]
                    {
                        &&& 0 <= k < page_count(virt_start, size)
                        &&& old(mapper).translation(page_at(virt_start, k) as u64) is Some
                        &&& forall|j: int|
                            0 <= j < k ==> old(mapper).translation(
                                (#[trigger] page_at(virt_start, j)) as u64,
                            ) is None && final(mapper).translation(page_at(virt_start, j) as u64)
                                == Some((page_at(phys_start, j) as u64, mmio_page_flags()))
                        &&& forall|q: u64|
                            !(aligned4k(q as int) && virt_start <= q < page_at(virt_start, k))
                                ==> final(mapper).translation(q) == old(mapper).translation(q)
                    }
            },
        },
{
    if size == 0 {
        return Ok(());
    }
    proof {
        lemma_page_range(virt_start, size);
        lemma_page_range(phys_start, size);
        assert(first_page(virt_start) == virt_start);
        assert(first_page(phys_start) == phys_start);
    }
    let num_pages: u64 = (size - 1) / PAGE_SIZE + 1;
    proof {
        assert(num_pages as int == page_count(virt_start, size)) by {
            lemma_count_from_size(virt_start, size);
        }
        assert(num_pages as int == page_count(phys_start, size)) by {
            lemma_count_from_size(phys_start, size);
        }
    }
    let mut k: u64 = 0;
    while k < num_pages
        invariant
            mapper.wf(),
            mapper.phys_mem_offset == old(mapper).phys_mem_offset,
            page_aligned(phys_start),
            page_aligned(virt_start),
            size > 0,
            virt_start + size - 1 <= u64::MAX,
            phys_start + size - 1 <= u64::MAX,
            first_page(virt_start) == virt_start,
            first_page(phys_start) == phys_start,
            num_pages as int == page_count(virt_start, size),
            num_pages as int == page_count(phys_start, size),
            k <= num_pages,
            forall|j: int|
                0 <= j < k ==> old(mapper).translation(
                    (#[trigger] page_at(virt_start, j)) as u64,
                ) is None && mapper.translation(page_at(virt_start, j) as u64) == Some(
                    (page_at(phys_start, j) as u64, mmio_page_flags()),
                ),
            forall|q: u64|
                !(aligned4k(q as int) && virt_start <= q < page_at(virt_start, k as int))
                    ==> mapper.translation(q) == old(mapper).translation(q),
        decreases num_pages - k,
    {
        proof {
            lemma_page_range(virt_start, size);
            lemma_page_range(phys_start, size);
        }
        let page: u64 = virt_start + k * PAGE_SIZE;
        let frame: u64 = phys_start + k * PAGE_SIZE;
        let flags = PageFlags {
            present: true,
            writable: true,
            user_accessible: false,
            no_cache: true,
            accessed: true,
            global: true,
        };
        let res = mapper.map_to(page, frame, flags);
        if res.is_err() {
            proof {
                let kk = k as int;
                assert(old(mapper).translation(page_at(virt_start, kk) as u64) is Some);
                assert forall|q: u64|
                    !(aligned4k(q as int) && virt_start <= q < page_at(virt_start, kk)) implies
                    mapper.translation(q) == old(mapper).translation(q) by {}
            }
            return Err(MapError::PageAlreadyMapped);
        }
        proof {
            let kk = k as int;
            assert forall|j: int|
                0 <= j < kk + 1 implies old(mapper).translation(
                (#[trigger] page_at(virt_start, j)) as u64,
            ) is None && mapper.translation(page_at(virt_start, j) as u64) == Some(
                (page_at(phys_start, j) as u64, mmio_page_flags()),
            ) by {
                if j < kk {
                    lemma_page_at_injective(virt_start, j, kk);
                }
            }
            assert forall|q: u64|
                !(aligned4k(q as int) && virt_start <= q < page_at(virt_start, kk + 1)) implies
                mapper.translation(q) == old(mapper).translation(q) by {
                assert(page_at(virt_start, kk) < page_at(virt_start, kk + 1));
                assert(page as int == page_at(virt_start, kk));
                assert(aligned4k(page_at(virt_start, kk)));
                assert(virt_start <= page_at(virt_start, kk));
                assert(q != page);
            }
        }
        k = k + 1;
    }
    proof {
        assert forall|q: u64|
            !(aligned4k(q as int) && virt_start <= q <= last_page(virt_start, size)) implies
            mapper.translation(q) == old(mapper).translation(q) by {
            lemma_page_range(virt_start, size);
        }
    }
    Ok(())
}

/// For an aligned, non-zero range the page count is the size rounded up to
/// whole frames.
proof fn lemma_count_from_size(start: u64, size: u64)
    requires
        page_aligned(start),
        size > 0,
        start + size - 1 <= u64::MAX,
    ensures
        page_count(start, size) == (size - 1) / (PAGE_SIZE as int) + 1,
        first_page(start) == start,
{
    assert(start % 4096 == 0 ==> start - start % 4096 == start) by (nonlinear_arith);
    assert(align4k(start + size - 1) - start == ((size - 1) / 4096) * 4096) by (nonlinear_arith)
        requires
            start % 4096 == 0,
            0 <= start,
            0 <= size - 1,
    ;
    assert((((size - 1) / 4096) * 4096) / 4096 == (size - 1) / 4096) by (nonlinear_arith);
}

/// The base of the first page of the range starting at `addr`.
pub open spec fn first_page(addr: u64) -> int {
    align4k(addr as int)
}

/// The base of the last page of the inclusive range covering
/// `[addr, addr + size)`; for `size == 0` the range still covers the single
/// page containing `addr`.
pub open spec fn last_page(addr: u64, size: u64) -> int {
    align4k(addr + (if size > 0 {
        size - 1
    } else {
        0
    }))
}

/// How many pages the inclusive range covers.
pub open spec fn page_count(addr: u64, size: u64) -> int {
    (last_page(addr, size) - first_page(addr)) / (PAGE_SIZE as int) + 1
}

/// The base of the `k`-th page of the range.
pub open spec fn page_at(addr: u64, k: int) -> int {
    first_page(addr) + k * (PAGE_SIZE as int)
}

/// Aligning down is monotone.
proof fn lemma_align_mono(a: int, b: int)
    requires
        a <= b,
    ensures
        align4k(a) <= align4k(b),
{
    assert(a <= b ==> a - a % 4096 <= b - b % 4096) by (nonlinear_arith);
}

/// The distance between two aligned addresses is a whole number of frames.
proof fn lemma_aligned_diff(a: int, b: int)
    requires
        aligned4k(a),
        aligned4k(b),
        a <= b,
    ensures
        (b - a) % (PAGE_SIZE as int) == 0,
        a + ((b - a) / (PAGE_SIZE as int)) * (PAGE_SIZE as int) == b,
        (b - a) / (PAGE_SIZE as int) >= 0,
{
    assert(a % 4096 == 0 && b % 4096 == 0 && a <= b ==> (b - a) % 4096 == 0 && a + ((b - a)
        / 4096) * 4096 == b && (b - a) / 4096 >= 0) by (nonlinear_arith);
}

/// A whole number of frames past an aligned base is aligned.
proof fn lemma_step_aligned(p: int, k: int)
    requires
        aligned4k(p),
    ensures
        aligned4k(p + k * (PAGE_SIZE as int)),
{
    assert(p % 4096 == 0 ==> (p + k * 4096) % 4096 == 0) by (nonlinear_arith);
}

/// The facts every page-range walk needs: the range is non-empty, its pages
/// are aligned, the `k`-th page stays within the range, and every aligned
/// address in the range is the base of exactly one page of the walk.
pub proof fn lemma_page_range(addr: u64, size: u64)
    requires
        size == 0 || addr + size - 1 <= u64::MAX,
    ensures
        first_page(addr) <= last_page(addr, size),
        page_count(addr, size) >= 1,
        aligned4k(first_page(addr)),
        aligned4k(last_page(addr, size)),
        page_at(addr, page_count(addr, size) - 1) == last_page(addr, size),
        forall|k: int| aligned4k(#[trigger] page_at(addr, k)),
        forall|k: int|
            0 <= k < page_count(addr, size) ==> first_page(addr) <= #[trigger] page_at(addr, k)
                <= last_page(addr, size),
        forall|q: int|
            aligned4k(q) && first_page(addr) <= q <= last_page(addr, size) ==> #[trigger] page_at(
                addr,
                (q - first_page(addr)) / (PAGE_SIZE as int),
            ) == q && 0 <= (q - first_page(addr)) / (PAGE_SIZE as int) < page_count(addr, size),
        0 <= first_page(addr),
        last_page(addr, size) <= u64::MAX,
{
    let size0: int = if size > 0 {
        size - 1
    } else {
        0
    };
    let fp = first_page(addr);
    let lp = last_page(addr, size);
    lemma_align_mono(addr as int, addr + size0);
    lemma_align4k_aligned(addr as int);
    lemma_align4k_aligned(addr + size0);
    lemma_aligned_diff(fp, lp);
    let n = page_count(addr, size);
    assert((n - 1) * 4096 == lp - fp) by (nonlinear_arith)
        requires
            n - 1 == (lp - fp) / 4096,
            (lp - fp) % 4096 == 0,
            lp - fp >= 0,
    ;
    assert forall|k: int| aligned4k(#[trigger] page_at(addr, k)) by {
        lemma_step_aligned(fp, k);
    }
    assert forall|k: int| 0 <= k < n implies fp <= #[trigger] page_at(addr, k) <= lp by {
        assert(0 <= k * 4096 && k * 4096 <= (n - 1) * 4096) by (nonlinear_arith)
            requires
                0 <= k <= n - 1,
        ;
    }
    assert forall|q: int| aligned4k(q) && fp <= q <= lp implies #[trigger] page_at(
        addr,
        (q - fp) / (PAGE_SIZE as int),
    ) == q && 0 <= (q - fp) / (PAGE_SIZE as int) < n by {
        lemma_aligned_diff(fp, q);
        let k = (q - fp) / 4096;
        assert(k * 4096 <= (n - 1) * 4096 ==> k <= n - 1) by (nonlinear_arith);
    }
}

/// Distinct page indices give distinct page bases.
pub proof fn lemma_page_at_injective(addr: u64, j: int, k: int)
    requires
        j != k,
    ensures
        page_at(addr, j) != page_at(addr, k),
{
    assert(j != k ==> j * 4096 != k * 4096) by (nonlinear_arith);
}

/// An aligned frame base leaves room for any offset within the frame.
proof fn lemma_aligned_fits(frame: u64, within: u64)
    requires
        page_aligned(frame),
        within < PAGE_SIZE,
    ensures
        frame + within <= u64::MAX,
{
    assert(frame % 4096 == 0 ==> frame <= 0xFFFF_FFFF_FFFF_F000u64) by (bit_vector);
}

/// Sequential-lookup form of `translation`, used to push facts through
/// `push` and `remove` by induction.
pub open spec fn seq_lookup_opt(s: Seq<(u64, u64, PageFlags)>, page: u64) -> Option<(u64, PageFlags)>
    decreases s.len(),
{
    if s.len() == 0 {
        None
    } else if s[0].0 == page {
        Some((s[0].1, s[0].2))
    } else {
        seq_lookup_opt(s.drop_first(), page)
    }
}

/// With unique keys, `translation` agrees with the sequential lookup.
proof fn lemma_translation_is_seq_lookup(m: PageMapper, page: u64)
    requires
        m.wf(),
    ensures
        m.translation(page) == seq_lookup_opt(m.entries@, page),
{
    lemma_lookup_unique_agree(m.entries@, page);
}

/// On a sequence with unique keys, the sequential lookup returns exactly the
/// entry whose key matches, if one exists.
proof fn lemma_lookup_unique_agree(s: Seq<(u64, u64, PageFlags)>, page: u64)
    requires
        forall|i: int, j: int| 0 <= i < j < s.len() ==> (#[trigger] s[i]).0 != (#[trigger] s[j]).0,
    ensures
        match seq_lookup_opt(s, page) {
            Some(v) => exists|i: int|
                0 <= i < s.len() && (#[trigger] s[i]).0 == page && v == (s[i].1, s[i].2),
            None => forall|i: int| 0 <= i < s.len() ==> (#[trigger] s[i]).0 != page,
        },
    decreases s.len(),
{
    if s.len() > 0 {
        if s[0].0 == page {
        } else {
            lemma_lookup_unique_agree(s.drop_first(), page);
            match seq_lookup_opt(s.drop_first(), page) {
                Some(v) => {
                    let i = choose|i: int|
                        0 <= i < s.drop_first().len() && (#[trigger] s.drop_first()[i]).0 == page
                            && v == (s.drop_first()[i].1, s.drop_first()[i].2);
                    assert(s[i + 1].0 == page && v == (s[i + 1].1, s[i + 1].2));
                },
                None => {
                    assert forall|i: int| 0 <= i < s.len() implies (#[trigger] s[i]).0 != page by {
                        if i > 0 {
                            assert(s.drop_first()[i - 1] == s[i]);
                        }
                    }
                },
            }
        }
    }
}

/// Appending an entry does not change the lookup of any other key.
proof fn lemma_lookup_push_other(s: Seq<(u64, u64, PageFlags)>, e: (u64, u64, PageFlags), q: u64)
    requires
        q != e.0,
    ensures
        seq_lookup_opt(s.push(e), q) == seq_lookup_opt(s, q),
    decreases s.len(),
{
    let sp = s.push(e);
    if s.len() == 0 {
        assert(sp[0] == e);
        assert(sp.drop_first() =~= Seq::<(u64, u64, PageFlags)>::empty());
        assert(seq_lookup_opt(sp, q) == seq_lookup_opt(sp.drop_first(), q));
        assert(seq_lookup_opt(sp.drop_first(), q) == None::<(u64, PageFlags)>);
    } else {
        assert(sp[0] == s[0]);
        assert(sp.drop_first() =~= s.drop_first().push(e));
        lemma_lookup_push_other(s.drop_first(), e, q);
        if s[0].0 == q {
            assert(seq_lookup_opt(sp, q) == Some((sp[0].1, sp[0].2)));
            assert(seq_lookup_opt(s, q) == Some((s[0].1, s[0].2)));
        } else {
            assert(seq_lookup_opt(sp, q) == seq_lookup_opt(sp.drop_first(), q));
            assert(seq_lookup_opt(s, q) == seq_lookup_opt(s.drop_first(), q));
        }
    }
}

/// Removing the entry that holds `page` (with unique keys) makes `page`
/// unmapped.
proof fn lemma_lookup_remove(s: Seq<(u64, u64, PageFlags)>, i: int, page: u64)
    requires
        forall|a: int, b: int| 0 <= a < b < s.len() ==> (#[trigger] s[a]).0 != (#[trigger] s[b]).0,
        0 <= i < s.len(),
        s[i].0 == page,
    ensures
        seq_lookup_opt(s.remove(i), page) == None::<(u64, PageFlags)>,
{
    lemma_lookup_unique_agree(s.remove(i), page);
    if seq_lookup_opt(s.remove(i), page) is Some {
        let j = choose|j: int|
            0 <= j < s.remove(i).len() && (#[trigger] s.remove(i)[j]).0 == page;
        if j < i {
            assert(s[j].0 == page);
        } else {
            assert(s[j + 1].0 == page);
        }
    }
}

/// Removing one entry does not change the lookup of any other key.
proof fn lemma_lookup_remove_other(s: Seq<(u64, u64, PageFlags)>, i: int, q: u64)
    requires
        forall|a: int, b: int| 0 <= a < b < s.len() ==> (#[trigger] s[a]).0 != (#[trigger] s[b]).0,
        0 <= i < s.len(),
        q != s[i].0,
    ensures
        seq_lookup_opt(s.remove(i), q) == seq_lookup_opt(s, q),
{
    lemma_lookup_unique_agree(s, q);
    lemma_lookup_unique_agree(s.remove(i), q);
    match seq_lookup_opt(s, q) {
        Some(v) => {
            let j = choose|j: int| 0 <= j < s.len() && (#[trigger] s[j]).0 == q && v == (s[j].1, s[j].2);
            if j < i {
                assert(s.remove(i)[j] == s[j]);
            } else {
                assert(s.remove(i)[j - 1] == s[j]);
            }
            match seq_lookup_opt(s.remove(i), q) {
                Some(w) => {
                    let k = choose|k: int|
                        0 <= k < s.remove(i).len() && (#[trigger] s.remove(i)[k]).0 == q && w == (
                            s.remove(i)[k].1,
                            s.remove(i)[k].2,
                        );
                    let korig = if k < i {
                        k
                    } else {
                        k + 1
                    };
                    assert(s[korig] == s.remove(i)[k]);
                },
                None => {
                    let jnew = if j < i {
                        j
                    } else {
                        j - 1
                    };
                    assert(s.remove(i)[jnew].0 == q);
                },
            }
        },
        None => {
            if seq_lookup_opt(s.remove(i), q) is Some {
                let k = choose|k: int|
                    0 <= k < s.remove(i).len() && (#[trigger] s.remove(i)[k]).0 == q;
                let korig = if k < i {
                    k
                } else {
                    k + 1
                };
                assert(s[korig] == s.remove(i)[k]);
            }
        },
    }
}

/// With unique keys, the entry at index `i` is what `translation` returns
/// for its page.
proof fn lemma_translation_at(m: PageMapper, i: int)
    requires
        m.wf(),
        0 <= i < m.entries@.len(),
    ensures
        m.translation(m.entries@[i].0) == Some((m.entries@[i].1, m.entries@[i].2)),
{
    let page = m.entries@[i].0;
    assert(exists|j: int| 0 <= j < m.entries@.len() && (#[trigger] m.entries@[j]).0 == page) by {
        assert((m.entries@[i]).0 == page);
    }
    let j = choose|j: int| 0 <= j < m.entries@.len() && (#[trigger] m.entries@[j]).0 == page;
    if i < j {
        assert(m.entries@[i].0 != m.entries@[j].0);
    } else if j < i {
        assert(m.entries@[j].0 != m.entries@[i].0);
    }
}

} // verus!
