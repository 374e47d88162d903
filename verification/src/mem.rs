//! Boot memory map model, the framebuffer reservation, and the physical
//! frame allocator.
//!
//! The allocator is a pure bump allocator over the boot-supplied memory map:
//! it walks the regions in order, skips every non-usable region whole, and
//! within a usable region proposes frames in ascending address order,
//! skipping any candidate that falls inside the active reserved range.
//! Frames are never returned to the pool.

use vstd::prelude::*;

verus! {

use crate::PAGE_SIZE;
use crate::page_aligned;
use crate::aligned4k;
use crate::align4k;
use crate::lemma_align4k_aligned;
use crate::lemma_aligned_lt;
use crate::is_page_aligned;
use crate::paging::PageMapper;
use crate::paging::map_contiguous_physical_region;
use crate::paging::mmio_page_flags;
use crate::paging::page_at;
use crate::paging::page_count;
use crate::paging::last_page;
use crate::phys::DmaPhysBuf;

/// Size in bytes of the fixed framebuffer reservation made at boot.
pub const FRAMEBUFFER_SIZE_IN_BYTES: u64 = 8 * 1024 * 1024;

/// Classification of a boot-reported physical memory region. Only `Usable`
/// regions may ever yield frames; everything else is skipped whole.
#[derive(Clone, Copy, PartialEq, Eq, Structural, Debug)]
pub enum MemoryRegionKind {
    Usable,
    Reserved,
    Other,
}

/// One physical memory region reported by the bootloader, covering the
/// half-open interval `[start, end)`. Immutable after boot.
#[derive(Clone, Copy, PartialEq, Eq, Structural, Debug)]
pub struct MemoryRegion {
    pub start: u64,
    pub end: u64,
    pub kind: MemoryRegionKind,
}

/// The one active reserved physical interval `[start, end)`: the framebuffer
/// window, excluded from frame allocation for the kernel's lifetime.
#[derive(Clone, Copy, PartialEq, Eq, Structural, Debug)]
pub struct ReservedRange {
    pub start: u64,
    pub end: u64,
}

impl ReservedRange {
    /// A well-formed reservation is frame-aligned on both ends.
    pub open spec fn wf(self) -> bool {
        &&& page_aligned(self.start)
        &&& page_aligned(self.end)
        &&& self.start <= self.end
    }

    /// Whether a physical address falls inside the reserved interval.
    pub open spec fn contains(self, addr: int) -> bool {
        self.start <= addr < self.end
    }
}

/// Whether the candidate frame address hits the reserved interval.
pub open spec fn reserved_hit(rsv: Option<ReservedRange>, addr: int) -> bool {
    match rsv {
        Some(r) => r.contains(addr),
        None => false,
    }
}

/// A well-formed boot memory map: regions are ordered and non-overlapping,
/// and every end stays far enough below `u64::MAX` that advancing a cursor
/// by one frame can never wrap.
pub open spec fn map_wf(map: Seq<MemoryRegion>) -> bool {
    &&& forall|i: int| 0 <= i < map.len() ==> (#[trigger] map[i]).start <= map[i].end
    &&& forall|i: int| 0 <= i < map.len() ==> (#[trigger] map[i]).end <= 0xFFFF_FFFF_FFFF_0000u64
    &&& forall|i: int, j: int| 0 <= i < j < map.len() ==> (#[trigger] map[i]).end <= (#[trigger] map[j]).start
}

/// The scan performed by one `allocate_frame` call, as a function of the
/// cursor `(idx, off)`: the first usable, non-reserved frame at or after the
/// cursor, together with the cursor for the next call. `None` means the map
/// is exhausted.
pub open spec fn frame_scan(
    map: Seq<MemoryRegion>,
    rsv: Option<ReservedRange>,
    idx: int,
    off: int,
) -> Option<(int, int, int)>
    decreases
            map.len() - idx,
            (if 0 <= idx < map.len() {
                map[idx].end - map[idx].start - off + (PAGE_SIZE as int)
            } else {
                0
            }),
    when 0 <= idx && 0 <= off
{
    if idx >= map.len() {
        None
    } else if map[idx].kind != MemoryRegionKind::Usable {
        frame_scan(map, rsv, idx + 1, 0)
    } else if map[idx].start + off >= map[idx].end {
        frame_scan(map, rsv, idx + 1, 0)
    } else {
        let frame = align4k(map[idx].start + off);
        if reserved_hit(rsv, frame) {
            frame_scan(map, rsv, idx, off + (PAGE_SIZE as int))
        } else {
            Some((idx, off + (PAGE_SIZE as int), frame))
        }
    }
}

/// Whether every usable region of the map begins on a frame boundary, as
/// boot-supplied maps do.
pub open spec fn usable_starts_aligned(map: Seq<MemoryRegion>) -> bool {
    forall|i: int|
        0 <= i < map.len() && (#[trigger] map[i]).kind == MemoryRegionKind::Usable
            ==> aligned4k(map[i].start as int)
}

/// Sums of frame-aligned addresses are frame-aligned.
proof fn lemma_aligned_add(a: int, b: int)
    requires
        aligned4k(a),
        aligned4k(b),
    ensures
        aligned4k(a + b),
{
    assert(a % 4096 == 0 && b % 4096 == 0 ==> (a + b) % 4096 == 0) by (nonlinear_arith);
}

/// What a successful scan yields, proved by induction over the scan: the
/// frame is the aligned-down candidate one step before the new cursor, it
/// lies in a usable region at or after the starting cursor, and it misses
/// the reserved range. When usable regions start frame-aligned and the
/// offset is a whole number of frames, the frame is the candidate itself.
pub proof fn lemma_frame_scan_props(
    map: Seq<MemoryRegion>,
    rsv: Option<ReservedRange>,
    idx: int,
    off: int,
)
    requires
        0 <= idx,
        0 <= off,
        frame_scan(map, rsv, idx, off) is Some,
    ensures
        ({
            let (i2, o2, f) = frame_scan(map, rsv, idx, off)->Some_0;
            &&& idx <= i2 < map.len()
            &&& map[i2].kind == MemoryRegionKind::Usable
            &&& (PAGE_SIZE as int) <= o2
            &&& (i2 == idx ==> off + (PAGE_SIZE as int) <= o2)
            &&& f == align4k(map[i2].start + o2 - (PAGE_SIZE as int))
            &&& map[i2].start + o2 - (PAGE_SIZE as int) < map[i2].end
            &&& !reserved_hit(rsv, f)
            &&& aligned4k(f)
            &&& 0 <= f
            &&& (off % (PAGE_SIZE as int) == 0 ==> o2 % (PAGE_SIZE as int) == 0)
            &&& ((usable_starts_aligned(map) && off % (PAGE_SIZE as int) == 0) ==> f == map[i2].start
                + o2 - (PAGE_SIZE as int))
        }),
    decreases
            map.len() - idx,
            (if 0 <= idx < map.len() {
                map[idx].end - map[idx].start - off + (PAGE_SIZE as int)
            } else {
                0
            }),
{
    if idx >= map.len() {
        // the scan found nothing, contradicting the hypothesis
    } else if map[idx].kind != MemoryRegionKind::Usable {
        lemma_frame_scan_props(map, rsv, idx + 1, 0);
    } else if map[idx].start + off >= map[idx].end {
        lemma_frame_scan_props(map, rsv, idx + 1, 0);
    } else {
        let candidate = map[idx].start + off;
        let frame = align4k(candidate);
        lemma_align4k_aligned(candidate);
        if reserved_hit(rsv, frame) {
            lemma_frame_scan_props(map, rsv, idx, off + (PAGE_SIZE as int));
        } else {
            if usable_starts_aligned(map) && off % (PAGE_SIZE as int) == 0 {
                lemma_aligned_add(map[idx].start as int, off);
            }
        }
    }
}

/// For every physical address `p` inside the active reserved range, the
/// frame allocator never returns a frame containing `p`: a returned frame
/// lies entirely on one side of the (frame-aligned) reserved interval.
pub proof fn lemma_reserved_range_never_allocated(
    a: BootInfoFrameAllocator,
    rsv: ReservedRange,
    p: int,
)
    requires
        a.wf(),
        a.reserved == Some(rsv),
        a.spec_next() is Some,
        rsv.contains(p),
    ensures
        ({
            let f = a.spec_next()->Some_0.2;
            !(f <= p < f + PAGE_SIZE)
        }),
{
    lemma_frame_scan_props(
        a.memory_map@,
        a.reserved,
        a.current_region_idx as int,
        a.current_frame_offset as int,
    );
    let f = a.spec_next()->Some_0.2;
    if f < rsv.start {
        lemma_aligned_lt(f, rsv.start as int);
    }
}

/// `allocate_frame` never returns the same frame twice: two successive
/// successful calls yield strictly increasing frame addresses, both within
/// one region and across regions. Requires the boot map's usable regions to
/// start frame-aligned and the cursor offset to be a whole number of frames,
/// both of which hold for every allocator built by `init`.
pub proof fn lemma_allocate_no_reuse(a: BootInfoFrameAllocator, b: BootInfoFrameAllocator)
    requires
        a.wf(),
        usable_starts_aligned(a.memory_map@),
        a.current_frame_offset % PAGE_SIZE == 0,
        a.spec_next() is Some,
        b.memory_map@ == a.memory_map@,
        b.reserved == a.reserved,
        b.current_region_idx as int == a.spec_next()->Some_0.0,
        b.current_frame_offset as int == a.spec_next()->Some_0.1,
        b.spec_next() is Some,
    ensures
        a.spec_next()->Some_0.2 < b.spec_next()->Some_0.2,
{
    let map = a.memory_map@;
    let (i2, o2, f1) = a.spec_next()->Some_0;
    let (i3, o3, f2) = b.spec_next()->Some_0;
    lemma_frame_scan_props(
        map,
        a.reserved,
        a.current_region_idx as int,
        a.current_frame_offset as int,
    );
    lemma_frame_scan_props(map, b.reserved, i2, o2);
    if i3 == i2 {
        // both frames come from the same region: offsets strictly advance
        assert(f1 == map[i2].start + o2 - (PAGE_SIZE as int));
        assert(f2 == map[i2].start + o3 - (PAGE_SIZE as int));
    } else {
        // the second frame comes from a later region, which starts at or
        // after the first region's end
        assert(map[i2].end <= map[i3].start);
        assert(f1 < map[i2].end);
        assert(f2 >= map[i3].start);
    }
}

/// One allocation step preserves well-formedness and the whole-frame
/// cursor offset, and never changes the map or the reservation.
pub proof fn lemma_advance_wf(a: BootInfoFrameAllocator)
    requires
        a.wf(),
        a.current_frame_offset % PAGE_SIZE == 0,
    ensures
        a.spec_advance().wf(),
        a.spec_advance().current_frame_offset % PAGE_SIZE == 0,
        a.spec_advance().memory_map == a.memory_map,
        a.spec_advance().reserved == a.reserved,
{
    assert(a.memory_map.len() == a.memory_map@.len());
    if a.spec_next() is Some {
        lemma_frame_scan_props(
            a.memory_map@,
            a.reserved,
            a.current_region_idx as int,
            a.current_frame_offset as int,
        );
    }
}

/// Any number of allocation steps preserves the same invariants.
pub proof fn lemma_advance_n_wf(a: BootInfoFrameAllocator, n: nat)
    requires
        a.wf(),
        a.current_frame_offset % PAGE_SIZE == 0,
    ensures
        a.spec_advance_n(n).wf(),
        a.spec_advance_n(n).current_frame_offset % PAGE_SIZE == 0,
        a.spec_advance_n(n).memory_map == a.memory_map,
        a.spec_advance_n(n).reserved == a.reserved,
    decreases n,
{
    if n > 0 {
        lemma_advance_n_wf(a, (n - 1) as nat);
        lemma_advance_wf(a.spec_advance_n((n - 1) as nat));
    }
}

/// Once the pool is exhausted it stays exhausted.
pub proof fn lemma_exhausted_stays_exhausted(a: BootInfoFrameAllocator)
    requires
        a.spec_next() is None,
    ensures
        a.spec_advance().spec_next() is None,
{
    assert(a.memory_map.len() == a.memory_map@.len());
}

/// Over a whole run of the allocator, the `i`-th and `j`-th returned
/// frames, for `i < j`, are strictly increasing: no frame is ever returned
/// twice without an intervening free, and there is none. Holds whenever the
/// boot map\'s usable regions start frame-aligned and the cursor offset is a
/// whole number of frames, both as `init` establishes them.
pub proof fn lemma_frames_all_distinct(a: BootInfoFrameAllocator, i: nat, j: nat)
    requires
        a.wf(),
        usable_starts_aligned(a.memory_map@),
        a.current_frame_offset % PAGE_SIZE == 0,
        i < j,
        a.spec_frame_at(j) is Some,
    ensures
        a.spec_frame_at(i) is Some,
        a.spec_frame_at(i)->Some_0 < a.spec_frame_at(j)->Some_0,
    decreases j,
{
    let prev = (j - 1) as nat;
    let s_prev = a.spec_advance_n(prev);
    lemma_advance_n_wf(a, prev);

    // A later call can only return a frame if the one before it did.
    assert(a.spec_frame_at(prev) is Some) by {
        if s_prev.spec_next() is None {
            lemma_exhausted_stays_exhausted(s_prev);
        }
    }

    // Two successive calls return strictly increasing frames.
    assert(a.spec_frame_at(prev)->Some_0 < a.spec_frame_at(j)->Some_0) by {
        lemma_advance_wf(s_prev);
        assert(s_prev.memory_map.len() == s_prev.memory_map@.len());
        lemma_frame_scan_props(
            s_prev.memory_map@,
            s_prev.reserved,
            s_prev.current_region_idx as int,
            s_prev.current_frame_offset as int,
        );
        let s_j = s_prev.spec_advance();
        assert(a.spec_advance_n(j) == s_j);
        lemma_frame_scan_props(
            s_j.memory_map@,
            s_j.reserved,
            s_j.current_region_idx as int,
            s_j.current_frame_offset as int,
        );
        lemma_allocate_no_reuse(s_prev, s_j);
    }

    if i < prev {
        lemma_frames_all_distinct(a, i, prev);
    }
}

/// Whether a region can host the framebuffer reservation: usable, at least
/// as large as the fixed framebuffer size, and starting on a frame boundary.
pub open spec fn fb_suitable(r: MemoryRegion) -> bool {
    &&& r.kind == MemoryRegionKind::Usable
    &&& r.end - r.start >= FRAMEBUFFER_SIZE_IN_BYTES
    &&& page_aligned(r.start)
}

/// Whether `range` is the reservation the boot scan chooses for this map:
/// it starts at the first suitable region and spans the fixed framebuffer
/// size.
pub open spec fn spec_selected_range(map: Seq<MemoryRegion>, range: ReservedRange) -> bool {
    &&& exists|i: int|
        0 <= i < map.len() && #[trigger] fb_suitable(map[i]) && range.start == map[i].start && (
        forall|j: int| 0 <= j < i ==> !fb_suitable(#[trigger] map[j]))
    &&& range.end == range.start + FRAMEBUFFER_SIZE_IN_BYTES
}

/// Scans the boot memory map for the framebuffer reservation: the first
/// usable region that is at least `FRAMEBUFFER_SIZE_IN_BYTES` large and
/// starts frame-aligned. Returns the reserved interval, or `None` when no
/// region qualifies (a fatal boot condition for the caller to act on).
pub fn select_framebuffer_region(map: &Vec<MemoryRegion>) -> (r: Option<ReservedRange>)
    requires
        map_wf(map@),
    ensures
        match r {
            Some(range) => spec_selected_range(map@, range) && range.wf(),
            None => forall|i: int| 0 <= i < map@.len() ==> !fb_suitable(#[trigger] map@[i]),
        },
{
    let mut i: usize = 0;
    while i < map.len()
        invariant
            map_wf(map@),
            i <= map.len(),
            forall|j: int| 0 <= j < i ==> !fb_suitable(#[trigger] map@[j]),
        decreases map.len() - i,
    {
        let region = map[i];
        if region.kind == MemoryRegionKind::Usable && region.end - region.start
            >= FRAMEBUFFER_SIZE_IN_BYTES && is_page_aligned(region.start) {
            let start = region.start;
            let end = start + FRAMEBUFFER_SIZE_IN_BYTES;
            proof {
                lemma_aligned_add(start as int, FRAMEBUFFER_SIZE_IN_BYTES as int);
                assert(fb_suitable(map@[i as int]));
            }
            return Some(ReservedRange { start, end });
        }
        i = i + 1;
    }
    None
}

/// The total RAM reported at boot, as the original accounting defines it:
/// the sum of all region sizes, plus any hole before a region that starts
/// below 1 MiB (BIOS memory).
pub open spec fn spec_memory_size(map: Seq<MemoryRegion>, i: int, last_end: int, acc: int) -> int
    decreases map.len() - i,
{
    if i < 0 || i >= map.len() {
        acc
    } else {
        let start = map[i].start as int;
        let end = map[i].end as int;
        let hole = start - last_end;
        let acc2 = if hole > 0 && start < 0x100000 {
            acc + hole
        } else {
            acc
        };
        spec_memory_size(map, i + 1, end, acc2 + (end - start))
    }
}

/// Computes the boot-time RAM count over the memory map.
pub fn compute_memory_size(map: &Vec<MemoryRegion>) -> (r: u64)
    requires
        map_wf(map@),
    ensures
        r == spec_memory_size(map@, 0, 0, 0),
{
    let mut memory_size: u64 = 0;
    let mut last_end_addr: u64 = 0;
    let mut i: usize = 0;
    while i < map.len()
        invariant
            map_wf(map@),
            i <= map.len(),
            memory_size <= last_end_addr,
            i < map.len() ==> last_end_addr <= map@[i as int].start,
            i > 0 ==> last_end_addr == map@[i - 1].end,
            i == 0 ==> last_end_addr == 0,
            spec_memory_size(map@, i as int, last_end_addr as int, memory_size as int)
                == spec_memory_size(map@, 0, 0, 0),
        decreases map.len() - i,
    {
        let region = map[i];
        let hole = region.start - last_end_addr;
        if hole > 0 && region.start < 0x100000 {
            memory_size = memory_size + hole;
        }
        memory_size = memory_size + (region.end - region.start);
        last_end_addr = region.end;
        i = i + 1;
    }
    memory_size
}

/// The frame allocator over the boot memory map. The cursor
/// `(current_region_idx, current_frame_offset)` only ever advances; there is
/// no deallocation.
pub struct BootInfoFrameAllocator {
    pub memory_map: Vec<MemoryRegion>,
    pub reserved: Option<ReservedRange>,
    pub current_region_idx: usize,
    pub current_frame_offset: u64,
}

impl BootInfoFrameAllocator {
    /// Well-formedness: the map is ordered and bounded, the reservation is
    /// frame-aligned, and the cursor stays within one frame past the current
    /// region's span.
    pub open spec fn wf(self) -> bool {
        &&& map_wf(self.memory_map@)
        &&& match self.reserved {
            Some(r) => r.wf(),
            None => true,
        }
        &&& self.current_region_idx <= self.memory_map.len()
        &&& (self.current_region_idx < self.memory_map.len() ==> self.current_frame_offset
            <= self.memory_map[self.current_region_idx as int].end
            - self.memory_map[self.current_region_idx as int].start + PAGE_SIZE)
    }

    /// The scan the next `allocate_frame` call will perform.
    pub open spec fn spec_next(self) -> Option<(int, int, int)> {
        frame_scan(
            self.memory_map@,
            self.reserved,
            self.current_region_idx as int,
            self.current_frame_offset as int,
        )
    }

    /// The allocator state after one `allocate_frame` call.
    pub open spec fn spec_advance(self) -> BootInfoFrameAllocator {
        match self.spec_next() {
            Some((idx, off, f)) => BootInfoFrameAllocator {
                memory_map: self.memory_map,
                reserved: self.reserved,
                current_region_idx: idx as usize,
                current_frame_offset: off as u64,
            },
            None => BootInfoFrameAllocator {
                memory_map: self.memory_map,
                reserved: self.reserved,
                current_region_idx: self.memory_map@.len() as usize,
                current_frame_offset: 0,
            },
        }
    }

    /// The allocator state after `n` `allocate_frame` calls.
    pub open spec fn spec_advance_n(self, n: nat) -> BootInfoFrameAllocator
        decreases n,
    {
        if n == 0 {
            self
        } else {
            self.spec_advance_n((n - 1) as nat).spec_advance()
        }
    }

    /// The frame that the `k`-th `allocate_frame` call from this state
    /// returns, if the pool lasts that long.
    pub open spec fn spec_frame_at(self, k: nat) -> Option<u64> {
        match self.spec_advance_n(k).spec_next() {
            Some((idx, off, f)) => Some(f as u64),
            None => None,
        }
    }

    /// Builds an allocator whose cursor starts at the first region. The
    /// reservation must already be recorded so that no frame inside it is
    /// ever proposed.
    pub fn init(memory_map: Vec<MemoryRegion>, reserved: Option<ReservedRange>) -> (r: Self)
        requires
            map_wf(memory_map@),
            (reserved matches Some(rr) ==> rr.wf()),
        ensures
            r.memory_map == memory_map,
            r.reserved == reserved,
            r.current_region_idx == 0,
            r.current_frame_offset == 0,
            r.wf(),
    {
        BootInfoFrameAllocator { memory_map, reserved, current_region_idx: 0, current_frame_offset: 0 }
    }

    /// Whether a candidate frame address may be handed out, i.e. does not
    /// fall inside the active reserved range.
    pub fn is_frame_usable(&self, frame_addr: u64) -> (r: bool)
        ensures
            r == !reserved_hit(self.reserved, frame_addr as int),
    {
        if let Some(range) = self.reserved {
            !(frame_addr >= range.start && frame_addr < range.end)
        } else {
            true
        }
    }

    /// Hands out the next frame: the first usable, non-reserved candidate at
    /// or after the cursor, or `None` once the map is exhausted. The memory
    /// map and the reservation never change; only the cursor advances.
    pub fn allocate_frame(&mut self) -> (r: Option<u64>)
        requires
            old(self).wf(),
        ensures
            final(self).memory_map == old(self).memory_map,
            final(self).reserved == old(self).reserved,
            final(self).wf(),
            *final(self) == old(self).spec_advance(),
            match old(self).spec_next() {
                Some((idx, off, frame)) => {
                    &&& r == Some(frame as u64)
                    &&& 0 <= frame <= u64::MAX
                    &&& final(self).current_region_idx as int == idx
                    &&& final(self).current_frame_offset as int == off
                },
                None => {
                    &&& r == None::<u64>
                    &&& final(self).current_region_idx == final(self).memory_map.len()
                    &&& final(self).current_frame_offset == 0
                },
            },
    {
        loop
            invariant
                self.wf(),
                self.memory_map == old(self).memory_map,
                self.reserved == old(self).reserved,
                frame_scan(
                    self.memory_map@,
                    self.reserved,
                    self.current_region_idx as int,
                    self.current_frame_offset as int,
                ) == old(self).spec_next(),
            decreases
                    self.memory_map.len() - self.current_region_idx,
                    (if self.current_region_idx < self.memory_map.len() {
                        self.memory_map[self.current_region_idx as int].end
                            - self.memory_map[self.current_region_idx as int].start
                            - self.current_frame_offset + PAGE_SIZE
                    } else {
                        0
                    }),
        {
            if self.current_region_idx >= self.memory_map.len() {
                self.current_region_idx = self.memory_map.len();
                self.current_frame_offset = 0;
                return None;
            }
            let region = self.memory_map[self.current_region_idx];

            if region.kind != MemoryRegionKind::Usable {
                self.current_region_idx = self.current_region_idx + 1;
                self.current_frame_offset = 0;
                continue;
            }

            if region.start + self.current_frame_offset >= region.end {
                self.current_region_idx = self.current_region_idx + 1;
                self.current_frame_offset = 0;
                continue;
            }

            let candidate: u64 = region.start + self.current_frame_offset;
            let frame: u64 = candidate - candidate % PAGE_SIZE;
            if self.is_frame_usable(frame) {
                self.current_frame_offset = self.current_frame_offset + PAGE_SIZE;
                return Some(frame);
            } else {
                self.current_frame_offset = self.current_frame_offset + PAGE_SIZE;
                continue;
            }
        }
    }
}

/// The fixed virtual base the framebuffer window is aliased at.
pub const FRAMEBUFFER_VIRT_START: u64 = 0xFFFF_FF00_0000_0000;

/// Everything the memory subsystem hands the rest of the kernel at boot:
/// the RAM count, the frame allocator with its active reservation, the page
/// mapper with the framebuffer window already aliased, the window
/// descriptor, and the heap statistics recorded later.
pub struct MemorySystem {
    pub total_memory: u64,
    pub allocator: BootInfoFrameAllocator,
    pub mapper: PageMapper,
    pub window: DmaPhysBuf,
    pub heap_size: u64,
    pub heap_used: u64,
}

impl MemorySystem {
    /// Well-formedness of the assembled subsystem.
    pub open spec fn wf(self) -> bool {
        &&& self.allocator.wf()
        &&& self.mapper.wf()
        &&& self.heap_used <= self.heap_size <= self.total_memory
    }
}

/// Boot-time initialization of the memory subsystem, from the boot-supplied
/// memory map and physical-memory offset: counts RAM, records the
/// framebuffer reservation (before any frame is handed out), builds the
/// frame allocator over it, and aliases the reserved physical interval 1:1
/// onto the fixed virtual window. Returns `None` when no region can host
/// the framebuffer: a fatal boot condition, with no display fallback.
pub fn init(memory_map: Vec<MemoryRegion>, phys_mem_offset: u64) -> (r: Option<MemorySystem>)
    requires
        map_wf(memory_map@),
    ensures
        match r {
            Some(sys) => {
                &&& sys.wf()
                &&& sys.total_memory == spec_memory_size(memory_map@, 0, 0, 0)
                &&& sys.allocator.memory_map@ == memory_map@
                &&& sys.allocator.current_region_idx == 0
                &&& sys.allocator.current_frame_offset == 0
                &&& sys.allocator.reserved matches Some(range) && spec_selected_range(
                    memory_map@,
                    range,
                ) && range.wf() && sys.window.phys_start == range.start
                &&& sys.window.virt_start == FRAMEBUFFER_VIRT_START
                &&& sys.window.size == FRAMEBUFFER_SIZE_IN_BYTES
                &&& sys.mapper.phys_mem_offset == phys_mem_offset
                &&& forall|i: int|
                    0 <= i < page_count(FRAMEBUFFER_VIRT_START, FRAMEBUFFER_SIZE_IN_BYTES)
                        ==> sys.mapper.translation(
                        (#[trigger] page_at(FRAMEBUFFER_VIRT_START, i)) as u64,
                    ) == Some((page_at(sys.window.phys_start, i) as u64, mmio_page_flags()))
                &&& forall|q: u64|
                    !(aligned4k(q as int) && FRAMEBUFFER_VIRT_START <= q <= last_page(
                        FRAMEBUFFER_VIRT_START,
                        FRAMEBUFFER_SIZE_IN_BYTES,
                    )) ==> sys.mapper.translation(q) is None
                &&& sys.heap_size == 0
                &&& sys.heap_used == 0
            },
            None => forall|i: int|
                0 <= i < memory_map@.len() ==> !fb_suitable(#[trigger] memory_map@[i]),
        },
{
    let total_memory = compute_memory_size(&memory_map);

    // Before anything else is handed out, reserve the framebuffer's
    // physical interval; without one the boot cannot continue.
    let range = match select_framebuffer_region(&memory_map) {
        Some(range) => range,
        None => {
            return None;
        },
    };

    let allocator = BootInfoFrameAllocator::init(memory_map, Some(range));
    let mut mapper = PageMapper::new(phys_mem_offset);

    // Alias the reserved physical interval 1:1 into the fixed virtual
    // window, with caching disabled. The mapper is empty, so no page of the
    // window can already be mapped and the aliasing cannot fail.
    let res = map_contiguous_physical_region(
        &mut mapper,
        range.start,
        FRAMEBUFFER_VIRT_START,
        FRAMEBUFFER_SIZE_IN_BYTES,
    );
    proof {
        if res is Err {
            assert(false);
        }
    }

    let window = DmaPhysBuf::new(range.start, FRAMEBUFFER_VIRT_START, FRAMEBUFFER_SIZE_IN_BYTES);
    Some(
        MemorySystem {
            total_memory,
            allocator,
            mapper,
            window,
            heap_size: 0,
            heap_used: 0,
        },
    )
}

/// Records the heap statistics once the kernel heap exists; the memory
/// accounting below reads them.
pub fn record_heap_stats(sys: &mut MemorySystem, heap_size: u64, heap_used: u64)
    requires
        old(sys).wf(),
        heap_used <= heap_size <= old(sys).total_memory,
    ensures
        final(sys).wf(),
        *final(sys) == (MemorySystem { heap_size, heap_used, ..*old(sys) }),
{
    sys.heap_size = heap_size;
    sys.heap_used = heap_used;
}

/// The total RAM counted at boot.
pub fn memory_size(sys: &MemorySystem) -> (r: u64)
    ensures
        r == sys.total_memory,
{
    sys.total_memory
}

/// RAM in use: everything outside the heap, plus the used part of the heap.
pub fn memory_used(sys: &MemorySystem) -> (r: u64)
    requires
        sys.wf(),
    ensures
        r == sys.total_memory - sys.heap_size + sys.heap_used,
{
    (sys.total_memory - sys.heap_size) + sys.heap_used
}

/// RAM still free: the unused part of the heap.
pub fn memory_free(sys: &MemorySystem) -> (r: u64)
    requires
        sys.wf(),
    ensures
        r == sys.heap_size - sys.heap_used,
{
    sys.heap_size - sys.heap_used
}

/// Adds the fixed boot offset to a physical address, giving the virtual
/// address that aliases it. The bound on the inputs keeps the sum inside
/// the address space.
pub fn phys_to_virt(sys: &MemorySystem, addr: u64) -> (r: u64)
    requires
        addr + sys.mapper.phys_mem_offset <= u64::MAX,
    ensures
        r == addr + sys.mapper.phys_mem_offset,
{
    addr + sys.mapper.phys_mem_offset
}

/// Translates a virtual address through the installed mappings.
pub fn virt_to_phys(sys: &MemorySystem, addr: u64) -> (r: Option<u64>)
    requires
        sys.wf(),
    ensures
        match sys.mapper.spec_translate_addr(addr) {
            Some(p) => r == Some(p as u64),
            None => r == None::<u64>,
        },
{
    sys.mapper.translate_addr(addr)
}

} // verus!
