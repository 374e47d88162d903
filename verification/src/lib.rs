//! Physical-memory, page-mapping and device-DMA core of a small bare-metal
//! kernel, together with the PCI enumerator decisions and the GPU
//! orchestration layer that sit on top of it.
//!
//! Everything here works on plain values (addresses as `u64`, register words
//! as `u32`, pixel buffers as `Vec<u8>`); the thin layer that touches real
//! hardware lives outside this crate and feeds those values in.

pub mod mem;
pub mod paging;
pub mod phys;
pub mod hal;
pub mod pci;
pub mod gpu;

use vstd::prelude::*;

verus! {

/// Size in bytes of a physical frame and of a virtual page.
pub const PAGE_SIZE: u64 = 4096;

/// Whether a mathematical address is frame-aligned.
pub open spec fn aligned4k(a: int) -> bool {
    a % (PAGE_SIZE as int) == 0
}

/// Whether a physical or virtual address is frame-aligned.
pub open spec fn page_aligned(addr: u64) -> bool {
    aligned4k(addr as int)
}

/// The largest frame-aligned address at or below `a`: the base of the frame
/// containing `a`.
pub open spec fn align4k(a: int) -> int {
    a - (a % (PAGE_SIZE as int))
}

/// Aligning down yields an aligned address within one frame below `a`.
pub proof fn lemma_align4k_aligned(a: int)
    requires
        0 <= a,
    ensures
        aligned4k(align4k(a)),
        align4k(a) <= a < align4k(a) + PAGE_SIZE,
{
    assert((a - (a % 4096)) % 4096 == 0 && a - (a % 4096) <= a < a - (a % 4096) + 4096)
        by (nonlinear_arith);
}

/// Two distinct aligned addresses are at least one frame apart.
pub proof fn lemma_aligned_lt(a: int, b: int)
    requires
        aligned4k(a),
        aligned4k(b),
        a < b,
    ensures
        a + PAGE_SIZE <= b,
{
    assert(a % 4096 == 0 && b % 4096 == 0 && a < b ==> a + 4096 <= b) by (nonlinear_arith);
}

/// Runtime check for frame alignment.
pub fn is_page_aligned(addr: u64) -> (r: bool)
    ensures
        r == page_aligned(addr),
{
    addr % PAGE_SIZE == 0
}

} // verus!
