//! Physically contiguous byte buffers for DMA, and the descriptor of the
//! pre-mapped framebuffer window.
//!
//! A device without an IOMMU can only address physical memory, so a buffer
//! handed to it must occupy one unbroken physical span. `PhysBuf` records a
//! byte buffer together with the probed physical addresses of its first and
//! last byte; it can only be built when those endpoints are exactly
//! `len - 1` apart, so every value of the type carries the contiguity
//! guarantee.

use vstd::prelude::*;

verus! {

/// A byte buffer verified to occupy one contiguous physical span. Built
/// only through [`PhysBuf::from_parts`], which enforces the contiguity
/// check; the caller supplies the probed physical addresses of the first
/// and last byte and the buffer's virtual base.
pub struct PhysBuf {
    data: Vec<u8>,
    phys_base: u64,
    phys_last: u64,
    virt_base: u64,
}

impl View for PhysBuf {
    type V = Seq<u8>;

    closed spec fn view(&self) -> Seq<u8> {
        self.data@
    }
}

impl PhysBuf {
    /// The physical address of the buffer's first byte.
    pub closed spec fn spec_addr(self) -> u64 {
        self.phys_base
    }

    /// The physical address of the buffer's last byte.
    pub closed spec fn spec_phys_last(self) -> u64 {
        self.phys_last
    }

    /// The virtual address the buffer lives at.
    pub closed spec fn spec_virt_base(self) -> u64 {
        self.virt_base
    }

    /// Every `PhysBuf` is non-empty and physically contiguous: the probed
    /// endpoints are exactly `len - 1` apart.
    #[verifier::type_invariant]
    pub closed spec fn inv(self) -> bool {
        &&& self.data@.len() >= 1
        &&& self.phys_last == self.phys_base + self.data@.len() - 1
    }

    /// Accepts a buffer as physically contiguous exactly when the probed
    /// physical addresses of its first and last byte are `len - 1` apart;
    /// otherwise the caller must reallocate and try again.
    pub fn from_parts(data: Vec<u8>, phys_first: u64, phys_last: u64, virt_base: u64) -> (r:
        Option<PhysBuf>)
        requires
            data@.len() >= 1,
        ensures
            match r {
                Some(b) => {
                    &&& phys_last == phys_first + data@.len() - 1
                    &&& b@ == data@
                    &&& b.spec_addr() == phys_first
                    &&& b.spec_phys_last() == phys_last
                    &&& b.spec_virt_base() == virt_base
                },
                None => phys_last != phys_first + data@.len() - 1,
            },
    {
        let buffer_end: usize = data.len() - 1;
        if phys_last >= phys_first && phys_last - phys_first == buffer_end as u64 {
            Some(PhysBuf { data, phys_base: phys_first, phys_last, virt_base })
        } else {
            None
        }
    }

    /// The verified physical base address of the buffer.
    pub fn addr(&self) -> (r: u64)
        ensures
            r == self.spec_addr(),
    {
        self.phys_base
    }

    /// The virtual address of the buffer's storage.
    pub fn virt_addr(&self) -> (r: u64)
        ensures
            r == self.spec_virt_base(),
    {
        self.virt_base
    }

    /// The buffer's length in bytes.
    pub fn len(&self) -> (r: usize)
        ensures
            r == self@.len(),
            r >= 1,
    {
        proof {
            use_type_invariant(self);
        }
        self.data.len()
    }

    /// The physical address of the buffer's last byte. It is always exactly
    /// `addr() + len() - 1`: the whole buffer lies in one contiguous
    /// physical span starting at `addr()`.
    pub fn phys_last_addr(&self) -> (r: u64)
        ensures
            self@.len() >= 1,
            r == self.spec_addr() + self@.len() - 1,
    {
        proof {
            use_type_invariant(self);
        }
        self.phys_last
    }
}

/// Descriptor of the pre-mapped, physically contiguous DMA region reserved
/// for the framebuffer: its physical base, the fixed virtual base it is
/// aliased at, and its size. It performs no allocation itself; the region
/// is reserved and mapped at boot and never freed.
#[derive(Clone, Copy, PartialEq, Eq, Structural, Debug)]
pub struct DmaPhysBuf {
    pub phys_start: u64,
    pub virt_start: u64,
    pub size: u64,
}

impl DmaPhysBuf {
    /// Wraps an already reserved and mapped contiguous region.
    pub fn new(phys_start: u64, virt_start: u64, size: u64) -> (r: Self)
        ensures
            r.phys_start == phys_start,
            r.virt_start == virt_start,
            r.size == size,
    {
        DmaPhysBuf { phys_start, virt_start, size }
    }

    /// The starting physical address of the DMA buffer.
    pub fn addr(&self) -> (r: u64)
        ensures
            r == self.phys_start,
    {
        self.phys_start
    }

    /// The starting virtual address of the DMA buffer.
    pub fn virt_addr(&self) -> (r: u64)
        ensures
            r == self.virt_start,
    {
        self.virt_start
    }

    /// The size of the DMA buffer in bytes.
    pub fn len(&self) -> (r: u64)
        ensures
            r == self.size,
    {
        self.size
    }
}

} // verus!
