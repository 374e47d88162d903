use moros_core::hal::MyKernelHal;
use moros_core::phys::{DmaPhysBuf, PhysBuf};

const WINDOW_PHYS: u64 = 0x100000;
const WINDOW_VIRT: u64 = 0xFFFF_FF00_0000_0000;
const WINDOW_SIZE: u64 = 8 * 1024 * 1024;

fn window() -> DmaPhysBuf {
    DmaPhysBuf::new(WINDOW_PHYS, WINDOW_VIRT, WINDOW_SIZE)
}

fn fresh_buffer(pages: usize, phys: u64, virt: u64) -> PhysBuf {
    let len = pages * 4096;
    PhysBuf::from_parts(vec![0u8; len], phys, phys + len as u64 - 1, virt)
        .expect("endpoints chosen contiguous")
}

#[test]
fn first_large_request_gets_the_window_second_a_fresh_buffer() {
    let mut hal = MyKernelHal::new(window(), 0);
    // 2 MiB > 1 MiB, window unclaimed and large enough: the window itself.
    let (phys, virt) = hal.dma_alloc(512, None);
    assert_eq!(phys, WINDOW_PHYS);
    assert_eq!(virt, WINDOW_VIRT);
    // The window is now claimed: a second large request gets a distinct,
    // freshly allocated buffer.
    let fallback = fresh_buffer(512, 0x50_0000, 0x7000_0000);
    let (phys2, virt2) = hal.dma_alloc(512, Some(fallback));
    assert_eq!(phys2, 0x50_0000);
    assert_eq!(virt2, 0x7000_0000);
    assert_ne!(phys2, WINDOW_PHYS);
}

#[test]
fn small_requests_never_touch_the_window() {
    let mut hal = MyKernelHal::new(window(), 0);
    let fallback = fresh_buffer(1, 0x60_0000, 0x7100_0000);
    let (phys, _) = hal.dma_alloc(1, Some(fallback));
    assert_eq!(phys, 0x60_0000);
    // A large request afterwards still finds the window unclaimed.
    let (phys2, _) = hal.dma_alloc(512, None);
    assert_eq!(phys2, WINDOW_PHYS);
}

#[test]
fn oversized_requests_fall_back_to_a_fresh_buffer() {
    let mut hal = MyKernelHal::new(window(), 0);
    // 12 MiB exceeds the 8 MiB window: dynamic allocation instead.
    let pages = (12 * 1024 * 1024) / 4096;
    let fallback = fresh_buffer(pages, 0x80_0000, 0x7200_0000);
    let (phys, _) = hal.dma_alloc(pages, Some(fallback));
    assert_eq!(phys, 0x80_0000);
}

#[test]
fn dealloc_unclaims_the_window_without_freeing_it() {
    let mut hal = MyKernelHal::new(window(), 0);
    let _ = hal.dma_alloc(512, None);
    assert_eq!(hal.dma_dealloc(WINDOW_PHYS, WINDOW_VIRT), 0);
    // Unclaimed again: the next large request is served from the window.
    let (phys, _) = hal.dma_alloc(512, None);
    assert_eq!(phys, WINDOW_PHYS);
}

#[test]
fn dealloc_removes_issued_buffers_and_reports_unknown_addresses() {
    let mut hal = MyKernelHal::new(window(), 0);
    let fallback = fresh_buffer(1, 0x60_0000, 0x7100_0000);
    let (phys, virt) = hal.dma_alloc(1, Some(fallback));
    assert_eq!(hal.dma_dealloc(phys, virt), 0);
    // Deallocating it again: the adapter never issued that address now.
    assert_eq!(hal.dma_dealloc(phys, virt), -1);
    // An address the adapter never saw is an error, not a crash.
    assert_eq!(hal.dma_dealloc(0xDEAD_000, 0xBEEF_000), -1);
}

#[test]
fn mmio_translation_applies_the_boot_offset() {
    let hal = MyKernelHal::new(window(), 0x4000_0000_0000);
    assert_eq!(hal.mmio_phys_to_virt(0xFEB0_0000), 0x4000_0000_0000 + 0xFEB0_0000);
}

#[test]
fn contiguous_buffers_accept_only_matching_endpoints() {
    // Endpoints exactly len - 1 apart: accepted, and the physical span is
    // recorded.
    let buf = PhysBuf::from_parts(vec![0u8; 16], 100, 115, 0x9000).unwrap();
    assert_eq!(buf.addr(), 100);
    assert_eq!(buf.phys_last_addr(), 115);
    assert_eq!(buf.len(), 16);
    assert_eq!(buf.virt_addr(), 0x9000);
    // A gap between the endpoints means the pages are not contiguous:
    // rejected, the caller reallocates and retries.
    assert!(PhysBuf::from_parts(vec![0u8; 16], 100, 120, 0x9000).is_none());
    assert!(PhysBuf::from_parts(vec![0u8; 16], 100, 100, 0x9000).is_none());
}
