use moros_core::mem::{BootInfoFrameAllocator, MemoryRegion, MemoryRegionKind};
use moros_core::paging::{
    alloc_pages, free_pages, map_contiguous_physical_region, MapError, PageMapper,
};

fn small_allocator(frames: u64) -> BootInfoFrameAllocator {
    let map = vec![MemoryRegion {
        start: 0x10000,
        end: 0x10000 + frames * 0x1000,
        kind: MemoryRegionKind::Usable,
    }];
    BootInfoFrameAllocator::init(map, None)
}

#[test]
fn map_to_and_unmap_round_trip() {
    let mut mapper = PageMapper::new(0);
    assert!(mapper.map_to(0x4000_0000, 0x10000, moros_core::paging::PageFlags {
        present: true,
        writable: true,
        user_accessible: true,
        no_cache: false,
        accessed: false,
        global: false,
    }).is_ok());
    assert_eq!(mapper.translate_addr(0x4000_0000 + 5), Some(0x10000 + 5));
    // Mapping the same page again fails.
    assert_eq!(
        mapper.map_to(0x4000_0000, 0x20000, moros_core::paging::PageFlags {
            present: true,
            writable: true,
            user_accessible: true,
            no_cache: false,
            accessed: false,
            global: false,
        }),
        Err(MapError::PageAlreadyMapped)
    );
    assert_eq!(mapper.unmap(0x4000_0000), Some(0x10000));
    assert_eq!(mapper.translate_addr(0x4000_0000 + 5), None);
    // Unmapping a page that is not mapped is a silent no-op.
    assert_eq!(mapper.unmap(0x4000_0000), None);
}

#[test]
fn alloc_pages_maps_the_whole_range_with_fresh_frames() {
    let mut mapper = PageMapper::new(0);
    let mut allocator = small_allocator(8);
    // 8192 bytes starting page-aligned cover exactly two pages.
    assert!(alloc_pages(&mut mapper, &mut allocator, 0x4000_0000, 8192).is_ok());
    assert_eq!(mapper.translate_addr(0x4000_0000), Some(0x10000));
    assert_eq!(mapper.translate_addr(0x4000_1000), Some(0x11000));
    assert_eq!(mapper.translate_addr(0x4000_2000), None);
    // An unaligned, range-straddling request covers the containing pages.
    assert!(alloc_pages(&mut mapper, &mut allocator, 0x5000_0F00, 0x200).is_ok());
    assert_eq!(mapper.translate_addr(0x5000_0F00), Some(0x12F00));
    assert_eq!(mapper.translate_addr(0x5000_1000), Some(0x13000));
}

#[test]
fn alloc_pages_reports_the_failing_page() {
    // Frame pool of 1: the second page of the range cannot be served.
    let mut mapper = PageMapper::new(0);
    let mut allocator = small_allocator(1);
    let err = alloc_pages(&mut mapper, &mut allocator, 0x4000_0000, 8192).unwrap_err();
    assert_eq!(err.page, 0x4000_1000);
    assert_eq!(err.kind, MapError::FrameAllocationFailed);
    // No rollback: the first page stays mapped.
    assert_eq!(mapper.translate_addr(0x4000_0000), Some(0x10000));

    // A page that is already mapped stops the walk there.
    let mut mapper = PageMapper::new(0);
    let mut allocator = small_allocator(8);
    assert!(alloc_pages(&mut mapper, &mut allocator, 0x4000_1000, 1).is_ok());
    let err = alloc_pages(&mut mapper, &mut allocator, 0x4000_0000, 8192).unwrap_err();
    assert_eq!(err.page, 0x4000_1000);
    assert_eq!(err.kind, MapError::PageAlreadyMapped);
}

#[test]
fn map_then_unmap_leaves_range_untranslatable() {
    let mut mapper = PageMapper::new(0);
    let mut allocator = small_allocator(16);
    assert!(alloc_pages(&mut mapper, &mut allocator, 0x4000_0000, 0x4000).is_ok());
    for k in 0..4u64 {
        assert!(mapper.translate_addr(0x4000_0000 + k * 0x1000).is_some());
    }
    free_pages(&mut mapper, 0x4000_0000, 0x4000);
    for k in 0..4u64 {
        assert_eq!(mapper.translate_addr(0x4000_0000 + k * 0x1000), None);
        assert_eq!(mapper.translate_addr(0x4000_0000 + k * 0x1000 + 0xFFF), None);
    }
}

#[test]
fn free_pages_is_best_effort_and_leaves_neighbours_alone() {
    let mut mapper = PageMapper::new(0);
    let mut allocator = small_allocator(16);
    assert!(alloc_pages(&mut mapper, &mut allocator, 0x4000_0000, 0x3000).is_ok());
    // Unmap the middle page only; holes in the range are silently skipped.
    free_pages(&mut mapper, 0x4000_1000, 0x1000);
    free_pages(&mut mapper, 0x4000_1000, 0x1000);
    assert!(mapper.translate_addr(0x4000_0000).is_some());
    assert_eq!(mapper.translate_addr(0x4000_1000), None);
    assert!(mapper.translate_addr(0x4000_2000).is_some());
}

#[test]
fn contiguous_region_is_aliased_in_ascending_order() {
    let mut mapper = PageMapper::new(0);
    assert!(map_contiguous_physical_region(&mut mapper, 0x100000, 0xFF00_0000, 0x3000).is_ok());
    assert_eq!(mapper.translate_addr(0xFF00_0000), Some(0x100000));
    assert_eq!(mapper.translate_addr(0xFF00_1000), Some(0x101000));
    assert_eq!(mapper.translate_addr(0xFF00_2FFF), Some(0x102FFF));
    assert_eq!(mapper.translate_addr(0xFF00_3000), None);
}

#[test]
fn contiguous_region_fails_on_an_already_mapped_page() {
    let mut mapper = PageMapper::new(0);
    let mut allocator = small_allocator(1);
    assert!(alloc_pages(&mut mapper, &mut allocator, 0xFF00_1000, 1).is_ok());
    assert_eq!(
        map_contiguous_physical_region(&mut mapper, 0x100000, 0xFF00_0000, 0x3000),
        Err(MapError::PageAlreadyMapped)
    );
    // The page before the collision was mapped and stays mapped.
    assert_eq!(mapper.translate_addr(0xFF00_0000), Some(0x100000));
}
