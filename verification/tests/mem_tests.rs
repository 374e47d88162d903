use moros_core::mem::{
    compute_memory_size, init, memory_free, memory_size, memory_used, record_heap_stats,
    select_framebuffer_region, virt_to_phys, BootInfoFrameAllocator, MemoryRegion,
    MemoryRegionKind, ReservedRange, FRAMEBUFFER_SIZE_IN_BYTES, FRAMEBUFFER_VIRT_START,
};

fn region(start: u64, end: u64, kind: MemoryRegionKind) -> MemoryRegion {
    MemoryRegion { start, end, kind }
}

fn boot_scenario_map() -> Vec<MemoryRegion> {
    vec![
        region(0, 0x9FC00, MemoryRegionKind::Usable),
        region(0x9FC00, 0x100000, MemoryRegionKind::Reserved),
        region(0x100000, 0x900000, MemoryRegionKind::Usable),
    ]
}

#[test]
fn boot_scenario_selects_first_large_aligned_usable_region() {
    let map = boot_scenario_map();
    let range = select_framebuffer_region(&map).expect("a suitable region exists");
    assert_eq!(range.start, 0x100000);
    assert_eq!(range.end, 0x100000 + FRAMEBUFFER_SIZE_IN_BYTES);
}

#[test]
fn boot_scenario_excludes_reservation_from_allocation() {
    let map = boot_scenario_map();
    let range = select_framebuffer_region(&map).unwrap();
    let mut allocator = BootInfoFrameAllocator::init(map, Some(range));
    let mut count = 0u64;
    while let Some(frame) = allocator.allocate_frame() {
        assert!(
            !(0x100000 <= frame && frame < 0x900000),
            "frame {frame:#x} lies in the reserved range"
        );
        count += 1;
        assert!(count < 10_000, "allocator failed to terminate");
    }
    // The first usable region holds 0x9F000 / 0x1000 + 1 = 160 frames
    // (candidates 0x0 through 0x9F000); the second usable region is
    // entirely reserved.
    assert_eq!(count, 160);
}

#[test]
fn select_framebuffer_region_rejects_small_and_unaligned_regions() {
    // Too small.
    let map = vec![region(0, 0x100000, MemoryRegionKind::Usable)];
    assert!(select_framebuffer_region(&map).is_none());
    // Large enough but not usable.
    let map = vec![region(0, 0x1000000, MemoryRegionKind::Reserved)];
    assert!(select_framebuffer_region(&map).is_none());
    // Large enough but unaligned start.
    let map = vec![region(0x100, 0x1000100, MemoryRegionKind::Usable)];
    assert!(select_framebuffer_region(&map).is_none());
    // The first suitable wins over a later one.
    let map = vec![
        region(0x1000, 0x2000, MemoryRegionKind::Usable),
        region(0x1000000, 0x2000000, MemoryRegionKind::Usable),
        region(0x4000000, 0x5000000, MemoryRegionKind::Usable),
    ];
    assert_eq!(select_framebuffer_region(&map).unwrap().start, 0x1000000);
}

#[test]
fn allocator_returns_ascending_distinct_frames() {
    let map = vec![
        region(0x0, 0x3000, MemoryRegionKind::Usable),
        region(0x3000, 0x5000, MemoryRegionKind::Reserved),
        region(0x5000, 0x8000, MemoryRegionKind::Usable),
    ];
    let mut allocator = BootInfoFrameAllocator::init(map, None);
    let mut frames = Vec::new();
    while let Some(frame) = allocator.allocate_frame() {
        frames.push(frame);
    }
    assert_eq!(frames, vec![0x0, 0x1000, 0x2000, 0x5000, 0x6000, 0x7000]);
    for w in frames.windows(2) {
        assert!(w[0] < w[1]);
    }
    // Exhausted for good.
    assert_eq!(allocator.allocate_frame(), None);
}

#[test]
fn allocator_skips_reserved_candidates_without_aborting() {
    let map = vec![region(0x0, 0x5000, MemoryRegionKind::Usable)];
    let reserved = ReservedRange { start: 0x1000, end: 0x3000 };
    let mut allocator = BootInfoFrameAllocator::init(map, Some(reserved));
    assert_eq!(allocator.allocate_frame(), Some(0x0));
    // 0x1000 and 0x2000 are skipped, the scan goes on past them.
    assert_eq!(allocator.allocate_frame(), Some(0x3000));
    assert_eq!(allocator.allocate_frame(), Some(0x4000));
    assert_eq!(allocator.allocate_frame(), None);
}

#[test]
fn memory_size_counts_regions_and_low_holes() {
    // A hole before a region that starts below 1 MiB is counted as BIOS
    // memory; the regions' own sizes always count.
    let map = vec![
        region(0x1000, 0x2000, MemoryRegionKind::Usable),
        region(0x3000, 0x5000, MemoryRegionKind::Reserved),
    ];
    // hole 0x1000 + size 0x1000 + hole 0x1000 + size 0x2000
    assert_eq!(compute_memory_size(&map), 0x5000);
}

#[test]
fn init_builds_the_whole_memory_system() {
    let map = boot_scenario_map();
    let mut sys = init(map, 0x4000_0000_0000).expect("boot must find a framebuffer region");
    assert_eq!(memory_size(&sys), 0x900000);
    assert_eq!(sys.window.phys_start, 0x100000);
    assert_eq!(sys.window.virt_start, FRAMEBUFFER_VIRT_START);
    assert_eq!(sys.window.size, FRAMEBUFFER_SIZE_IN_BYTES);

    // The window is aliased 1:1: virtual byte k maps to physical
    // 0x100000 + k.
    assert_eq!(
        virt_to_phys(&sys, FRAMEBUFFER_VIRT_START + 123),
        Some(0x100000 + 123)
    );
    assert_eq!(
        virt_to_phys(&sys, FRAMEBUFFER_VIRT_START + FRAMEBUFFER_SIZE_IN_BYTES - 1),
        Some(0x100000 + FRAMEBUFFER_SIZE_IN_BYTES - 1)
    );
    // One byte past the window does not translate.
    assert_eq!(
        virt_to_phys(&sys, FRAMEBUFFER_VIRT_START + FRAMEBUFFER_SIZE_IN_BYTES),
        None
    );

    // Heap statistics feed the accounting.
    record_heap_stats(&mut sys, 0x100000, 0x40000);
    assert_eq!(memory_used(&sys), 0x900000 - 0x100000 + 0x40000);
    assert_eq!(memory_free(&sys), 0x100000 - 0x40000);
}

#[test]
fn init_fails_without_a_suitable_region() {
    let map = vec![region(0, 0x100000, MemoryRegionKind::Usable)];
    assert!(init(map, 0).is_none());
}
