use rustos::kernel::memory::{
    first_usable_frame_in_range, summarize, usable_frame_count, FrameAllocator, MemoryRegion,
    MemoryRegionKind, MemorySummary, PhysicalFrame,
};

#[test]
fn separates_usable_and_reserved_memory() {
    let regions = [
        MemoryRegion { start: 0x1000, end: 0x5000, kind: MemoryRegionKind::Usable },
        MemoryRegion { start: 0x5000, end: 0x6000, kind: MemoryRegionKind::Bootloader },
        MemoryRegion { start: 0x8000, end: 0x9000, kind: MemoryRegionKind::UnknownBios(2) },
    ];

    assert_eq!(
        summarize(&regions),
        MemorySummary {
            usable_regions: 1,
            usable_bytes: 0x4000,
            reserved_regions: 2,
            reserved_bytes: 0x2000,
        }
    );
}

#[test]
fn clamps_inverted_regions_instead_of_underflowing() {
    let regions = [MemoryRegion { start: 10, end: 5, kind: MemoryRegionKind::Usable }];

    assert_eq!(summarize(&regions).usable_bytes, 0);
}

#[test]
fn allocator_aligns_regions_and_excludes_the_end() {
    let regions = [MemoryRegion { start: 0x100003, end: 0x109001, kind: MemoryRegionKind::Usable }];

    let mut allocator = FrameAllocator::new(&regions);
    let mut frames = [0; 8];
    for frame in &mut frames {
        *frame = allocator.next().unwrap().start_address();
    }
    assert_eq!(
        frames,
        [0x101000, 0x102000, 0x103000, 0x104000, 0x105000, 0x106000, 0x107000, 0x108000]
    );
    assert_eq!(allocator.next(), None);
    assert_eq!(usable_frame_count(&regions), 8);
}

#[test]
fn allocator_skips_reserved_regions_and_continues_across_usable_regions() {
    let regions = [
        MemoryRegion { start: 0x101000, end: 0x103000, kind: MemoryRegionKind::Usable },
        MemoryRegion { start: 0x3000, end: 0x9000, kind: MemoryRegionKind::Bootloader },
        MemoryRegion { start: 0x10a000, end: 0x10c000, kind: MemoryRegionKind::Usable },
    ];

    let mut allocator = FrameAllocator::new(&regions);
    assert_eq!(allocator.next().unwrap().start_address(), 0x101000);
    assert_eq!(allocator.next().unwrap().start_address(), 0x102000);
    assert_eq!(allocator.next().unwrap().start_address(), 0x10a000);
    assert_eq!(allocator.next().unwrap().start_address(), 0x10b000);
    assert_eq!(allocator.next(), None);
}

#[test]
fn allocator_skips_the_lower_megabyte() {
    let regions = [MemoryRegion { start: 0, end: 0x102000, kind: MemoryRegionKind::Usable }];

    let mut allocator = FrameAllocator::new(&regions);
    assert_eq!(allocator.next().unwrap().start_address(), 0x100000);
    assert_eq!(allocator.next().unwrap().start_address(), 0x101000);
    assert_eq!(allocator.next(), None);
}

#[test]
fn starting_at_survives_reserved_regions_before_usable_memory() {
    let regions = [
        MemoryRegion { start: 0, end: 0x540000, kind: MemoryRegionKind::Bootloader },
        MemoryRegion { start: 0x540000, end: 0x550000, kind: MemoryRegionKind::Usable },
    ];

    assert_eq!(
        FrameAllocator::starting_at(&regions, 0x544000).next().unwrap().start_address(),
        0x544000
    );
}

#[test]
fn next_available_address_preserves_cursor_across_regions() {
    let regions = [
        MemoryRegion { start: 0x900000, end: 0x902000, kind: MemoryRegionKind::Usable },
        MemoryRegion { start: 0x800000, end: 0x802000, kind: MemoryRegionKind::Usable },
    ];

    let mut allocator = FrameAllocator::starting_at(&regions, 0x900000);
    assert_eq!(allocator.next_available_address(), Some(0x900000));
    assert_eq!(allocator.next().unwrap().start_address(), 0x900000);
    assert_eq!(allocator.next_available_address(), Some(0x901000));
    assert_eq!(allocator.next().unwrap().start_address(), 0x901000);
    assert_eq!(allocator.next_available_address(), None);
}

#[test]
fn allocator_ignores_unrepresentable_alignment() {
    let regions = [MemoryRegion { start: u64::MAX - 1023, end: u64::MAX, kind: MemoryRegionKind::Usable }];

    assert_eq!(usable_frame_count(&regions), 0);
    assert_eq!(FrameAllocator::new(&regions).next(), None);
}

#[test]
fn finds_a_page_only_inside_a_usable_range() {
    let regions = [
        MemoryRegion { start: 0x1000, end: 0x5000, kind: MemoryRegionKind::Usable },
        MemoryRegion { start: 0x8000, end: 0xa000, kind: MemoryRegionKind::Bootloader },
        MemoryRegion { start: 0xc000, end: 0x11000, kind: MemoryRegionKind::Usable },
    ];

    assert_eq!(
        first_usable_frame_in_range(&regions, 0x8001, 0x10000).map(PhysicalFrame::start_address),
        Some(0xc000)
    );
    assert_eq!(first_usable_frame_in_range(&regions, 0x5000, 0x8000), None);
}

#[test]
fn starting_at_rounds_down_and_never_goes_below_a_megabyte() {
    let regions = [MemoryRegion { start: 0, end: 0x200000, kind: MemoryRegionKind::Usable }];
    assert_eq!(FrameAllocator::starting_at(&regions, 0x150fff).next_available_address(), Some(0x150000));
    assert_eq!(FrameAllocator::starting_at(&regions, 0x1000).next_available_address(), Some(0x100000));
}

#[test]
fn summary_saturates_and_counts_every_region() {
    let regions = [
        MemoryRegion { start: 0, end: u64::MAX, kind: MemoryRegionKind::Usable },
        MemoryRegion { start: 0, end: 10, kind: MemoryRegionKind::Usable },
        MemoryRegion { start: 0, end: 10, kind: MemoryRegionKind::UnknownUefi(7) },
    ];
    assert_eq!(
        summarize(&regions),
        MemorySummary {
            usable_regions: 2,
            usable_bytes: u64::MAX,
            reserved_regions: 1,
            reserved_bytes: 10,
        }
    );
    assert_eq!(MemorySummary::default().usable_regions, 0);
}

#[test]
fn heap_report_names_its_fixed_place() {
    let stats = rustos::kernel::heap::HeapStats::mapped(512, Some(0x30_0000));
    assert_eq!(stats.start, 0x4444_4444_0000);
    assert_eq!(stats.size, 2 * 1024 * 1024);
    assert_eq!(stats.pages, 512);
    assert_eq!(stats.next_frame_address, Some(0x30_0000));
    assert_ne!(rustos::kernel::heap::HeapError::OutOfFrames, rustos::kernel::heap::HeapError::MappingFailed { page: 0 });
}
