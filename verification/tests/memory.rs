use iron_kernel::memory::frame_allocator::FrameAllocator;
use iron_kernel::memory::mapper::{MapError, Mapper, PageFlags};
use iron_kernel::memory::{
    init, map_physical_to_virtual, BootInfo, MapPhysicalError, MemoryInitError, MemoryRegion,
    MemoryRegionKind, Page, PhysFrame,
};

fn usable(start: u64, end: u64) -> MemoryRegion {
    MemoryRegion { start, end, kind: MemoryRegionKind::Usable }
}

fn writable() -> PageFlags {
    PageFlags {
        writable: true,
        user_accessible: false,
        write_through: false,
        no_cache: false,
        no_execute: false,
    }
}

fn page(addr: u64) -> Page {
    Page::containing_address(addr).expect("canonical address")
}

fn fresh_mapper() -> Mapper {
    Mapper::new(PhysFrame::containing_address(0x1000), 0x1000_0000_0000)
}

fn next(allocator: &mut FrameAllocator) -> Option<u64> {
    allocator.allocate().map(|frame| frame.start_address())
}

#[test]
fn frames_come_in_map_order() {
    let mut allocator = FrameAllocator::new(vec![usable(0x1000, 0x3000), usable(0x8000, 0x9000)]);
    assert_eq!(next(&mut allocator), Some(0x1000));
    assert_eq!(next(&mut allocator), Some(0x2000));
    assert_eq!(next(&mut allocator), Some(0x8000));
    assert_eq!(next(&mut allocator), None);
}

#[test]
fn frames_skip_what_is_not_usable() {
    let regions = vec![
        MemoryRegion { start: 0, end: 0x2000, kind: MemoryRegionKind::Bootloader },
        usable(0x2000, 0x3000),
        MemoryRegion { start: 0x3000, end: 0x5000, kind: MemoryRegionKind::UnknownBios(2) },
        MemoryRegion { start: 0x5000, end: 0x6000, kind: MemoryRegionKind::UnknownUefi(7) },
        usable(0x6000, 0x7000),
    ];
    let mut allocator = FrameAllocator::new(regions);
    assert_eq!(next(&mut allocator), Some(0x2000));
    assert_eq!(next(&mut allocator), Some(0x6000));
    assert_eq!(next(&mut allocator), None);
}

#[test]
fn frames_are_whole_and_aligned() {
    // The region starts and ends inside a frame: only the whole frames count.
    let mut allocator = FrameAllocator::new(vec![usable(0x1800, 0x4800)]);
    assert_eq!(next(&mut allocator), Some(0x2000));
    assert_eq!(next(&mut allocator), Some(0x3000));
    assert_eq!(next(&mut allocator), None);
}

#[test]
fn region_smaller_than_a_frame_gives_nothing() {
    let mut allocator = FrameAllocator::new(vec![usable(0x1000, 0x1fff), usable(0x2001, 0x3000)]);
    assert_eq!(next(&mut allocator), None);
}

#[test]
fn region_at_the_end_of_the_address_space() {
    let top = u64::MAX;
    let mut allocator = FrameAllocator::new(vec![usable(top - 0xfff - 0x800, top)]);
    assert_eq!(next(&mut allocator), None);
    let mut allocator = FrameAllocator::new(vec![usable(top - 0x1fff, top)]);
    assert_eq!(next(&mut allocator), Some(top - 0x1fff));
    assert_eq!(next(&mut allocator), None);
}

#[test]
fn exhausted_allocator_stays_exhausted() {
    let mut allocator = FrameAllocator::new(vec![usable(0x1000, 0x2000)]);
    assert_eq!(next(&mut allocator), Some(0x1000));
    for _ in 0..5 {
        assert_eq!(next(&mut allocator), None);
    }
}

#[test]
fn empty_memory_map_is_exhausted_at_once() {
    let mut allocator = FrameAllocator::new(Vec::new());
    assert!(allocator.has_available(0));
    assert!(!allocator.has_available(1));
    assert_eq!(next(&mut allocator), None);
}

#[test]
fn has_available_counts_what_is_left() {
    let mut allocator = FrameAllocator::new(vec![usable(0x1000, 0x4000), usable(0x10000, 0x12000)]);
    assert!(allocator.has_available(5));
    assert!(!allocator.has_available(6));
    assert_eq!(next(&mut allocator), Some(0x1000));
    assert!(allocator.has_available(4));
    assert!(!allocator.has_available(5));
    assert!(!allocator.has_available(u64::MAX));
    while next(&mut allocator).is_some() {}
    assert!(allocator.has_available(0));
    assert!(!allocator.has_available(1));
}

#[test]
fn frame_containing_address_rounds_down() {
    assert_eq!(PhysFrame::containing_address(0x1234).start_address(), 0x1000);
    assert_eq!(PhysFrame::containing_address(0x1000).start_address(), 0x1000);
    assert_eq!(PhysFrame::containing_address(0xfff).start_address(), 0);
}

#[test]
fn frame_from_start_address_wants_alignment() {
    assert_eq!(PhysFrame::from_start_address(0x3000).map(|f| f.start_address()), Some(0x3000));
    assert!(PhysFrame::from_start_address(0x3001).is_none());
}

#[test]
fn page_containing_address_rounds_down() {
    assert_eq!(page(0x4444_4444_0123).start_address(), 0x4444_4444_0000);
    assert_eq!(page(0x4444_4444_0fff).start_address(), 0x4444_4444_0000);
    assert_eq!(page(0x4444_4444_1000).start_address(), 0x4444_4444_1000);
    assert_eq!(page(0xffff_8000_0000_0abc).start_address(), 0xffff_8000_0000_0000);
    assert_eq!(page(0x0000_7fff_ffff_ffff).start_address(), 0x0000_7fff_ffff_f000);
}

#[test]
fn page_rejects_non_canonical_address() {
    assert!(Page::containing_address(0x0000_8000_0000_0000).is_none());
    assert!(Page::containing_address(0xffff_7fff_ffff_ffff).is_none());
    assert!(Page::containing_address(0x1234_0000_0000_0000).is_none());
    assert!(Page::containing_address(0x0000_7fff_ffff_ffff).is_some());
    assert!(Page::containing_address(0xffff_8000_0000_0000).is_some());
}

#[test]
fn init_builds_empty_mapper_and_full_allocator() {
    let info = BootInfo::new(vec![usable(0x1000, 0x3000)], Some(0x18_0000_0000), 0x5000);
    let (mapper, mut allocator) = init(info).expect("memory subsystem");
    assert_eq!(mapper.level_4_frame().start_address(), 0x5000);
    assert_eq!(mapper.physical_memory_offset(), 0x18_0000_0000);
    assert!(!mapper.is_mapped(page(0x4444_4444_0000)));
    assert_eq!(next(&mut allocator), Some(0x1000));
    assert_eq!(next(&mut allocator), Some(0x2000));
    assert_eq!(next(&mut allocator), None);
}

#[test]
fn init_needs_the_physical_memory_window() {
    let info = BootInfo::new(vec![usable(0x1000, 0x3000)], None, 0x5000);
    assert_eq!(init(info).err(), Some(MemoryInitError::NoPhysicalMemoryOffset));
}

#[test]
fn init_needs_an_aligned_root_table() {
    let info = BootInfo::new(vec![usable(0x1000, 0x3000)], Some(0), 0x5008);
    assert_eq!(init(info).err(), Some(MemoryInitError::MisalignedRootTable));
}

#[test]
fn map_then_translate() {
    let mut allocator = FrameAllocator::new(vec![usable(0x10_0000, 0x20_0000)]);
    let mut mapper = fresh_mapper();
    let target = PhysFrame::containing_address(0xb8000);
    let p = page(0x4000_0000);
    assert_eq!(mapper.translate_page(p), None);
    assert_eq!(mapper.missing_tables(p), 3);
    let flush = mapper.map(p, target, writable(), &mut allocator).expect("page is free");
    assert_eq!(flush.target(), p);
    assert_eq!(mapper.translate_page(p), Some(target));
    assert_eq!(mapper.missing_tables(p), 0);
    let entry = mapper.mapping(p).expect("mapped");
    assert_eq!(entry.frame, target);
    assert_eq!(entry.flags, writable());
    assert!(!entry.flushed);
    assert!(!mapper.is_usable(p));
    mapper.flush(flush);
    assert!(mapper.is_usable(p));
    assert_eq!(mapper.mapping(p).map(|e| e.flushed), Some(true));
}

#[test]
fn map_takes_one_frame_for_each_missing_table() {
    let mut allocator = FrameAllocator::new(vec![usable(0x10_0000, 0x20_0000)]);
    let mut mapper = fresh_mapper();
    let target = PhysFrame::containing_address(0xb8000);
    // Three tables are missing below the top-level table.
    let _ = mapper.map(page(0x4000_0000), target, writable(), &mut allocator).unwrap();
    assert_eq!(next(&mut allocator), Some(0x10_3000));
    // The next page shares all three tables.
    let _ = mapper.map(page(0x4000_1000), target, writable(), &mut allocator).unwrap();
    assert_eq!(next(&mut allocator), Some(0x10_4000));
    // Two MiB further on a new level-1 table is needed.
    assert_eq!(mapper.missing_tables(page(0x4020_0000)), 1);
    let _ = mapper.map(page(0x4020_0000), target, writable(), &mut allocator).unwrap();
    assert_eq!(next(&mut allocator), Some(0x10_6000));
    // One GiB further on a new level-2 table and a new level-1 table.
    assert_eq!(mapper.missing_tables(page(0x8000_0000)), 2);
    let _ = mapper.map(page(0x8000_0000), target, writable(), &mut allocator).unwrap();
    assert_eq!(next(&mut allocator), Some(0x10_9000));
    // In another half of the address space all three are missing again.
    assert_eq!(mapper.missing_tables(page(0xffff_8000_0000_0000)), 3);
}

#[test]
fn map_same_page_twice_fails() {
    let mut allocator = FrameAllocator::new(vec![usable(0x10_0000, 0x20_0000)]);
    let mut mapper = fresh_mapper();
    let first = PhysFrame::containing_address(0x7000);
    let second = PhysFrame::containing_address(0x9000);
    let p = page(0x4444_4444_0000);
    assert!(mapper.map(p, first, writable(), &mut allocator).is_ok());
    let position = next(&mut allocator);
    let again = mapper.map(p, second, writable(), &mut allocator);
    assert_eq!(again.err(), Some(MapError::PageAlreadyMapped(first)));
    // The failed call has changed nothing.
    assert_eq!(mapper.translate_page(p), Some(first));
    assert_eq!(next(&mut allocator), position.map(|addr| addr + 0x1000));
    // It fails again, however often it is tried.
    let third = mapper.map(p, first, writable(), &mut allocator);
    assert_eq!(third.err(), Some(MapError::PageAlreadyMapped(first)));
}

#[test]
fn map_fails_when_a_table_cannot_be_allocated() {
    let mut allocator = FrameAllocator::new(vec![usable(0x10_0000, 0x10_2000)]);
    let mut mapper = fresh_mapper();
    let target = PhysFrame::containing_address(0x7000);
    let p = page(0x4000_0000);
    let result = mapper.map(p, target, writable(), &mut allocator);
    assert_eq!(result.err(), Some(MapError::FrameAllocationFailed));
    assert!(!mapper.is_mapped(p));
    // The two tables that could be created stay; one is still missing.
    assert_eq!(mapper.missing_tables(p), 1);
    assert_eq!(next(&mut allocator), None);
}

#[test]
fn map_needs_no_frame_when_the_tables_exist() {
    let mut allocator = FrameAllocator::new(vec![usable(0x10_0000, 0x10_3000)]);
    let mut mapper = fresh_mapper();
    let target = PhysFrame::containing_address(0x7000);
    assert!(mapper.map(page(0x4000_0000), target, writable(), &mut allocator).is_ok());
    assert!(!allocator.has_available(1));
    assert!(mapper.map(page(0x4000_1000), target, writable(), &mut allocator).is_ok());
    assert!(mapper.is_mapped(page(0x4000_1000)));
}

#[test]
fn flush_of_an_unmapped_page_changes_nothing() {
    let mut allocator = FrameAllocator::new(vec![usable(0x10_0000, 0x20_0000)]);
    let mut first = fresh_mapper();
    let mut second = fresh_mapper();
    let p = page(0x4000_0000);
    let flush = first.map(p, PhysFrame::containing_address(0), writable(), &mut allocator).unwrap();
    second.flush(flush);
    assert!(!second.is_mapped(p));
    assert!(!second.is_usable(p));
}

#[test]
fn map_physical_to_virtual_maps_uncached_and_flushes() {
    let mut allocator = FrameAllocator::new(vec![usable(0x10_0000, 0x20_0000)]);
    let mut mapper = fresh_mapper();
    let mapped = map_physical_to_virtual(&mut mapper, &mut allocator, 0xfee0_0123, 0x1000_fee0_0123)
        .expect("mapped");
    assert_eq!(mapped.start_address(), 0x1000_fee0_0000);
    let entry = mapper.mapping(mapped).expect("entry");
    assert_eq!(entry.frame.start_address(), 0xfee0_0000);
    assert!(entry.flags.writable);
    assert!(entry.flags.no_cache);
    assert!(!entry.flags.user_accessible);
    assert!(entry.flushed);
    assert!(mapper.is_usable(mapped));
}

#[test]
fn map_physical_to_virtual_reports_bad_address() {
    let mut allocator = FrameAllocator::new(vec![usable(0x10_0000, 0x20_0000)]);
    let mut mapper = fresh_mapper();
    let result = map_physical_to_virtual(&mut mapper, &mut allocator, 0x1000, 0x8000_0000_0000);
    assert_eq!(result.err(), Some(MapPhysicalError::NonCanonical(0x8000_0000_0000)));
    assert_eq!(next(&mut allocator), Some(0x10_0000));
}

#[test]
fn map_physical_to_virtual_reports_mapper_errors() {
    let mut allocator = FrameAllocator::new(vec![usable(0x10_0000, 0x20_0000)]);
    let mut mapper = fresh_mapper();
    assert!(map_physical_to_virtual(&mut mapper, &mut allocator, 0x1000, 0x5000).is_ok());
    let again = map_physical_to_virtual(&mut mapper, &mut allocator, 0x9000, 0x5abc);
    assert_eq!(
        again.err(),
        Some(MapPhysicalError::Mapper(MapError::PageAlreadyMapped(
            PhysFrame::containing_address(0x1000)
        )))
    );
    let mut empty = FrameAllocator::new(Vec::new());
    let none = map_physical_to_virtual(&mut mapper, &mut empty, 0x9000, 0xffff_9000_0000_0000);
    assert_eq!(none.err(), Some(MapPhysicalError::Mapper(MapError::FrameAllocationFailed)));
}
