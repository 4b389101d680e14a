use kernel_memory::{
    align_down, create_example_mapping, init, init_empty, init_frame_allocator, phys_to_virt,
    translate_addr, EmptyFrameAllocator, FrameAllocator, InitToken, MapToError, MemoryRegion,
    Page, PageTable, PageTableEntry, PhysFrame, RegionType, TranslateError, FLAG_PRESENT,
    FLAG_WRITABLE,
};

fn fresh_view() -> kernel_memory::ActivePageTable {
    init_empty(InitToken::acquire(), 0xffff_8000_0000_0000, PhysFrame { start: 0x2000 })
}

fn blank_table() -> PageTable {
    let mut entries = Vec::with_capacity(512);
    for _ in 0..512 {
        entries.push(PageTableEntry::Unused);
    }
    PageTable { entries }
}

fn linked(frame: u64, next: PageTable) -> PageTableEntry {
    PageTableEntry::NextTable { frame, next: Box::new(next) }
}

/// A hierarchy as an earlier boot stage might leave it: page 0x5000 mapped to
/// frame 0xb000, and a large page at the second level covering
/// 0x4000_0000..0x4020_0000.
fn boot_hierarchy() -> PageTable {
    let mut l1 = blank_table();
    l1.entries[5] = PageTableEntry::Mapped { frame: 0xb000, flags: FLAG_PRESENT | FLAG_WRITABLE };
    let mut l2 = blank_table();
    l2.entries[0] = linked(0x20000, l1);
    let mut l3 = blank_table();
    l3.entries[0] = linked(0x21000, l2);
    let mut huge_l2 = blank_table();
    huge_l2.entries[0] =
        PageTableEntry::Mapped { frame: 0x4000_0000, flags: FLAG_PRESENT | FLAG_WRITABLE };
    l3.entries[1] = linked(0x23000, huge_l2);
    let mut l4 = blank_table();
    l4.entries[0] = linked(0x22000, l3);
    l4
}

fn allocator_with_frames(n: u64) -> kernel_memory::BootInfoFrameAllocator {
    let memory_map = vec![MemoryRegion {
        start: 0x10000,
        end: 0x10000 + n * 0x1000,
        region_type: RegionType::Usable,
    }];
    init_frame_allocator(&memory_map)
}

#[test]
fn align_down_rounds_to_page_boundary() {
    assert_eq!(align_down(0x0), 0x0);
    assert_eq!(align_down(0xfff), 0x0);
    assert_eq!(align_down(0x1000), 0x1000);
    assert_eq!(align_down(0xdeadbeaf00a), 0xdeadbeaf000);
}

#[test]
fn containing_address_rounds_down() {
    assert_eq!(PhysFrame::containing_address(0xb8123).start, 0xb8000);
    assert_eq!(Page::containing_address(0xdeadbeaf9ff).start, 0xdeadbeaf000);
}

#[test]
fn phys_to_virt_adds_the_offset() {
    let frame = PhysFrame { start: 0xb8000 };
    assert_eq!(phys_to_virt(0xffff_8000_0000_0000, frame), 0xffff_8000_000b_8000);
    assert_eq!(phys_to_virt(0, frame), 0xb8000);
}

#[test]
fn translate_before_any_mapping_reports_unmapped() {
    let view = fresh_view();
    assert_eq!(translate_addr(0xdeadbeaf000, &view), Err(TranslateError::NotMapped));
    assert_eq!(translate_addr(0x0, &view), Err(TranslateError::NotMapped));
    assert_eq!(translate_addr(0xb8000, &view), Err(TranslateError::NotMapped));
}

#[test]
fn example_mapping_translates_with_in_page_offset() {
    let mut view = fresh_view();
    let mut allocator = allocator_with_frames(8);
    create_example_mapping(&mut view, &mut allocator);
    assert_eq!(translate_addr(0xdeadbeaf00a, &view), Ok(0xb800a));
    assert_eq!(translate_addr(0xdeadbeaf000, &view), Ok(0xb8000));
    assert_eq!(translate_addr(0xdeadbeaffff, &view), Ok(0xb8fff));
}

#[test]
fn example_mapping_leaves_other_pages_unmapped() {
    let mut view = fresh_view();
    let mut allocator = allocator_with_frames(8);
    create_example_mapping(&mut view, &mut allocator);
    assert_eq!(translate_addr(0xdeadbeae000, &view), Err(TranslateError::NotMapped));
    assert_eq!(translate_addr(0x1000, &view), Err(TranslateError::NotMapped));
}

#[test]
fn example_mapping_consumes_three_intermediate_frames() {
    let mut view = fresh_view();
    let mut allocator = allocator_with_frames(4);
    create_example_mapping(&mut view, &mut allocator);
    // The three absent intermediate tables took 0x10000..0x12000; the next
    // free frame is the fourth.
    assert_eq!(allocator.allocate_frame().unwrap().start, 0x13000);
    assert_eq!(allocator.allocate_frame(), None);
}

#[test]
fn map_to_reports_exhaustion_of_the_null_allocator() {
    let mut view = fresh_view();
    let mut allocator = EmptyFrameAllocator;
    let page = Page::containing_address(0xdeadbeaf000);
    let frame = PhysFrame::containing_address(0xb8000);
    let r = view.map_to(page, frame, FLAG_PRESENT | FLAG_WRITABLE, &mut allocator);
    assert_eq!(r.err(), Some(MapToError::FrameAllocationFailed));
}

#[test]
fn map_to_flush_obligation_names_the_mapped_page() {
    let mut view = fresh_view();
    let mut allocator = allocator_with_frames(8);
    let page = Page::containing_address(0x5000);
    let frame = PhysFrame::containing_address(0x7000);
    let flush = view.map_to(page, frame, FLAG_PRESENT, &mut allocator).unwrap();
    assert_eq!(flush.page, page);
    flush.flush();
}

#[test]
fn remapping_a_mapped_page_is_a_conflict() {
    let mut view = fresh_view();
    let mut allocator = allocator_with_frames(8);
    let page = Page::containing_address(0xdeadbeaf000);
    let frame = PhysFrame::containing_address(0xb8000);
    let other_frame = PhysFrame::containing_address(0x42000);
    let flush = view.map_to(page, frame, FLAG_PRESENT | FLAG_WRITABLE, &mut allocator).unwrap();
    flush.flush();
    // Different flags, different frame: rejected, never silently overwritten.
    let r = view.map_to(page, other_frame, FLAG_PRESENT, &mut allocator);
    assert_eq!(r.err(), Some(MapToError::PageAlreadyMapped));
    // The original mapping is untouched.
    assert_eq!(translate_addr(0xdeadbeaf00a, &view), Ok(0xb800a));
}

#[test]
fn mapping_without_present_flag_does_not_translate() {
    let mut view = fresh_view();
    let mut allocator = allocator_with_frames(8);
    let page = Page::containing_address(0x5000);
    let frame = PhysFrame::containing_address(0x7000);
    let flush = view.map_to(page, frame, FLAG_WRITABLE, &mut allocator).unwrap();
    flush.flush();
    assert_eq!(translate_addr(0x5000, &view), Err(TranslateError::NotMapped));
    // The slot is still taken: remapping it is a conflict.
    let r = view.map_to(page, frame, FLAG_PRESENT, &mut allocator);
    assert_eq!(r.err(), Some(MapToError::PageAlreadyMapped));
}

#[test]
fn mappings_in_the_same_table_share_intermediate_tables() {
    let mut view = fresh_view();
    let mut allocator = allocator_with_frames(4);
    let first = Page::containing_address(0x5000);
    let second = Page::containing_address(0x6000);
    view.map_to(first, PhysFrame { start: 0x7000 }, FLAG_PRESENT, &mut allocator)
        .unwrap()
        .flush();
    // The second page walks the same tables: no further frames are needed.
    view.map_to(second, PhysFrame { start: 0x8000 }, FLAG_PRESENT, &mut allocator)
        .unwrap()
        .flush();
    assert_eq!(translate_addr(0x5123, &view), Ok(0x7123));
    assert_eq!(translate_addr(0x6001, &view), Ok(0x8001));
    assert_eq!(allocator.allocate_frame().unwrap().start, 0x13000);
}

#[test]
fn upper_half_canonical_addresses_map_and_translate() {
    let mut view = fresh_view();
    let mut allocator = allocator_with_frames(8);
    let page = Page::containing_address(0xffff_8000_0000_0000);
    let frame = PhysFrame::containing_address(0x9000);
    view.map_to(page, frame, FLAG_PRESENT | FLAG_WRITABLE, &mut allocator)
        .unwrap()
        .flush();
    assert_eq!(translate_addr(0xffff_8000_0000_0042, &view), Ok(0x9042));
    assert_eq!(translate_addr(0xffff_8000_0000_1000, &view), Err(TranslateError::NotMapped));
}

#[test]
fn mapping_to_physical_zero_is_not_unmapped() {
    let mut view = fresh_view();
    let mut allocator = allocator_with_frames(8);
    let page = Page::containing_address(0x5000);
    let frame = PhysFrame { start: 0x0 };
    view.map_to(page, frame, FLAG_PRESENT, &mut allocator).unwrap().flush();
    // A translation to physical address zero is a valid outcome, distinct
    // from the unmapped report.
    assert_eq!(translate_addr(0x5000, &view), Ok(0x0));
    assert_eq!(translate_addr(0x5007, &view), Ok(0x7));
}

#[test]
fn init_preserves_the_existing_hierarchy() {
    let view = init(
        InitToken::acquire(),
        0xffff_8000_0000_0000,
        PhysFrame { start: 0x2000 },
        boot_hierarchy(),
    );
    // The mapping installed before construction is visible through the view.
    assert_eq!(translate_addr(0x500a, &view), Ok(0xb00a));
    assert_eq!(translate_addr(0x5fff, &view), Ok(0xbfff));
    // Pages the earlier stage left unmapped still report unmapped.
    assert_eq!(translate_addr(0x6000, &view), Err(TranslateError::NotMapped));
}

#[test]
fn mapping_over_an_inherited_mapping_is_a_conflict() {
    let mut view = init(
        InitToken::acquire(),
        0xffff_8000_0000_0000,
        PhysFrame { start: 0x2000 },
        boot_hierarchy(),
    );
    let mut allocator = allocator_with_frames(8);
    let page = Page::containing_address(0x5000);
    assert!(!view.is_free(page));
    let r = view.map_to(page, PhysFrame { start: 0xc000 }, FLAG_PRESENT, &mut allocator);
    assert_eq!(r.err(), Some(MapToError::PageAlreadyMapped));
    // The inherited mapping is untouched.
    assert_eq!(translate_addr(0x500a, &view), Ok(0xb00a));
}

#[test]
fn large_page_in_the_walk_is_reported_not_split() {
    let mut view = init(
        InitToken::acquire(),
        0xffff_8000_0000_0000,
        PhysFrame { start: 0x2000 },
        boot_hierarchy(),
    );
    // 0x4000_0000 lies under the inherited large page at the second level.
    assert_eq!(translate_addr(0x4000_0123, &view), Err(TranslateError::ParentEntryHugePage));
    let page = Page::containing_address(0x4000_0000);
    assert!(!view.is_free(page));
    let mut allocator = allocator_with_frames(8);
    let r = view.map_to(page, PhysFrame { start: 0xc000 }, FLAG_PRESENT, &mut allocator);
    assert_eq!(r.err(), Some(MapToError::ParentEntryHugePage));
    // The large page is untouched and still reported.
    assert_eq!(translate_addr(0x4000_0123, &view), Err(TranslateError::ParentEntryHugePage));
}

#[test]
fn is_free_distinguishes_free_taken_and_blocked_pages() {
    let view = init(
        InitToken::acquire(),
        0xffff_8000_0000_0000,
        PhysFrame { start: 0x2000 },
        boot_hierarchy(),
    );
    assert!(!view.is_free(Page::containing_address(0x5000)));
    assert!(!view.is_free(Page::containing_address(0x4000_0000)));
    assert!(view.is_free(Page::containing_address(0x6000)));
    assert!(view.is_free(Page::containing_address(0xdeadbeaf000)));
}
