use kernel_memory::{
    init_frame_allocator, EmptyFrameAllocator, FrameAllocator, MemoryRegion, RegionType,
};

fn region(start: u64, end: u64, region_type: RegionType) -> MemoryRegion {
    MemoryRegion { start, end, region_type }
}

#[test]
fn empty_allocator_always_exhausted() {
    let mut allocator = EmptyFrameAllocator;
    for _ in 0..16 {
        assert_eq!(allocator.allocate_frame(), None);
    }
}

#[test]
fn region_list_allocator_dispenses_in_order() {
    let memory_map = vec![
        region(0x1000, 0x3000, RegionType::Usable),
        region(0x3000, 0x4000, RegionType::Reserved),
        region(0x4000, 0x6000, RegionType::Usable),
    ];
    let mut allocator = init_frame_allocator(&memory_map);
    let expected = [0x1000u64, 0x2000, 0x4000, 0x5000];
    for e in expected {
        let frame = allocator.allocate_frame().expect("allocator exhausted too early");
        assert_eq!(frame.start, e);
    }
    assert_eq!(allocator.allocate_frame(), None);
    assert_eq!(allocator.allocate_frame(), None);
}

#[test]
fn region_list_allocator_skips_reserved_regions() {
    let memory_map = vec![
        region(0x0, 0x1000, RegionType::Reserved),
        region(0x1000, 0x2000, RegionType::Usable),
        region(0x2000, 0x9000, RegionType::Reserved),
    ];
    let mut allocator = init_frame_allocator(&memory_map);
    assert_eq!(allocator.allocate_frame().unwrap().start, 0x1000);
    assert_eq!(allocator.allocate_frame(), None);
}

#[test]
fn region_list_allocator_empty_map_is_exhausted() {
    let memory_map: Vec<MemoryRegion> = Vec::new();
    let mut allocator = init_frame_allocator(&memory_map);
    assert_eq!(allocator.allocate_frame(), None);
}

#[test]
fn region_list_allocator_never_repeats_a_frame() {
    let memory_map = vec![
        region(0x1000, 0x5000, RegionType::Usable),
        region(0x8000, 0xa000, RegionType::Usable),
    ];
    let mut allocator = init_frame_allocator(&memory_map);
    let mut seen: Vec<u64> = Vec::new();
    while let Some(frame) = allocator.allocate_frame() {
        assert!(!seen.contains(&frame.start), "frame dispensed twice");
        if let Some(last) = seen.last() {
            assert!(*last < frame.start, "frames not in increasing order");
        }
        seen.push(frame.start);
    }
    assert_eq!(seen, vec![0x1000, 0x2000, 0x3000, 0x4000, 0x8000, 0x9000]);
}
