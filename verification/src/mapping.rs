//! Address translation and the boot-time example mapping.
//!
//! `translate_addr` is the full virtual-to-physical lookup: it splits an
//! address into its page and in-page offset, asks the active page-table view
//! for the page's frame, and adds the offset back.  `create_example_mapping`
//! installs the one fixed mapping the kernel uses at boot to prove to itself
//! that paging works.

use vstd::prelude::*;
use crate::addr::{is_canonical, is_page_aligned, spec_align_down, Page, PhysFrame};
use crate::frame_allocator::FrameAllocator;
use crate::page_table::{ActivePageTable, TranslateError, FLAG_PRESENT, FLAG_WRITABLE};

verus! {

/// What translating a virtual address through a view yields: the backing
/// frame's address plus the in-page offset, or nothing when the page holds no
/// present mapping.
pub open spec fn translate_addr_spec(pt: ActivePageTable, addr: u64) -> Option<u64> {
    match pt.mapping(spec_align_down(addr)) {
        Some(m) => Some((m.0 + (addr - spec_align_down(addr))) as u64),
        None => None,
    }
}

/// Returns the physical address backing the given virtual address, or
/// reports that the address is not mapped — or that a large-page mapping at
/// an upper level covers it, so it has no page-sized translation of its own.
/// A pure read: no allocation, no change to the view.
pub fn translate_addr(addr: u64, mapper: &ActivePageTable) -> (r: Result<u64, TranslateError>)
    requires
        mapper.wf(),
        is_canonical(addr),
    ensures
        (if mapper.huge_in_path(spec_align_down(addr)) {
            r == Err::<u64, TranslateError>(TranslateError::ParentEntryHugePage)
        } else {
            match translate_addr_spec(*mapper, addr) {
                Some(pa) => r == Ok::<u64, TranslateError>(pa),
                None => r == Err::<u64, TranslateError>(TranslateError::NotMapped),
            }
        }),
{
    proof {
        crate::addr::lemma_align_down_properties(addr);
    }
    let page = Page::containing_address(addr);
    match mapper.translate_page(page) {
        Ok(frame) => {
            let offset = addr % 4096;
            Ok(frame.start_address() + offset)
        },
        Err(e) => Err(e),
    }
}

/// The virtual page the boot-time example mapping covers.
pub const EXAMPLE_PAGE: u64 = 0xdeadbeaf000;

/// The physical frame the boot-time example mapping points at: a
/// hardware-mapped device region, so writes through the new page are visible
/// without allocating backing memory.
pub const EXAMPLE_FRAME: u64 = 0xb8000;

/// Maps the fixed example page to the fixed device frame, present and
/// writable, and consumes the flush token.  The hardware invalidation the
/// token stands for cannot happen here: after this returns, the kernel still
/// owes the translation-cache invalidation for the example page before it
/// relies on the mapping.  The kernel has no recovery path when it cannot
/// establish its own boot mapping, so the caller must hand in a view with
/// that page free and unblocked and an allocator holding enough frames for
/// the absent intermediate tables; on any other input the underlying
/// `map_to` failure is fatal.
pub fn create_example_mapping<A: FrameAllocator>(
    mapper: &mut ActivePageTable,
    frame_allocator: &mut A,
)
    requires
        old(mapper).wf(),
        old(frame_allocator).wf(),
        old(mapper).leaf(0xdeadbeaf000) is None,
        !old(mapper).huge_in_path(0xdeadbeaf000),
        old(mapper).missing_tables(0xdeadbeaf000) <= old(frame_allocator).frames().len(),
    ensures
        final(mapper).wf(),
        final(frame_allocator).wf(),
        final(mapper).mapping(0xdeadbeaf000) == Some((0xb8000u64, 3u64)),
        final(mapper).physical_memory_offset == old(mapper).physical_memory_offset,
        final(mapper).root_frame == old(mapper).root_frame,
        final(frame_allocator).frames() == old(frame_allocator).frames().skip(
            old(mapper).missing_tables(0xdeadbeaf000) as int,
        ),
        forall|w: u64| is_page_aligned(w) && is_canonical(w) && w != 0xdeadbeaf000
            ==> #[trigger] final(mapper).mapping(w) == old(mapper).mapping(w),
        forall|w: u64| #[trigger] final(mapper).huge_in_path(w) == old(mapper).huge_in_path(w),
{
    let page = Page::containing_address(EXAMPLE_PAGE);
    let frame = PhysFrame::containing_address(EXAMPLE_FRAME);
    let flags = FLAG_PRESENT | FLAG_WRITABLE;
    proof {
        assert(FLAG_PRESENT | FLAG_WRITABLE == 3u64) by (bit_vector);
        assert(0xdeadbeaf000u64 % 4096 == 0);
        assert(0xb8000u64 % 4096 == 0);
    }
    let map_to_result = mapper.map_to(page, frame, flags, frame_allocator);
    match map_to_result {
        Ok(flush) => flush.flush(),
        Err(_) => unreached(),
    }
}

/// Law: an address whose view holds no mapping for it translates to the
/// unmapped outcome — never to a stale or zero address.
pub proof fn lemma_translate_unmapped(pt: ActivePageTable, addr: u64)
    requires
        pt.mapping(spec_align_down(addr)) is None,
    ensures
        translate_addr_spec(pt, addr) is None,
{
}

/// Law: in a view with no mapping installed at all, every address translates
/// to the unmapped outcome.
pub proof fn lemma_empty_view_translates_unmapped(pt: ActivePageTable, addr: u64)
    requires
        forall|v: u64| (#[trigger] pt.mapping(v)) is None,
        forall|v: u64| !(#[trigger] pt.huge_in_path(v)),
    ensures
        translate_addr_spec(pt, addr) is None,
        !pt.huge_in_path(spec_align_down(addr)),
{
    assert(pt.mapping(spec_align_down(addr)) is None);
    assert(!pt.huge_in_path(spec_align_down(addr)));
}

/// Law: immediately after a successful map of `page` to `frame` with flags
/// whose present bit is set, every address inside that page — every in-page
/// offset from 0 to 4095 — translates to `frame`'s base address plus that
/// offset.
pub proof fn lemma_translate_after_map(
    pt: ActivePageTable,
    page: Page,
    frame: PhysFrame,
    flags: u64,
    offset: u64,
)
    requires
        pt.mapping(page.start) == Some((frame.start, flags)),
        is_page_aligned(page.start),
        offset < 4096,
    ensures
        translate_addr_spec(pt, (page.start + offset) as u64) == Some(
            (frame.start + offset) as u64,
        ),
        !pt.huge_in_path(page.start),
{
    crate::page_table::lemma_leaf_excludes_huge(pt.root, page.start);
    let a = (page.start + offset) as u64;
    assert(a == page.start + offset);
    assert(a % 4096 == offset) by (nonlinear_arith)
        requires
            page.start % 4096 == 0,
            0 <= offset < 4096,
            a == page.start + offset,
    ;
    assert(spec_align_down(a) == page.start);
}

} // verus!
