//! Addresses, pages and frames.
//!
//! A frame is a page-sized, page-aligned span of physical memory; a page is
//! the same span of virtual memory.  The offset translator at the bottom of
//! this module is the rule by which the running kernel reaches physical
//! memory: the bootloader maps all of it at one fixed virtual offset.

use vstd::prelude::*;

verus! {

/// Size in bytes of one page of virtual memory and of one frame of physical
/// memory.
pub const PAGE_SIZE: u64 = 4096;

/// The given address rounded down to the page boundary at or below it.
pub open spec fn spec_align_down(addr: u64) -> u64 {
    (addr - addr % 4096) as u64
}

/// Whether an address lies exactly on a page boundary.
pub open spec fn is_page_aligned(addr: u64) -> bool {
    addr % 4096 == 0
}

/// Whether a virtual address is canonical under four-level paging: bits 48
/// through 63 repeat bit 47, so the address is either below 2^47 or at or
/// above 0xffff_8000_0000_0000.
pub open spec fn is_canonical(addr: u64) -> bool {
    addr < 0x8000_0000_0000 || addr >= 0xffff_8000_0000_0000
}

/// Rounds an address down to the page boundary at or below it.
pub fn align_down(addr: u64) -> (r: u64)
    ensures
        r == spec_align_down(addr),
        is_page_aligned(r),
        r <= addr,
        is_canonical(addr) ==> is_canonical(r),
{
    proof {
        lemma_align_down_properties(addr);
    }
    addr - addr % 4096
}

/// Basic facts about rounding down to a page boundary.
pub proof fn lemma_align_down_properties(addr: u64)
    ensures
        is_page_aligned(spec_align_down(addr)),
        spec_align_down(addr) <= addr,
        addr - spec_align_down(addr) == addr % 4096,
        is_page_aligned(addr) ==> spec_align_down(addr) == addr,
        is_canonical(addr) ==> is_canonical(spec_align_down(addr)),
{
    assert((addr - addr % 4096) % 4096 == 0) by (nonlinear_arith);
    assert(addr >= 0xffff_8000_0000_0000 ==> addr - addr % 4096 >= 0xffff_8000_0000_0000) by (nonlinear_arith);
}

/// A physical address rounded down to a page boundary, identifying one
/// physical frame.
#[derive(Clone, Copy, PartialEq, Eq, Structural, Debug)]
pub struct PhysFrame {
    pub start: u64,
}

impl PhysFrame {
    /// The frame that contains the given physical address.
    pub fn containing_address(address: u64) -> (r: PhysFrame)
        ensures
            r.start == spec_align_down(address),
            is_page_aligned(r.start),
    {
        PhysFrame { start: align_down(address) }
    }

    /// The physical address at which the frame begins.
    pub fn start_address(&self) -> (r: u64)
        ensures
            r == self.start,
    {
        self.start
    }
}

/// A virtual address rounded down to a page boundary, identifying one page of
/// virtual memory.
#[derive(Clone, Copy, PartialEq, Eq, Structural, Debug)]
pub struct Page {
    pub start: u64,
}

impl Page {
    /// The page that contains the given virtual address.
    pub fn containing_address(address: u64) -> (r: Page)
        ensures
            r.start == spec_align_down(address),
            is_page_aligned(r.start),
            is_canonical(address) ==> is_canonical(r.start),
    {
        Page { start: align_down(address) }
    }

    /// The virtual address at which the page begins.
    pub fn start_address(&self) -> (r: u64)
        ensures
            r == self.start,
    {
        self.start
    }
}

/// The virtual address at which a frame's contents are reachable, given the
/// fixed offset at which the bootloader mapped all of physical memory.  The
/// offset must be the one the bootloader actually used; this layer cannot
/// check that.
pub fn phys_to_virt(physical_memory_offset: u64, frame: PhysFrame) -> (r: u64)
    requires
        frame.start + physical_memory_offset <= u64::MAX,
    ensures
        r == frame.start + physical_memory_offset,
{
    frame.start + physical_memory_offset
}

} // verus!
