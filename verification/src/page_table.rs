//! The view of the active four-level page-table hierarchy.
//!
//! The hardware walks four levels of 512-slot tables to turn a virtual page
//! into a physical frame; this module holds those tables as owned data keyed
//! by the same index bits, so that exactly one view of the active hierarchy
//! exists and all access to it goes through this structure.  `translate_page`
//! is the read side of the walk; `map_to` installs a new mapping, allocating
//! any absent intermediate-level tables from a supplied frame allocator, and
//! returns the obligation to flush the stale translation-cache entry.

use vstd::prelude::*;
use crate::addr::{is_canonical, is_page_aligned, Page, PhysFrame};
use crate::frame_allocator::FrameAllocator;

verus! {

/// Flag bit marking a page-table entry as present: only entries with this bit
/// set take part in address translation.
pub const FLAG_PRESENT: u64 = 1;

/// Flag bit allowing writes through the mapping.
pub const FLAG_WRITABLE: u64 = 2;

/// One slot of a page table.
pub enum PageTableEntry {
    /// The slot holds nothing.
    Unused,
    /// The slot points to a table one level further down; `frame` is the
    /// physical frame that table occupies.
    NextTable { frame: u64, next: Box<PageTable> },
    /// The slot maps its page to the physical frame at `frame` with the given
    /// access flags.
    Mapped { frame: u64, flags: u64 },
}

/// One 512-slot table of the four-level hierarchy.
pub struct PageTable {
    pub entries: Vec<PageTableEntry>,
}

/// The slot a virtual address selects in the top-level table: bits 39 to 47.
pub open spec fn l4_index(v: u64) -> int {
    ((v / 0x80_0000_0000) % 512) as int
}

/// The slot a virtual address selects at the third level: bits 30 to 38.
pub open spec fn l3_index(v: u64) -> int {
    ((v / 0x4000_0000) % 512) as int
}

/// The slot a virtual address selects at the second level: bits 21 to 29.
pub open spec fn l2_index(v: u64) -> int {
    ((v / 0x20_0000) % 512) as int
}

/// The slot a virtual address selects at the lowest level: bits 12 to 20.
pub open spec fn l1_index(v: u64) -> int {
    ((v / 0x1000) % 512) as int
}

fn l4_index_exec(v: u64) -> (r: usize)
    ensures
        r == l4_index(v),
        r < 512,
{
    ((v / 0x80_0000_0000) % 512) as usize
}

fn l3_index_exec(v: u64) -> (r: usize)
    ensures
        r == l3_index(v),
        r < 512,
{
    ((v / 0x4000_0000) % 512) as usize
}

fn l2_index_exec(v: u64) -> (r: usize)
    ensures
        r == l2_index(v),
        r < 512,
{
    ((v / 0x20_0000) % 512) as usize
}

fn l1_index_exec(v: u64) -> (r: usize)
    ensures
        r == l1_index(v),
        r < 512,
{
    ((v / 0x1000) % 512) as usize
}

/// What a lowest-level slot may hold: nothing, or a frame mapping with a
/// page-aligned frame address.
pub open spec fn wf_entry_l1(e: PageTableEntry) -> bool {
    match e {
        PageTableEntry::Unused => true,
        PageTableEntry::Mapped { frame, flags: _ } => frame % 4096 == 0,
        PageTableEntry::NextTable { .. } => false,
    }
}

/// A well-formed lowest-level table: 512 slots, each unused or a mapping.
pub open spec fn wf_l1(t: PageTable) -> bool {
    t.entries.len() == 512
    && forall|i: int| 0 <= i < 512 ==> wf_entry_l1(#[trigger] t.entries[i])
}

/// What a second-level slot may hold: nothing, a link to a well-formed
/// lowest-level table, or a large-page mapping installed by earlier boot
/// stages.  This layer only ever creates page-sized mappings itself, but it
/// must be able to hold — and step around — the large ones it inherits.
pub open spec fn wf_entry_l2(e: PageTableEntry) -> bool {
    match e {
        PageTableEntry::Unused => true,
        PageTableEntry::Mapped { frame, flags: _ } => frame % 4096 == 0,
        PageTableEntry::NextTable { frame, next } => frame % 4096 == 0 && wf_l1(*next),
    }
}

/// A well-formed second-level table.
pub open spec fn wf_l2(t: PageTable) -> bool {
    t.entries.len() == 512
    && forall|i: int| 0 <= i < 512 ==> wf_entry_l2(#[trigger] t.entries[i])
}

/// What a third-level slot may hold: as at the second level, an inherited
/// large-page mapping is admitted.
pub open spec fn wf_entry_l3(e: PageTableEntry) -> bool {
    match e {
        PageTableEntry::Unused => true,
        PageTableEntry::Mapped { frame, flags: _ } => frame % 4096 == 0,
        PageTableEntry::NextTable { frame, next } => frame % 4096 == 0 && wf_l2(*next),
    }
}

/// A well-formed third-level table.
pub open spec fn wf_l3(t: PageTable) -> bool {
    t.entries.len() == 512
    && forall|i: int| 0 <= i < 512 ==> wf_entry_l3(#[trigger] t.entries[i])
}

/// What a top-level slot may hold: nothing or a link, never a mapping — the
/// hardware knows no top-level large pages.
pub open spec fn wf_entry_l4(e: PageTableEntry) -> bool {
    match e {
        PageTableEntry::Unused => true,
        PageTableEntry::Mapped { .. } => false,
        PageTableEntry::NextTable { frame, next } => frame % 4096 == 0 && wf_l3(*next),
    }
}

/// A well-formed top-level table.
pub open spec fn wf_l4(t: PageTable) -> bool {
    t.entries.len() == 512
    && forall|i: int| 0 <= i < 512 ==> wf_entry_l4(#[trigger] t.entries[i])
}

/// The raw mapping a lowest-level table holds for a virtual address, if any:
/// the frame address and the stored flags.
pub open spec fn leaf_l1(t: PageTable, v: u64) -> Option<(u64, u64)> {
    match t.entries[l1_index(v)] {
        PageTableEntry::Mapped { frame, flags } => Some((frame, flags)),
        _ => None,
    }
}

/// The raw mapping reached from a second-level table.
pub open spec fn leaf_l2(t: PageTable, v: u64) -> Option<(u64, u64)> {
    match t.entries[l2_index(v)] {
        PageTableEntry::NextTable { frame: _, next } => leaf_l1(*next, v),
        _ => None,
    }
}

/// The raw mapping reached from a third-level table.
pub open spec fn leaf_l3(t: PageTable, v: u64) -> Option<(u64, u64)> {
    match t.entries[l3_index(v)] {
        PageTableEntry::NextTable { frame: _, next } => leaf_l2(*next, v),
        _ => None,
    }
}

/// The raw mapping reached from the top-level table.
pub open spec fn leaf_l4(t: PageTable, v: u64) -> Option<(u64, u64)> {
    match t.entries[l4_index(v)] {
        PageTableEntry::NextTable { frame: _, next } => leaf_l3(*next, v),
        _ => None,
    }
}

/// Whether the second-level slot for `v` holds a large-page mapping, which
/// blocks the page-sized walk.
pub open spec fn huge_l2(t: PageTable, v: u64) -> bool {
    t.entries[l2_index(v)] is Mapped
}

/// Whether a large-page mapping stands anywhere on the walk from a
/// third-level table down to the slot for `v`.
pub open spec fn huge_l3(t: PageTable, v: u64) -> bool {
    match t.entries[l3_index(v)] {
        PageTableEntry::Mapped { .. } => true,
        PageTableEntry::NextTable { frame: _, next } => huge_l2(*next, v),
        PageTableEntry::Unused => false,
    }
}

/// Whether a large-page mapping stands anywhere on the walk from the
/// top-level table down to the slot for `v`.
pub open spec fn huge_l4(t: PageTable, v: u64) -> bool {
    match t.entries[l4_index(v)] {
        PageTableEntry::NextTable { frame: _, next } => huge_l3(*next, v),
        _ => false,
    }
}

/// How many intermediate-level tables are absent on the walk from a
/// second-level table down to the slot for `v`.
pub open spec fn missing_l2(t: PageTable, v: u64) -> nat {
    match t.entries[l2_index(v)] {
        PageTableEntry::NextTable { .. } => 0,
        _ => 1,
    }
}

/// How many intermediate-level tables are absent below a third-level table.
pub open spec fn missing_l3(t: PageTable, v: u64) -> nat {
    match t.entries[l3_index(v)] {
        PageTableEntry::NextTable { frame: _, next } => missing_l2(*next, v),
        _ => 2,
    }
}

/// How many intermediate-level tables are absent below the top-level table.
pub open spec fn missing_l4(t: PageTable, v: u64) -> nat {
    match t.entries[l4_index(v)] {
        PageTableEntry::NextTable { frame: _, next } => missing_l3(*next, v),
        _ => 3,
    }
}

/// Reports that a translation was requested for a page that holds no present
/// mapping.
#[derive(Clone, Copy, PartialEq, Eq, Structural, Debug)]
pub enum TranslateError {
    /// No present mapping is installed for the page.
    NotMapped,
    /// The walk ran into a large-page mapping at an upper level, so the page
    /// has no page-sized translation of its own.
    ParentEntryHugePage,
}

/// Why installing a mapping failed.
#[derive(Clone, Copy, PartialEq, Eq, Structural, Debug)]
pub enum MapToError {
    /// The frame allocator was exhausted while an absent intermediate-level
    /// table was needed.
    FrameAllocationFailed,
    /// The page already holds a mapping; it is reported, never overwritten.
    PageAlreadyMapped,
    /// An upper level of the walk holds a large-page mapping; it is reported,
    /// never split or overwritten.
    ParentEntryHugePage,
}

/// The obligation, returned by a successful `map_to`, to flush the
/// translation-cache entry of the freshly mapped page before relying on the
/// new mapping.  The cache is processor state outside this structure: the
/// kernel around this library must execute the invalidation for `page` and
/// consume this value when it has done so.
#[must_use]
#[derive(Clone, Copy, PartialEq, Eq, Structural, Debug)]
pub struct MapperFlush {
    /// The page whose cached translation is stale.
    pub page: Page,
}

impl MapperFlush {
    /// Consumes the token.  Nothing is invalidated here: the invalidation is
    /// a hardware instruction this library cannot execute, and the kernel
    /// still owes it for `self.page` — before relying on the new mapping —
    /// whether it runs the instruction before or after consuming this value.
    pub fn flush(self) {
    }
}

/// A freshly built table with every slot unused.
fn empty_table() -> (r: PageTable)
    ensures
        r.entries.len() == 512,
        forall|i: int| 0 <= i < 512 ==> (#[trigger] r.entries[i]) is Unused,
        wf_l1(r) && wf_l2(r) && wf_l3(r) && wf_l4(r),
        forall|v: u64| (#[trigger] leaf_l1(r, v)) is None,
        forall|v: u64| (#[trigger] leaf_l2(r, v)) is None,
        forall|v: u64| (#[trigger] leaf_l3(r, v)) is None,
        forall|v: u64| (#[trigger] leaf_l4(r, v)) is None,
        forall|v: u64| #[trigger] missing_l2(r, v) == 1,
        forall|v: u64| #[trigger] missing_l3(r, v) == 2,
        forall|v: u64| #[trigger] missing_l4(r, v) == 3,
        forall|v: u64| !(#[trigger] huge_l2(r, v)),
        forall|v: u64| !(#[trigger] huge_l3(r, v)),
        forall|v: u64| !(#[trigger] huge_l4(r, v)),
{
    let mut entries: Vec<PageTableEntry> = Vec::new();
    let mut k: usize = 0;
    while k < 512
        invariant
            k <= 512,
            entries.len() == k,
            forall|i: int| 0 <= i < k ==> (#[trigger] entries[i]) is Unused,
        decreases 512 - k,
    {
        entries.push(PageTableEntry::Unused);
        k = k + 1;
    }
    PageTable { entries }
}

/// The one view of the currently active address space: the physical frame of
/// the top-level table (as read once from the hardware control register at
/// boot), the fixed offset at which the bootloader mapped all of physical
/// memory, and the table hierarchy itself.
pub struct ActivePageTable {
    /// The offset at which all of physical memory is mapped into the virtual
    /// address space.
    pub physical_memory_offset: u64,
    /// Physical address of the top-level table.
    pub root_frame: u64,
    /// The top-level table.
    pub root: PageTable,
}

impl ActivePageTable {
    /// Structural soundness of the whole hierarchy.
    pub open spec fn wf(self) -> bool {
        self.root_frame % 4096 == 0 && wf_l4(self.root)
    }

    /// The raw page-table slot contents for the page containing `v`: the
    /// frame address and flags stored there, present or not.
    pub open spec fn leaf(self, v: u64) -> Option<(u64, u64)> {
        leaf_l4(self.root, v)
    }

    /// The live translation for the page containing `v`: the slot contents,
    /// if a slot is installed and its present flag is set.
    pub open spec fn mapping(self, v: u64) -> Option<(u64, u64)> {
        match self.leaf(v) {
            Some(m) => if m.1 % 2 == 1 {
                Some(m)
            } else {
                None
            },
            None => None,
        }
    }

    /// How many intermediate-level tables `map_to` would have to allocate for
    /// the page containing `v`.
    pub open spec fn missing_tables(self, v: u64) -> nat {
        missing_l4(self.root, v)
    }

    /// Whether a large-page mapping stands on the walk to `v`'s slot,
    /// blocking page-sized translation and mapping there.
    pub open spec fn huge_in_path(self, v: u64) -> bool {
        huge_l4(self.root, v)
    }
}

/// The one-shot capability consumed by view construction.  Exactly one
/// `ActivePageTable` may exist at a time, since two live views would permit
/// aliased mutation of the one hardware structure: the boot path mints this
/// token exactly once, at kernel start, and `init` consumes it, so a second
/// construction demands a second token rather than a mere repeated call.
pub struct InitToken {
    _once: (),
}

impl InitToken {
    /// Mints the token.  To be called exactly once, at kernel start; the
    /// minting site — not this library — must guard against a second call.
    pub fn acquire() -> InitToken {
        InitToken { _once: () }
    }
}

/// Builds the view of the active page-table hierarchy: the physical address
/// of its top-level table — read once from the hardware control register at
/// boot — the offset at which the bootloader mapped physical memory, and the
/// hierarchy standing at that root, read through the offset mapping.  The
/// returned view holds exactly the hierarchy handed in: every mapping earlier
/// boot stages installed remains visible through it.  Consumes the one boot
/// token, so at most one view is constructed.
pub fn init(
    token: InitToken,
    physical_memory_offset: u64,
    root: PhysFrame,
    table: PageTable,
) -> (r: ActivePageTable)
    requires
        root.start % 4096 == 0,
        wf_l4(table),
    ensures
        r.wf(),
        r.physical_memory_offset == physical_memory_offset,
        r.root_frame == root.start,
        r.root == table,
{
    let _ = token;
    ActivePageTable { physical_memory_offset, root_frame: root.start, root: table }
}

/// Builds a view over a fresh, entirely empty hierarchy: for standing up a
/// new address space from nothing, as opposed to `init`, which views the one
/// already active.  Consumes the boot token for the same exclusivity reason.
pub fn init_empty(token: InitToken, physical_memory_offset: u64, root: PhysFrame) -> (r:
    ActivePageTable)
    requires
        root.start % 4096 == 0,
    ensures
        r.wf(),
        r.physical_memory_offset == physical_memory_offset,
        r.root_frame == root.start,
        forall|v: u64| (#[trigger] r.leaf(v)) is None,
        forall|v: u64| (#[trigger] r.mapping(v)) is None,
        forall|v: u64| #[trigger] r.missing_tables(v) == 3,
        forall|v: u64| !(#[trigger] r.huge_in_path(v)),
{
    let _ = token;
    ActivePageTable { physical_memory_offset, root_frame: root.start, root: empty_table() }
}

/// Installs the mapping in a lowest-level table, or reports the conflict if
/// its slot is taken.
fn map_l1(t: &mut PageTable, page: Page, frame: PhysFrame, flags: u64) -> (r: Result<(), MapToError>)
    requires
        wf_l1(*old(t)),
        frame.start % 4096 == 0,
    ensures
        wf_l1(*final(t)),
        r is Ok <==> leaf_l1(*old(t), page.start) is None,
        r is Err ==> r == Err::<(), MapToError>(MapToError::PageAlreadyMapped),
        r is Err ==> final(t).entries@ == old(t).entries@,
        r is Ok ==> leaf_l1(*final(t), page.start) == Some((frame.start, flags)),
        forall|w: u64| l1_index(w) != l1_index(page.start)
            ==> #[trigger] leaf_l1(*final(t), w) == leaf_l1(*old(t), w),
{
    let i = l1_index_exec(page.start);
    let mut e = PageTableEntry::Unused;
    t.entries.set_and_swap(i, &mut e);
    match e {
        PageTableEntry::Unused => {
            t.entries.set(i, PageTableEntry::Mapped { frame: frame.start, flags });
            Ok(())
        }
        occupied => {
            t.entries.set(i, occupied);
            proof {
                assert(t.entries@ =~= old(t).entries@);
            }
            Err(MapToError::PageAlreadyMapped)
        }
    }
}

/// Walks or creates the lowest-level table under a second-level table and
/// installs the mapping there.
fn map_l2<A: FrameAllocator>(
    t: &mut PageTable,
    page: Page,
    frame: PhysFrame,
    flags: u64,
    allocator: &mut A,
) -> (r: Result<(), MapToError>)
    requires
        wf_l2(*old(t)),
        frame.start % 4096 == 0,
        old(allocator).wf(),
    ensures
        wf_l2(*final(t)),
        final(allocator).wf(),
        r is Ok <==> (!huge_l2(*old(t), page.start) && leaf_l2(*old(t), page.start) is None
            && missing_l2(*old(t), page.start) <= old(allocator).frames().len()),
        r == Err::<(), MapToError>(MapToError::PageAlreadyMapped)
            <==> leaf_l2(*old(t), page.start) is Some,
        r == Err::<(), MapToError>(MapToError::ParentEntryHugePage)
            <==> huge_l2(*old(t), page.start),
        r is Ok ==> leaf_l2(*final(t), page.start) == Some((frame.start, flags)),
        r is Ok ==> final(allocator).frames()
            == old(allocator).frames().skip(missing_l2(*old(t), page.start) as int),
        r == Err::<(), MapToError>(MapToError::PageAlreadyMapped)
            ==> final(allocator).frames() == old(allocator).frames(),
        r == Err::<(), MapToError>(MapToError::ParentEntryHugePage)
            ==> final(allocator).frames() == old(allocator).frames(),
        r == Err::<(), MapToError>(MapToError::FrameAllocationFailed)
            ==> final(allocator).frames().len() == 0,
        r is Err ==> forall|w: u64| #[trigger] leaf_l2(*final(t), w) == leaf_l2(*old(t), w),
        forall|w: u64| l2_index(w) != l2_index(page.start) || l1_index(w) != l1_index(page.start)
            ==> #[trigger] leaf_l2(*final(t), w) == leaf_l2(*old(t), w),
        forall|w: u64| #[trigger] huge_l2(*final(t), w) == huge_l2(*old(t), w),
{
    let i = l2_index_exec(page.start);
    let mut e = PageTableEntry::Unused;
    t.entries.set_and_swap(i, &mut e);
    match e {
        PageTableEntry::NextTable { frame: table_frame, mut next } => {
            let r = map_l1(&mut *next, page, frame, flags);
            t.entries.set(i, PageTableEntry::NextTable { frame: table_frame, next });
            proof {
                assert(old(allocator).frames().skip(0) =~= old(allocator).frames());
            }
            r
        }
        PageTableEntry::Unused => {
            match allocator.allocate_frame() {
                None => {
                    t.entries.set(i, PageTableEntry::Unused);
                    proof {
                        assert(t.entries@ =~= old(t).entries@);
                    }
                    Err(MapToError::FrameAllocationFailed)
                }
                Some(table_frame) => {
                    let mut sub = empty_table();
                    let r = map_l1(&mut sub, page, frame, flags);
                    t.entries.set(
                        i,
                        PageTableEntry::NextTable {
                            frame: table_frame.start_address(),
                            next: Box::new(sub),
                        },
                    );
                    r
                }
            }
        }
        PageTableEntry::Mapped { frame: mapped_frame, flags: mapped_flags } => {
            t.entries.set(
                i,
                PageTableEntry::Mapped { frame: mapped_frame, flags: mapped_flags },
            );
            proof {
                assert(t.entries@ =~= old(t).entries@);
            }
            Err(MapToError::ParentEntryHugePage)
        }
    }
}

/// Walks or creates the second-level table under a third-level table.
#[verifier::rlimit(100)]
fn map_l3<A: FrameAllocator>(
    t: &mut PageTable,
    page: Page,
    frame: PhysFrame,
    flags: u64,
    allocator: &mut A,
) -> (r: Result<(), MapToError>)
    requires
        wf_l3(*old(t)),
        frame.start % 4096 == 0,
        old(allocator).wf(),
    ensures
        wf_l3(*final(t)),
        final(allocator).wf(),
        r is Ok <==> (!huge_l3(*old(t), page.start) && leaf_l3(*old(t), page.start) is None
            && missing_l3(*old(t), page.start) <= old(allocator).frames().len()),
        r == Err::<(), MapToError>(MapToError::PageAlreadyMapped)
            <==> leaf_l3(*old(t), page.start) is Some,
        r == Err::<(), MapToError>(MapToError::ParentEntryHugePage)
            <==> huge_l3(*old(t), page.start),
        r is Ok ==> leaf_l3(*final(t), page.start) == Some((frame.start, flags)),
        r is Ok ==> final(allocator).frames()
            == old(allocator).frames().skip(missing_l3(*old(t), page.start) as int),
        r == Err::<(), MapToError>(MapToError::PageAlreadyMapped)
            ==> final(allocator).frames() == old(allocator).frames(),
        r == Err::<(), MapToError>(MapToError::ParentEntryHugePage)
            ==> final(allocator).frames() == old(allocator).frames(),
        r == Err::<(), MapToError>(MapToError::FrameAllocationFailed)
            ==> final(allocator).frames().len() == 0,
        r is Err ==> forall|w: u64| #[trigger] leaf_l3(*final(t), w) == leaf_l3(*old(t), w),
        forall|w: u64| l3_index(w) != l3_index(page.start) || l2_index(w) != l2_index(page.start)
            || l1_index(w) != l1_index(page.start)
            ==> #[trigger] leaf_l3(*final(t), w) == leaf_l3(*old(t), w),
        forall|w: u64| #[trigger] huge_l3(*final(t), w) == huge_l3(*old(t), w),
{
    let i = l3_index_exec(page.start);
    let mut e = PageTableEntry::Unused;
    t.entries.set_and_swap(i, &mut e);
    match e {
        PageTableEntry::NextTable { frame: table_frame, mut next } => {
            let r = map_l2(&mut *next, page, frame, flags, allocator);
            t.entries.set(i, PageTableEntry::NextTable { frame: table_frame, next });
            r
        }
        PageTableEntry::Unused => {
            match allocator.allocate_frame() {
                None => {
                    t.entries.set(i, PageTableEntry::Unused);
                    proof {
                        assert(t.entries@ =~= old(t).entries@);
                    }
                    Err(MapToError::FrameAllocationFailed)
                }
                Some(table_frame) => {
                    let mut sub = empty_table();
                    let r = map_l2(&mut sub, page, frame, flags, allocator);
                    t.entries.set(
                        i,
                        PageTableEntry::NextTable {
                            frame: table_frame.start_address(),
                            next: Box::new(sub),
                        },
                    );
                    proof {
                        if old(allocator).frames().len() >= 2 {
                            assert(old(allocator).frames().skip(1).skip(1)
                                =~= old(allocator).frames().skip(2));
                        }
                    }
                    r
                }
            }
        }
        PageTableEntry::Mapped { frame: mapped_frame, flags: mapped_flags } => {
            t.entries.set(
                i,
                PageTableEntry::Mapped { frame: mapped_frame, flags: mapped_flags },
            );
            proof {
                assert(t.entries@ =~= old(t).entries@);
            }
            Err(MapToError::ParentEntryHugePage)
        }
    }
}

/// Walks or creates the third-level table under the top-level table.
#[verifier::rlimit(100)]
fn map_l4<A: FrameAllocator>(
    t: &mut PageTable,
    page: Page,
    frame: PhysFrame,
    flags: u64,
    allocator: &mut A,
) -> (r: Result<(), MapToError>)
    requires
        wf_l4(*old(t)),
        frame.start % 4096 == 0,
        old(allocator).wf(),
    ensures
        wf_l4(*final(t)),
        final(allocator).wf(),
        r is Ok <==> (!huge_l4(*old(t), page.start) && leaf_l4(*old(t), page.start) is None
            && missing_l4(*old(t), page.start) <= old(allocator).frames().len()),
        r == Err::<(), MapToError>(MapToError::PageAlreadyMapped)
            <==> leaf_l4(*old(t), page.start) is Some,
        r == Err::<(), MapToError>(MapToError::ParentEntryHugePage)
            <==> huge_l4(*old(t), page.start),
        r is Ok ==> leaf_l4(*final(t), page.start) == Some((frame.start, flags)),
        r is Ok ==> final(allocator).frames()
            == old(allocator).frames().skip(missing_l4(*old(t), page.start) as int),
        r == Err::<(), MapToError>(MapToError::PageAlreadyMapped)
            ==> final(allocator).frames() == old(allocator).frames(),
        r == Err::<(), MapToError>(MapToError::ParentEntryHugePage)
            ==> final(allocator).frames() == old(allocator).frames(),
        r == Err::<(), MapToError>(MapToError::FrameAllocationFailed)
            ==> final(allocator).frames().len() == 0,
        r is Err ==> forall|w: u64| #[trigger] leaf_l4(*final(t), w) == leaf_l4(*old(t), w),
        forall|w: u64| l4_index(w) != l4_index(page.start) || l3_index(w) != l3_index(page.start)
            || l2_index(w) != l2_index(page.start) || l1_index(w) != l1_index(page.start)
            ==> #[trigger] leaf_l4(*final(t), w) == leaf_l4(*old(t), w),
        forall|w: u64| #[trigger] huge_l4(*final(t), w) == huge_l4(*old(t), w),
{
    let i = l4_index_exec(page.start);
    let mut e = PageTableEntry::Unused;
    t.entries.set_and_swap(i, &mut e);
    match e {
        PageTableEntry::NextTable { frame: table_frame, mut next } => {
            let r = map_l3(&mut *next, page, frame, flags, allocator);
            t.entries.set(i, PageTableEntry::NextTable { frame: table_frame, next });
            r
        }
        PageTableEntry::Unused => {
            match allocator.allocate_frame() {
                None => {
                    t.entries.set(i, PageTableEntry::Unused);
                    proof {
                        assert(t.entries@ =~= old(t).entries@);
                    }
                    Err(MapToError::FrameAllocationFailed)
                }
                Some(table_frame) => {
                    let mut sub = empty_table();
                    let r = map_l3(&mut sub, page, frame, flags, allocator);
                    t.entries.set(
                        i,
                        PageTableEntry::NextTable {
                            frame: table_frame.start_address(),
                            next: Box::new(sub),
                        },
                    );
                    proof {
                        if old(allocator).frames().len() >= 3 {
                            assert(old(allocator).frames().skip(1).skip(2)
                                =~= old(allocator).frames().skip(3));
                        }
                    }
                    r
                }
            }
        }
        PageTableEntry::Mapped { .. } => {
            proof {
                assert(wf_entry_l4(old(t).entries[i as int]));
                assert(false);
            }
            unreached()
        }
    }
}

/// A page that holds its own page-sized mapping has no large-page mapping
/// above it: a walk that reaches a lowest-level slot passed through links at
/// every upper level.
pub proof fn lemma_leaf_excludes_huge(t: PageTable, v: u64)
    requires
        leaf_l4(t, v) is Some,
    ensures
        !huge_l4(t, v),
{
}

/// Two page-aligned canonical addresses that select the same slot at all four
/// levels are the same address.
proof fn lemma_indices_injective(a: u64, b: u64)
    requires
        is_page_aligned(a),
        is_page_aligned(b),
        is_canonical(a),
        is_canonical(b),
        l4_index(a) == l4_index(b),
        l3_index(a) == l3_index(b),
        l2_index(a) == l2_index(b),
        l1_index(a) == l1_index(b),
    ensures
        a == b,
{
    assert(a == b) by (bit_vector)
        requires
            a % 4096 == 0,
            b % 4096 == 0,
            a < 0x8000_0000_0000 || a >= 0xffff_8000_0000_0000,
            b < 0x8000_0000_0000 || b >= 0xffff_8000_0000_0000,
            (a / 0x80_0000_0000) % 512 == (b / 0x80_0000_0000) % 512,
            (a / 0x4000_0000) % 512 == (b / 0x4000_0000) % 512,
            (a / 0x20_0000) % 512 == (b / 0x20_0000) % 512,
            (a / 0x1000) % 512 == (b / 0x1000) % 512;
}

impl ActivePageTable {
    /// Walks the hierarchy for the given page and returns the physical frame
    /// backing it, or reports why it has none: no present mapping, or a
    /// large-page mapping at an upper level.  A pure read.
    pub fn translate_page(&self, page: Page) -> (r: Result<PhysFrame, TranslateError>)
        requires
            self.wf(),
        ensures
            (if self.huge_in_path(page.start) {
                r == Err::<PhysFrame, TranslateError>(TranslateError::ParentEntryHugePage)
            } else {
                match self.mapping(page.start) {
                    Some(m) => r == Ok::<PhysFrame, TranslateError>(PhysFrame { start: m.0 })
                        && m.0 % 4096 == 0,
                    None => r == Err::<PhysFrame, TranslateError>(TranslateError::NotMapped),
                }
            }),
    {
        let t3 = match &self.root.entries[l4_index_exec(page.start)] {
            PageTableEntry::NextTable { next, .. } => next,
            _ => {
                return Err(TranslateError::NotMapped);
            },
        };
        let t2 = match &t3.entries[l3_index_exec(page.start)] {
            PageTableEntry::NextTable { next, .. } => next,
            PageTableEntry::Mapped { .. } => {
                return Err(TranslateError::ParentEntryHugePage);
            },
            PageTableEntry::Unused => {
                return Err(TranslateError::NotMapped);
            },
        };
        let t1 = match &t2.entries[l2_index_exec(page.start)] {
            PageTableEntry::NextTable { next, .. } => next,
            PageTableEntry::Mapped { .. } => {
                return Err(TranslateError::ParentEntryHugePage);
            },
            PageTableEntry::Unused => {
                return Err(TranslateError::NotMapped);
            },
        };
        match &t1.entries[l1_index_exec(page.start)] {
            PageTableEntry::Mapped { frame, flags } => {
                if *flags % 2 == 1 {
                    Ok(PhysFrame { start: *frame })
                } else {
                    Err(TranslateError::NotMapped)
                }
            },
            _ => Err(TranslateError::NotMapped),
        }
    }

    /// Whether `map_to` could install a mapping for this page as far as the
    /// tables are concerned: its slot holds nothing and no large-page mapping
    /// blocks the walk.  (Success further needs enough allocator frames.)
    pub fn is_free(&self, page: Page) -> (b: bool)
        requires
            self.wf(),
        ensures
            b <==> (self.leaf(page.start) is None && !self.huge_in_path(page.start)),
    {
        let t3 = match &self.root.entries[l4_index_exec(page.start)] {
            PageTableEntry::NextTable { next, .. } => next,
            _ => {
                return true;
            },
        };
        let t2 = match &t3.entries[l3_index_exec(page.start)] {
            PageTableEntry::NextTable { next, .. } => next,
            PageTableEntry::Mapped { .. } => {
                return false;
            },
            PageTableEntry::Unused => {
                return true;
            },
        };
        let t1 = match &t2.entries[l2_index_exec(page.start)] {
            PageTableEntry::NextTable { next, .. } => next,
            PageTableEntry::Mapped { .. } => {
                return false;
            },
            PageTableEntry::Unused => {
                return true;
            },
        };
        matches!(&t1.entries[l1_index_exec(page.start)], PageTableEntry::Unused)
    }

    /// Installs a mapping from `page` to `frame` with the given flags,
    /// allocating any absent intermediate-level tables from the supplied
    /// allocator.  Succeeds exactly when the page's slot is free, no
    /// large-page mapping blocks the walk, and the allocator holds enough
    /// frames for the absent tables; a taken slot or blocking large page is
    /// reported and never overwritten or split.  On success the caller
    /// receives the obligation to flush the page's translation-cache entry.
    pub fn map_to<A: FrameAllocator>(
        &mut self,
        page: Page,
        frame: PhysFrame,
        flags: u64,
        frame_allocator: &mut A,
    ) -> (r: Result<MapperFlush, MapToError>)
        requires
            old(self).wf(),
            is_page_aligned(page.start),
            is_canonical(page.start),
            frame.start % 4096 == 0,
            old(frame_allocator).wf(),
        ensures
            final(self).wf(),
            final(frame_allocator).wf(),
            final(self).physical_memory_offset == old(self).physical_memory_offset,
            final(self).root_frame == old(self).root_frame,
            r is Ok <==> (!old(self).huge_in_path(page.start)
                && old(self).leaf(page.start) is None
                && old(self).missing_tables(page.start) <= old(frame_allocator).frames().len()),
            r matches Ok(fl) ==> fl == (MapperFlush { page }),
            r == Err::<MapperFlush, MapToError>(MapToError::PageAlreadyMapped)
                <==> old(self).leaf(page.start) is Some,
            r == Err::<MapperFlush, MapToError>(MapToError::ParentEntryHugePage)
                <==> old(self).huge_in_path(page.start),
            r is Ok ==> final(self).leaf(page.start) == Some((frame.start, flags)),
            r is Ok ==> final(self).mapping(page.start)
                == (if flags % 2 == 1 { Some((frame.start, flags)) } else { None::<(u64, u64)> }),
            r is Ok ==> final(frame_allocator).frames()
                == old(frame_allocator).frames().skip(old(self).missing_tables(page.start) as int),
            r == Err::<MapperFlush, MapToError>(MapToError::PageAlreadyMapped)
                ==> final(frame_allocator).frames() == old(frame_allocator).frames(),
            r == Err::<MapperFlush, MapToError>(MapToError::ParentEntryHugePage)
                ==> final(frame_allocator).frames() == old(frame_allocator).frames(),
            r == Err::<MapperFlush, MapToError>(MapToError::FrameAllocationFailed)
                ==> final(frame_allocator).frames().len() == 0,
            r is Err ==> forall|w: u64| #[trigger] final(self).leaf(w) == old(self).leaf(w),
            forall|w: u64| #[trigger] final(self).huge_in_path(w) == old(self).huge_in_path(w),
            forall|w: u64| is_page_aligned(w) && is_canonical(w) && w != page.start
                ==> #[trigger] final(self).leaf(w) == old(self).leaf(w),
            forall|w: u64| is_page_aligned(w) && is_canonical(w) && w != page.start
                ==> #[trigger] final(self).mapping(w) == old(self).mapping(w),
    {
        let r = map_l4(&mut self.root, page, frame, flags, frame_allocator);
        proof {
            assert forall|w: u64| is_page_aligned(w) && is_canonical(w) && w != page.start
                implies #[trigger] leaf_l4(self.root, w) == leaf_l4(old(self).root, w) by {
                if l4_index(w) == l4_index(page.start) && l3_index(w) == l3_index(page.start)
                    && l2_index(w) == l2_index(page.start) && l1_index(w) == l1_index(page.start) {
                    lemma_indices_injective(w, page.start);
                }
            }
        }
        match r {
            Ok(()) => Ok(MapperFlush { page }),
            Err(e) => Err(e),
        }
    }
}

} // verus!
