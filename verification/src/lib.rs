//! Virtual-memory management for a minimal kernel: physical-to-virtual offset
//! translation, a view of the active four-level page table with translate and
//! map operations, and physical frame allocators fed by the firmware memory
//! map.
//!
//! Everything here works on plain values (addresses, flags, region lists).
//! Reading the hardware page-table root register, touching the live paging
//! structures and invalidating the translation cache are hardware effects that
//! the surrounding kernel performs; it hands this library the resulting values
//! and carries out the obligations this library returns.

pub mod addr;
pub mod frame_allocator;
pub mod mapping;
pub mod memory_map;
pub mod page_table;

pub use addr::{align_down, phys_to_virt, Page, PhysFrame, PAGE_SIZE};
pub use frame_allocator::{init_frame_allocator, BootInfoFrameAllocator, EmptyFrameAllocator, FrameAllocator};
pub use mapping::{create_example_mapping, translate_addr, EXAMPLE_FRAME, EXAMPLE_PAGE};
pub use memory_map::{MemoryRegion, RegionType};
pub use page_table::{
    init, init_empty, ActivePageTable, InitToken, MapToError, MapperFlush, PageTable,
    PageTableEntry, TranslateError, FLAG_PRESENT, FLAG_WRITABLE,
};
