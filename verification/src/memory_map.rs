//! Firmware memory regions and the sequence of free frames they yield.
//!
//! At boot the firmware reports physical memory as a list of regions, each a
//! span of addresses with a usability classification.  The region-list frame
//! allocator dispenses the page-aligned frame addresses of the usable regions
//! in list order; `frame_seq` is the mathematical statement of that sequence,
//! and the lemmas at the bottom are the ordering and containment laws the
//! allocator inherits from it.

use vstd::prelude::*;
use crate::addr::spec_align_down;

verus! {

/// Usability classification of one firmware-reported region.
#[derive(Clone, Copy, PartialEq, Eq, Structural, Debug)]
pub enum RegionType {
    /// Free for the kernel to allocate.
    Usable,
    /// Not available for allocation.
    Reserved,
}

/// One span of physical memory as reported by the firmware: addresses from
/// `start` (inclusive) to `end` (exclusive).
#[derive(Clone, Copy, PartialEq, Eq, Structural, Debug)]
pub struct MemoryRegion {
    pub start: u64,
    pub end: u64,
    pub region_type: RegionType,
}

/// How many page-stepped addresses the span of a region holds.
pub open spec fn region_frame_count(r: MemoryRegion) -> nat {
    if r.start < r.end {
        (((r.end - r.start) + 4095) / 4096) as nat
    } else {
        0
    }
}

/// The frames one region contributes: nothing unless it is usable, else the
/// frames containing `start`, `start + 4096`, ... for as long as those
/// addresses stay below `end`.
pub open spec fn region_frames(r: MemoryRegion) -> Seq<u64> {
    if r.region_type is Usable {
        Seq::new(region_frame_count(r), |i: int| spec_align_down((r.start + 4096 * i) as u64))
    } else {
        Seq::empty()
    }
}

/// All frames a region list yields, region by region in list order.
pub open spec fn frame_seq(regions: Seq<MemoryRegion>) -> Seq<u64>
    decreases regions.len(),
{
    if regions.len() == 0 {
        Seq::empty()
    } else {
        frame_seq(regions.drop_last()) + region_frames(regions.last())
    }
}

/// A region whose bounds lie on page boundaries and are ordered.
pub open spec fn region_bounds_wf(r: MemoryRegion) -> bool {
    r.start % 4096 == 0 && r.end % 4096 == 0 && r.start <= r.end
}

/// A firmware region list as this layer expects it: page-aligned region
/// bounds, and regions sorted by address without overlap.
pub open spec fn regions_wf(regions: Seq<MemoryRegion>) -> bool {
    (forall|k: int| 0 <= k < regions.len() ==> region_bounds_wf(#[trigger] regions[k]))
    && (forall|k: int| 0 <= k < regions.len() - 1 ==> (#[trigger] regions[k]).end <= regions[k + 1].start)
}

/// An address stepped from a region's start stays below its end.
pub proof fn lemma_region_step_in_range(r: MemoryRegion, i: int)
    requires
        0 <= i < region_frame_count(r),
    ensures
        r.start + 4096 * i < r.end,
{
    let d = r.end - r.start;
    assert(4096 * ((d + 4095) / 4096) <= d + 4095) by (nonlinear_arith);
    assert(4096 * i <= 4096 * ((d + 4095) / 4096) - 4096) by (nonlinear_arith)
        requires i <= (d + 4095) / 4096 - 1;
}

/// The value of the `i`-th frame of a region with page-aligned start.
pub proof fn lemma_region_frame_value(r: MemoryRegion, i: int)
    requires
        r.region_type is Usable,
        r.start % 4096 == 0,
        0 <= i < region_frame_count(r),
    ensures
        region_frames(r)[i] == r.start + 4096 * i,
{
    lemma_region_step_in_range(r, i);
    let a = (r.start + 4096 * i) as u64;
    assert(a % 4096 == 0) by (nonlinear_arith)
        requires r.start % 4096 == 0, a == r.start + 4096 * i;
}

/// A well-formed region list stays well-formed when its last region is
/// dropped.
proof fn lemma_regions_wf_drop_last(regions: Seq<MemoryRegion>)
    requires
        regions_wf(regions),
        regions.len() > 0,
    ensures
        regions_wf(regions.drop_last()),
{
}

/// Every frame a well-formed region list yields lies below the end of the
/// list's last region.
#[verifier::rlimit(60)]
proof fn lemma_frame_seq_upper(regions: Seq<MemoryRegion>, i: int)
    requires
        regions_wf(regions),
        regions.len() > 0,
        0 <= i < frame_seq(regions).len(),
    ensures
        frame_seq(regions)[i] < regions.last().end,
    decreases regions.len(),
{
    let prefix = regions.drop_last();
    lemma_regions_wf_drop_last(regions);
    if i < frame_seq(prefix).len() {
        assert(prefix.len() > 0);
        lemma_frame_seq_upper(prefix, i);
        assert(prefix.last() == regions[regions.len() - 2]);
        assert(regions[regions.len() - 2].end <= regions[regions.len() - 1].start);
        assert(regions.last().start <= regions.last().end);
    } else {
        let j = i - frame_seq(prefix).len();
        lemma_region_frame_value(regions.last(), j);
        lemma_region_step_in_range(regions.last(), j);
    }
}

/// Law: the frames a well-formed region list yields come in strictly
/// increasing address order.  In particular no frame appears twice, and the
/// order of dispensing follows the order of the usable regions in the list.
#[verifier::rlimit(60)]
pub proof fn lemma_frame_seq_increasing(regions: Seq<MemoryRegion>, i: int, j: int)
    requires
        regions_wf(regions),
        0 <= i < j < frame_seq(regions).len(),
    ensures
        frame_seq(regions)[i] < frame_seq(regions)[j],
    decreases regions.len(),
{
    let prefix = regions.drop_last();
    lemma_regions_wf_drop_last(regions);
    if j < frame_seq(prefix).len() {
        lemma_frame_seq_increasing(prefix, i, j);
    } else {
        let bj = j - frame_seq(prefix).len();
        lemma_region_frame_value(regions.last(), bj);
        if i < frame_seq(prefix).len() {
            assert(prefix.len() > 0);
            lemma_frame_seq_upper(prefix, i);
            assert(prefix.last() == regions[regions.len() - 2]);
            assert(regions[regions.len() - 2].end <= regions.last().start);
        } else {
            let bi = i - frame_seq(prefix).len();
            lemma_region_frame_value(regions.last(), bi);
            assert(4096 * bi < 4096 * bj) by (nonlinear_arith)
                requires bi < bj;
        }
    }
}

/// Law: a well-formed region list never yields the same frame at two
/// positions, so one allocator instance never dispenses a frame twice.
pub proof fn lemma_no_frame_twice(regions: Seq<MemoryRegion>, i: int, j: int)
    requires
        regions_wf(regions),
        0 <= i < frame_seq(regions).len(),
        0 <= j < frame_seq(regions).len(),
        i != j,
    ensures
        frame_seq(regions)[i] != frame_seq(regions)[j],
{
    if i < j {
        lemma_frame_seq_increasing(regions, i, j);
    } else {
        lemma_frame_seq_increasing(regions, j, i);
    }
}

/// Law: every frame a well-formed region list yields lies inside a usable
/// region of that list.
#[verifier::rlimit(100)]
pub proof fn lemma_frame_seq_usable(regions: Seq<MemoryRegion>, i: int) -> (k: int)
    requires
        regions_wf(regions),
        0 <= i < frame_seq(regions).len(),
    ensures
        0 <= k < regions.len(),
        regions[k].region_type is Usable,
        regions[k].start <= frame_seq(regions)[i],
        frame_seq(regions)[i] < regions[k].end,
    decreases regions.len(),
{
    let prefix = regions.drop_last();
    lemma_regions_wf_drop_last(regions);
    if i < frame_seq(prefix).len() {
        let k = lemma_frame_seq_usable(prefix, i);
        assert(regions[k] == prefix[k]);
        assert(frame_seq(regions)[i] == frame_seq(prefix)[i]);
        k
    } else {
        let b = i - frame_seq(prefix).len();
        let last = regions.last();
        lemma_region_frame_value(last, b);
        lemma_region_step_in_range(last, b);
        assert(4096 * b >= 0) by (nonlinear_arith)
            requires b >= 0;
        regions.len() - 1
    }
}

} // verus!
