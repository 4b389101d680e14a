//! Physical frame allocation.
//!
//! A frame allocator is any capability that can answer `allocate_frame`:
//! either the next free physical frame, or `None` once it is exhausted.  Its
//! model is the sequence of frame addresses it has yet to dispense; each
//! successful call hands out the head of that sequence and keeps the tail, so
//! one instance can never dispense the same position twice.

use vstd::prelude::*;
use crate::addr::{align_down, PhysFrame};
use crate::memory_map::{frame_seq, region_frame_count, region_frames, MemoryRegion, RegionType};

verus! {

/// The capability of dispensing physical frames.
///
/// `frames` is the model: the addresses still to be dispensed, in order.
/// `allocate_frame` consumes the head of that sequence, or reports exhaustion
/// (and changes nothing) when the sequence is empty.
pub trait FrameAllocator: Sized {
    /// The frame start addresses this allocator has yet to dispense.
    spec fn frames(&self) -> Seq<u64>;

    /// The allocator's internal consistency: in particular, every address it
    /// will ever dispense lies on a page boundary.
    spec fn wf(&self) -> bool;

    /// Dispenses the next free frame, or reports exhaustion.
    fn allocate_frame(&mut self) -> (r: Option<PhysFrame>)
        requires
            old(self).wf(),
        ensures
            final(self).wf(),
            old(self).frames().len() == 0 ==> r is None && final(self).frames() == old(self).frames(),
            old(self).frames().len() > 0 ==> r == Some(PhysFrame { start: old(self).frames()[0] })
                && old(self).frames()[0] % 4096 == 0
                && final(self).frames() == old(self).frames().skip(1),
    ;
}

/// A frame allocator that is always exhausted.  A safe placeholder wherever a
/// frame allocator is demanded before a real memory map exists, and wherever
/// allocation must provably never succeed.
pub struct EmptyFrameAllocator;

impl FrameAllocator for EmptyFrameAllocator {
    open spec fn frames(&self) -> Seq<u64> {
        Seq::empty()
    }

    open spec fn wf(&self) -> bool {
        true
    }

    fn allocate_frame(&mut self) -> (r: Option<PhysFrame>) {
        None
    }
}

/// Law: the null allocator's model is empty from the start, so by
/// `allocate_frame`'s contract every call on it, however many are made,
/// reports exhaustion and leaves it unchanged.
pub proof fn lemma_empty_allocator_always_exhausted(a: EmptyFrameAllocator)
    ensures
        a.wf(),
        a.frames().len() == 0,
{
}

/// A frame allocator fed by the firmware memory map: it dispenses, in address
/// order, every page-stepped frame of the usable regions, then reports
/// exhaustion forever.
pub struct BootInfoFrameAllocator {
    /// All frame addresses the memory map yields, low addresses first.
    frames: Vec<u64>,
    /// How many of them have already been dispensed.
    next: usize,
}

impl BootInfoFrameAllocator {
    /// The whole frame list this allocator was built over, dispensed and not.
    pub closed spec fn all_frames(&self) -> Seq<u64> {
        self.frames@
    }

    /// How many frames have been dispensed so far.
    pub closed spec fn dispensed(&self) -> int {
        self.next as int
    }

    /// How many frames are still to be dispensed.
    pub fn remaining(&self) -> (n: usize)
        ensures
            self.wf() ==> n == self.frames().len(),
    {
        if self.next <= self.frames.len() {
            self.frames.len() - self.next
        } else {
            0
        }
    }
}

impl FrameAllocator for BootInfoFrameAllocator {
    closed spec fn frames(&self) -> Seq<u64> {
        self.frames@.skip(self.next as int)
    }

    closed spec fn wf(&self) -> bool {
        self.next <= self.frames@.len()
        && forall|i: int| 0 <= i < self.frames@.len() ==> (#[trigger] self.frames@[i]) % 4096 == 0
    }

    fn allocate_frame(&mut self) -> (r: Option<PhysFrame>) {
        if self.next < self.frames.len() {
            let f = self.frames[self.next];
            self.next = self.next + 1;
            proof {
                assert(self.frames@.skip(self.next as int)
                    =~= old(self).frames@.skip(old(self).next as int).skip(1));
            }
            Some(PhysFrame { start: f })
        } else {
            None
        }
    }
}

/// Builds a frame allocator over the passed memory map: the usable regions,
/// flattened to their page-stepped addresses, each rounded down to its frame.
pub fn init_frame_allocator(memory_map: &Vec<MemoryRegion>) -> (r: BootInfoFrameAllocator)
    ensures
        r.wf(),
        r.frames() == frame_seq(memory_map@),
        r.all_frames() == frame_seq(memory_map@),
        r.dispensed() == 0,
{
    let mut frames: Vec<u64> = Vec::new();
    let mut k: usize = 0;
    while k < memory_map.len()
        invariant
            k <= memory_map.len(),
            frames@ =~= frame_seq(memory_map@.take(k as int)),
            forall|i: int| 0 <= i < frames@.len() ==> (#[trigger] frames@[i]) % 4096 == 0,
        decreases memory_map.len() - k,
    {
        let region = memory_map[k];
        if matches!(region.region_type, RegionType::Usable) {
            push_region_frames(&mut frames, region);
        }
        proof {
            let rs = memory_map@.take(k + 1 as int);
            assert(rs.drop_last() =~= memory_map@.take(k as int));
            assert(rs.last() == memory_map@[k as int]);
            assert(frames@ =~= frame_seq(rs));
        }
        k = k + 1;
    }
    proof {
        assert(memory_map@.take(memory_map@.len() as int) =~= memory_map@);
    }
    BootInfoFrameAllocator { frames, next: 0 }
}

/// Appends one usable region's frames: those containing `start`,
/// `start + 4096`, and so on for as long as the stepped address stays below
/// `end`.
fn push_region_frames(frames: &mut Vec<u64>, region: MemoryRegion)
    requires
        region.region_type is Usable,
    ensures
        final(frames)@ == old(frames)@ + region_frames(region),
{
    let count: u64 = region_frame_count_exec(region);
    let mut j: u64 = 0;
    while j < count
        invariant
            j <= count,
            count == region_frame_count(region),
            region.region_type is Usable,
            frames@ =~= old(frames)@ + region_frames(region).take(j as int),
        decreases count - j,
    {
        proof {
            crate::memory_map::lemma_region_step_in_range(region, j as int);
        }
        let addr: u64 = region.start + 4096 * j;
        frames.push(align_down(addr));
        proof {
            assert(region_frames(region)[j as int] == crate::addr::spec_align_down(addr));
            assert(region_frames(region).take(j + 1 as int)
                =~= region_frames(region).take(j as int).push(crate::addr::spec_align_down(addr)));
        }
        j = j + 1;
    }
    proof {
        assert(region_frames(region).take(count as int) =~= region_frames(region));
    }
}

/// How many page-stepped addresses the region's span holds, computed without
/// overflowing even for spans that reach the top of the address space.
fn region_frame_count_exec(region: MemoryRegion) -> (r: u64)
    ensures
        r == region_frame_count(region),
{
    if region.start < region.end {
        let d = region.end - region.start;
        let q = d / 4096;
        let rem = d % 4096;
        proof {
            assert(q + (if rem != 0 { 1int } else { 0 }) == ((d + 4095) / 4096)) by (nonlinear_arith)
                requires q == d as int / 4096, rem == d as int % 4096, d > 0;
        }
        if rem != 0 { q + 1 } else { q }
    } else {
        0
    }
}

} // verus!
