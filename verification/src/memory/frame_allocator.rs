//! The physical frame allocator.

use vstd::prelude::*;
use crate::memory::{MemoryRegion, MemoryRegionKind, PhysFrame};

verus! {

/// The lowest frame start at or above the start of `r`.
pub open spec fn first_frame(r: MemoryRegion) -> int {
    if r.start % 4096 == 0 {
        r.start as int
    } else {
        r.start + 4096 - r.start % 4096
    }
}

/// How many whole frames `r` offers: none unless it is usable.
pub open spec fn frame_count(r: MemoryRegion) -> nat {
    if r.kind == MemoryRegionKind::Usable && first_frame(r) + 4096 <= r.end {
        ((r.end - first_frame(r)) / 4096) as nat
    } else {
        0
    }
}

/// The start addresses of the whole frames inside `r`, ascending.
pub open spec fn region_frames(r: MemoryRegion) -> Seq<u64> {
    Seq::new(frame_count(r), |k: int| (first_frame(r) + 4096 * k) as u64)
}

/// The start addresses of all whole frames inside the usable regions of a
/// memory map, in the order of the map.
pub open spec fn usable_frames(regions: Seq<MemoryRegion>) -> Seq<u64>
    decreases regions.len(),
{
    if regions.len() == 0 {
        Seq::empty()
    } else {
        usable_frames(regions.drop_last()) + region_frames(regions.last())
    }
}

/// The frames of the first `i` regions are the first frames of the whole map.
pub proof fn lemma_usable_frames_prefix(regions: Seq<MemoryRegion>, i: int)
    requires
        0 <= i <= regions.len(),
    ensures
        usable_frames(regions.take(i)).len() <= usable_frames(regions).len(),
        usable_frames(regions.take(i)) == usable_frames(regions).take(
            usable_frames(regions.take(i)).len() as int,
        ),
    decreases regions.len() - i,
{
    if i == regions.len() {
        assert(regions.take(i) == regions);
    } else {
        lemma_usable_frames_prefix(regions, i + 1);
        assert(regions.take(i + 1).drop_last() == regions.take(i));
    }
}

/// Frame `k` of region `i` stands in the whole sequence right after the
/// frames of the regions before it.
pub proof fn lemma_usable_frames_index(regions: Seq<MemoryRegion>, i: int, k: int)
    requires
        0 <= i < regions.len(),
        0 <= k < frame_count(regions[i]),
    ensures
        usable_frames(regions.take(i)).len() + k < usable_frames(regions).len(),
        usable_frames(regions)[usable_frames(regions.take(i)).len() + k] == first_frame(regions[i])
            + 4096 * k,
        usable_frames(regions.take(i + 1)).len() == usable_frames(regions.take(i)).len()
            + frame_count(regions[i]),
{
    lemma_usable_frames_prefix(regions, i + 1);
    assert(regions.take(i + 1).drop_last() == regions.take(i));
    assert(regions.take(i + 1).last() == regions[i]);
    let before = usable_frames(regions.take(i));
    let upto = usable_frames(regions.take(i + 1));
    assert(upto == before + region_frames(regions[i]));
    assert(upto[before.len() + k] == region_frames(regions[i])[k]);
    assert(usable_frames(regions).take(upto.len() as int)[before.len() + k] == usable_frames(
        regions,
    )[before.len() + k]);
}


/// Whether `f` is the start of a whole frame inside the usable region `r`.
pub open spec fn frame_within(f: u64, r: MemoryRegion) -> bool {
    &&& r.kind == MemoryRegionKind::Usable
    &&& f % 4096 == 0
    &&& r.start <= f
    &&& f + 4096 <= r.end
}

/// Every frame of `usable_frames` is aligned and lies, whole, inside a
/// region of the map that the boot loader marked usable.
pub proof fn lemma_usable_frame_in_region(regions: Seq<MemoryRegion>, j: int)
    requires
        0 <= j < usable_frames(regions).len(),
    ensures
        exists|i: int|
            0 <= i < regions.len() && #[trigger] frame_within(
                usable_frames(regions)[j],
                regions[i],
            ),
    decreases regions.len(),
{
    let before = usable_frames(regions.drop_last());
    if j < before.len() {
        lemma_usable_frame_in_region(regions.drop_last(), j);
        let i = choose|i: int|
            0 <= i < regions.drop_last().len() && #[trigger] frame_within(
                before[j],
                regions.drop_last()[i],
            );
        assert(frame_within(usable_frames(regions)[j], regions[i]));
    } else {
        let r = regions.last();
        let k = j - before.len();
        assert(usable_frames(regions)[j] == region_frames(r)[k]);
        assert(frame_within(usable_frames(regions)[j], regions[regions.len() - 1]));
    }
}

/// Whether the regions of a memory map are in ascending order and do not
/// overlap, as a boot loader reports them.
pub open spec fn ascending(regions: Seq<MemoryRegion>) -> bool {
    &&& forall|i: int| 0 <= i < regions.len() ==> (#[trigger] regions[i]).start <= regions[i].end
    &&& forall|i: int, j: int|
        0 <= i < j < regions.len() ==> (#[trigger] regions[i]).end <= (#[trigger] regions[j]).start
}

/// Over an ascending memory map the frames come in strictly ascending order,
/// so no frame is handed out twice.
pub proof fn lemma_usable_frames_ascending(regions: Seq<MemoryRegion>, a: int, b: int)
    requires
        ascending(regions),
        0 <= a < b < usable_frames(regions).len(),
    ensures
        usable_frames(regions)[a] + 4096 <= usable_frames(regions)[b],
    decreases regions.len(),
{
    let rest = regions.drop_last();
    let before = usable_frames(rest);
    let r = regions.last();
    if b < before.len() {
        lemma_usable_frames_ascending(rest, a, b);
    } else if a < before.len() {
        lemma_usable_frame_in_region(rest, a);
        let i = choose|i: int| 0 <= i < rest.len() && #[trigger] frame_within(before[a], rest[i]);
        assert(regions[i].end <= regions[regions.len() - 1].start);
        assert(usable_frames(regions)[b] == region_frames(r)[b - before.len()]);
    } else {
        assert(usable_frames(regions)[a] == region_frames(r)[a - before.len()]);
        assert(usable_frames(regions)[b] == region_frames(r)[b - before.len()]);
    }
}

/// Hands out the usable frames of the boot memory map, each one once, in the
/// order of the map. A frame that was handed out never comes back.
pub struct FrameAllocator {
    regions: Vec<MemoryRegion>,
    /// Index of the region that the next frame comes from.
    region: usize,
    /// Frames already taken from that region.
    taken: u64,
}

/// The first frame start in `r`, or nothing where it would pass the end of
/// the address space.
fn first_frame_of(r: &MemoryRegion) -> (first: Option<u64>)
    ensures
        first is Some <==> first_frame(*r) <= u64::MAX,
        first is Some ==> first->0 == first_frame(*r),
{
    let rem: u64 = r.start % 4096;
    if rem == 0 {
        Some(r.start)
    } else {
        r.start.checked_add(4096 - rem)
    }
}

/// The number of whole frames in `r`.
fn frame_count_of(r: &MemoryRegion) -> (count: u64)
    ensures
        count == frame_count(*r),
{
    match r.kind {
        MemoryRegionKind::Usable => match first_frame_of(r) {
            Some(first) => if first <= r.end && r.end - first >= 4096 {
                (r.end - first) / 4096
            } else {
                0
            },
            None => 0,
        },
        _ => 0,
    }
}

impl FrameAllocator {
    /// The invariant of the cursor: it stands inside the map, and inside the
    /// region it points at.
    pub closed spec fn wf(&self) -> bool {
        &&& self.region <= self.regions@.len()
        &&& self.region < self.regions@.len() ==> self.taken <= frame_count(
            self.regions@[self.region as int],
        )
        &&& self.region == self.regions@.len() ==> self.taken == 0
    }

    /// The memory map that the allocator was made from.
    pub closed spec fn regions(&self) -> Seq<MemoryRegion> {
        self.regions@
    }

    /// Every frame that the allocator will ever hand out, in order.
    pub open spec fn frames(&self) -> Seq<u64> {
        usable_frames(self.regions())
    }

    /// How many frames have been handed out so far.
    pub closed spec fn next(&self) -> nat {
        usable_frames(self.regions@.take(self.region as int)).len() + self.taken as nat
    }

    /// How many frames are left.
    pub open spec fn remaining(&self) -> nat {
        (self.frames().len() - self.next()) as nat
    }

    /// No more frames were handed out than there are.
    pub proof fn lemma_next_in_range(&self)
        requires
            self.wf(),
        ensures
            self.next() <= self.frames().len(),
    {
        lemma_usable_frames_prefix(self.regions@, self.region as int);
        if self.region < self.regions@.len() {
            if self.taken > 0 {
                lemma_usable_frames_index(self.regions@, self.region as int, self.taken - 1);
            }
        }
    }

    /// An allocator over `regions` that has handed out nothing yet.
    pub fn new(regions: Vec<MemoryRegion>) -> (allocator: FrameAllocator)
        ensures
            allocator.wf(),
            allocator.regions() == regions@,
            allocator.next() == 0,
    {
        let allocator = FrameAllocator { regions, region: 0, taken: 0 };
        assert(allocator.regions@.take(0) == Seq::<MemoryRegion>::empty());
        allocator
    }


    /// Whether at least `n` frames are left.
    pub fn has_available(&self, n: u64) -> (enough: bool)
        requires
            self.wf(),
        ensures
            enough == (self.remaining() >= n),
    {
        proof {
            self.lemma_next_in_range();
        }
        if n == 0 {
            return true;
        }
        let mut found: u64 = 0;
        let mut i: usize = self.region;
        let mut skip: u64 = self.taken;
        while i < self.regions.len()
            invariant
                self.wf(),
                self.region <= i <= self.regions@.len(),
                found < n,
                i < self.regions@.len() ==> skip <= frame_count(self.regions@[i as int]),
                i == self.regions@.len() ==> skip == 0,
                found + self.next() == usable_frames(self.regions@.take(i as int)).len() + skip,
            decreases self.regions@.len() - i,
        {
            let count: u64 = frame_count_of(&self.regions[i]) - skip;
            proof {
                lemma_usable_frames_prefix(self.regions@, i + 1);
                if frame_count(self.regions@[i as int]) > 0 {
                    lemma_usable_frames_index(
                        self.regions@,
                        i as int,
                        frame_count(self.regions@[i as int]) - 1,
                    );
                } else {
                    assert(self.regions@.take(i + 1).drop_last() == self.regions@.take(i as int));
                }
            }
            if count >= n - found {
                return true;
            }
            found = found + count;
            i = i + 1;
            skip = 0;
        }
        proof {
            assert(self.regions@.take(i as int) == self.regions@);
        }
        false
    }

    /// Hands out the next unused frame, or nothing once every usable frame
    /// has been handed out.
    pub fn allocate(&mut self) -> (frame: Option<PhysFrame>)
        requires
            old(self).wf(),
        ensures
            final(self).wf(),
            final(self).regions() == old(self).regions(),
            match frame {
                Some(f) => {
                    &&& old(self).next() < old(self).frames().len()
                    &&& f.addr() == old(self).frames()[old(self).next() as int]
                    &&& final(self).next() == old(self).next() + 1
                },
                None => {
                    &&& old(self).next() == old(self).frames().len()
                    &&& final(self).next() == old(self).next()
                },
            },
    {
        while self.region < self.regions.len()
            invariant
                self.wf(),
                self.regions@ == old(self).regions@,
                self.next() == old(self).next(),
            decreases self.regions@.len() - self.region,
        {
            let r: MemoryRegion = self.regions[self.region];
            let count: u64 = frame_count_of(&r);
            if self.taken < count {
                let first: u64 = match first_frame_of(&r) {
                    Some(first) => first,
                    None => 0,
                };
                let start: u64 = first + 4096 * self.taken;
                proof {
                    lemma_usable_frames_index(
                        self.regions@,
                        self.region as int,
                        self.taken as int,
                    );
                }
                self.taken = self.taken + 1;
                return Some(PhysFrame { start });
            }
            proof {
                if count > 0 {
                    lemma_usable_frames_index(self.regions@, self.region as int, count - 1);
                } else {
                    assert(self.regions@.take(self.region + 1).drop_last() == self.regions@.take(
                        self.region as int,
                    ));
                }
            }
            self.region = self.region + 1;
            self.taken = 0;
        }
        proof {
            assert(self.regions@.take(self.region as int) == self.regions@);
        }
        None
    }
}

} // verus!
