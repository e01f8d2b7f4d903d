//! The kernel heap: a fixed range of virtual memory, and its set-up.

use vstd::prelude::*;
use crate::arch::{page_start_of, page_starts_inclusive};
use crate::memory::frame_allocator::{
    ascending, lemma_usable_frame_in_region, lemma_usable_frames_ascending, usable_frames,
    FrameAllocator,
};
use crate::memory::mapper::{
    lemma_with_tables_complete, lemma_with_tables_keeps_mappings, Mapper, MapperFlush, Mapping,
    PageFlags, PageTables,
};
use crate::allocator::heap::{block, Heap};
use crate::memory::{MemoryRegion, Page, PhysFrame};

pub mod heap;

verus! {

/// The virtual address of the heap's first byte.
pub const HEAP_START: u64 = 0x4444_4444_0000;

/// The size of the heap in bytes: 100 KiB.
pub const HEAP_SIZE: u64 = 100 * 1024;

/// The number of pages that the heap covers.
pub const HEAP_PAGES: u64 = 25;

/// The start address of heap page `i`.
pub open spec fn heap_page(i: int) -> u64 {
    (HEAP_START + 4096 * i) as u64
}

/// Whether `page` is the start of one of the first `count` heap pages.
pub open spec fn is_heap_page(page: u64, count: nat) -> bool {
    HEAP_START <= page < HEAP_START + 4096 * count && page % 4096 == 0
}

/// The rights of a heap page: readable and writable.
pub open spec fn heap_flags() -> PageFlags {
    PageFlags {
        writable: true,
        user_accessible: false,
        write_through: false,
        no_cache: false,
        no_execute: false,
    }
}

/// The position, in the allocator's sequence of frames, of the frame that
/// backs heap page `i`, when the allocator stood at `next` and `missing`
/// page tables had to be created. The first page takes the first frame, the
/// tables take the next ones, and the other pages follow.
pub open spec fn heap_frame_index(next: nat, missing: nat, i: int) -> int {
    if i == 0 {
        next as int
    } else {
        next + missing + i
    }
}

/// The hierarchy `tables` after the first `count` heap pages were mapped and
/// flushed, with frames taken from `frames` at `next` onwards.
pub open spec fn with_heap_pages(
    tables: PageTables,
    frames: Seq<u64>,
    next: nat,
    count: nat,
) -> PageTables {
    let missing = tables.missing_tables(HEAP_START);
    if count == 0 {
        tables
    } else {
        PageTables {
            mappings: Map::new(
                |page: u64| tables.mappings.contains_key(page) || is_heap_page(page, count),
                |page: u64|
                    if is_heap_page(page, count) {
                        Mapping {
                            frame: PhysFrame::containing(
                                frames[heap_frame_index(
                                    next,
                                    missing,
                                    (page - HEAP_START) / 4096,
                                )],
                            ),
                            flags: heap_flags(),
                            flushed: true,
                        }
                    } else {
                        tables.mappings[page]
                    },
            ),
            ..tables.with_tables(HEAP_START, frames, next + 1 as int, missing)
        }
    }
}

/// Whether `tables` maps heap page `i`.
pub open spec fn heap_page_mapped(tables: PageTables, i: int) -> bool {
    tables.mappings.contains_key(heap_page(i))
}

/// Whether `tables` maps no page of the heap range.
pub open spec fn heap_unmapped(tables: PageTables) -> bool {
    forall|i: int| 0 <= i < HEAP_PAGES ==> !#[trigger] heap_page_mapped(tables, i)
}

/// Whether heap page `i` is the first one that `tables` maps.
pub open spec fn first_mapped_heap_page(tables: PageTables, i: int) -> bool {
    &&& 0 <= i < HEAP_PAGES
    &&& heap_page_mapped(tables, i)
    &&& forall|j: int| 0 <= j < i ==> !#[trigger] heap_page_mapped(tables, j)
}

/// The heap's pages share no frame: over a memory map whose regions ascend,
/// the frames behind two different heap pages are different.
pub proof fn lemma_heap_frames_distinct(
    regions: Seq<MemoryRegion>,
    next: nat,
    missing: nat,
    i: int,
    j: int,
)
    requires
        ascending(regions),
        0 <= i < j < HEAP_PAGES,
        next + HEAP_PAGES + missing <= usable_frames(regions).len(),
    ensures
        usable_frames(regions)[heap_frame_index(next, missing, i)] != usable_frames(
            regions,
        )[heap_frame_index(next, missing, j)],
{
    lemma_usable_frames_ascending(
        regions,
        heap_frame_index(next, missing, i),
        heap_frame_index(next, missing, j),
    );
}

/// No heap page lies in a frame that holds a page table created for the
/// heap: over a memory map whose regions ascend, the frame of table `t` and
/// the frame behind heap page `i` are different.
pub proof fn lemma_heap_frames_hold_no_table(
    regions: Seq<MemoryRegion>,
    next: nat,
    missing: nat,
    t: int,
    i: int,
)
    requires
        ascending(regions),
        0 <= t < missing,
        0 <= i < HEAP_PAGES,
        next + HEAP_PAGES + missing <= usable_frames(regions).len(),
    ensures
        usable_frames(regions)[next + 1 + t] != usable_frames(regions)[heap_frame_index(
            next,
            missing,
            i,
        )],
{
    let table = next + 1 + t;
    let page = heap_frame_index(next, missing, i);
    if table < page {
        lemma_usable_frames_ascending(regions, table, page);
    } else {
        lemma_usable_frames_ascending(regions, page, table);
    }
}

/// Why the heap could not be set up.
#[derive(Clone, Copy, Debug, PartialEq, Eq, Structural)]
pub enum HeapInitError {
    /// The given page of the heap range was mapped already.
    PageAlreadyMapped(Page),
    /// The frames that were left do not suffice for the heap's pages and
    /// the page tables they need.
    FrameAllocationFailed,
}

/// The pages of the heap range, in ascending order.
pub fn heap_pages() -> (pages: Vec<Page>)
    ensures
        pages@.len() == HEAP_PAGES,
        forall|i: int| 0 <= i < HEAP_PAGES ==> (#[trigger] pages@[i]).addr() == heap_page(i),
{
    let heap_end: u64 = HEAP_START + HEAP_SIZE - 1;
    let first: u64 = page_start_of(HEAP_START);
    let last: u64 = page_start_of(heap_end);
    let starts: Vec<u64> = page_starts_inclusive(first, last);
    let mut pages: Vec<Page> = Vec::new();
    let mut i: usize = 0;
    while i < starts.len()
        invariant
            i <= starts@.len(),
            starts@.len() == HEAP_PAGES,
            forall|k: int| 0 <= k < starts@.len() ==> #[trigger] starts@[k] == heap_page(k),
            pages@.len() == i,
            forall|k: int| 0 <= k < i ==> (#[trigger] pages@[k]).addr() == heap_page(k),
        decreases starts@.len() - i,
    {
        let start: u64 = starts[i];
        assert(start == heap_page(i as int));
        let page: Page = Page::containing_address(start).unwrap();
        pages.push(page);
        i = i + 1;
    }
    pages
}

/// Sets up the kernel heap: maps every page of the heap range to a fresh
/// frame, readable and writable, flushes it, and then hands the range to
/// the heap allocator, which starts with all of it free.
///
/// Nothing is mapped unless everything can be: if a page of the range is
/// mapped already, or the frames that are left do not suffice, the call
/// fails and leaves the mapper and the frame allocator as they were.
pub fn init_heap(mapper: &mut Mapper, frame_allocator: &mut FrameAllocator) -> (result: Result<
    Heap,
    HeapInitError,
>)
    requires
        old(mapper).wf(),
        old(frame_allocator).wf(),
    ensures
        final(mapper).wf(),
        final(mapper).root() == old(mapper).root(),
        final(mapper).offset() == old(mapper).offset(),
        final(frame_allocator).wf(),
        final(frame_allocator).regions() == old(frame_allocator).regions(),
        ({
            let missing = old(mapper)@.missing_tables(HEAP_START);
            match result {
                Ok(heap) => {
                    &&& heap_unmapped(old(mapper)@)
                    &&& old(frame_allocator).remaining() >= HEAP_PAGES + missing
                    &&& heap.wf()
                    &&& heap.base() == HEAP_START
                    &&& heap.size() == HEAP_SIZE
                    &&& heap.free() == block(HEAP_START as int, HEAP_SIZE as int)
                    &&& final(mapper)@ == with_heap_pages(
                        old(mapper)@,
                        old(frame_allocator).frames(),
                        old(frame_allocator).next(),
                        HEAP_PAGES as nat,
                    )
                    &&& final(frame_allocator).next() == old(frame_allocator).next() + HEAP_PAGES
                        + missing
                },
                Err(HeapInitError::PageAlreadyMapped(page)) => {
                    &&& is_heap_page(page.addr(), HEAP_PAGES as nat)
                    &&& first_mapped_heap_page(old(mapper)@, (page.addr() - HEAP_START) / 4096)
                    &&& final(mapper)@ == old(mapper)@
                    &&& final(frame_allocator).next() == old(frame_allocator).next()
                },
                Err(HeapInitError::FrameAllocationFailed) => {
                    &&& heap_unmapped(old(mapper)@)
                    &&& old(frame_allocator).remaining() < HEAP_PAGES + missing
                    &&& final(mapper)@ == old(mapper)@
                    &&& final(frame_allocator).next() == old(frame_allocator).next()
                },
            }
        }),
{
    let pages: Vec<Page> = heap_pages();
    let ghost before = mapper@;
    let ghost frames = frame_allocator.frames();
    let ghost start = frame_allocator.next();
    let ghost missing = before.missing_tables(HEAP_START);

    let mut i: usize = 0;
    while i < pages.len()
        invariant
            i <= pages@.len(),
            pages@.len() == HEAP_PAGES,
            forall|k: int| 0 <= k < HEAP_PAGES ==> (#[trigger] pages@[k]).addr() == heap_page(k),
            mapper@ == before,
            mapper.wf(),
            mapper.root() == old(mapper).root(),
            mapper.offset() == old(mapper).offset(),
            frame_allocator.wf(),
            frame_allocator.regions() == old(frame_allocator).regions(),
            frame_allocator.next() == start,
            forall|k: int| 0 <= k < i ==> !#[trigger] heap_page_mapped(before, k),
        decreases pages@.len() - i,
    {
        if mapper.is_mapped(pages[i]) {
            return Err(HeapInitError::PageAlreadyMapped(pages[i]));
        }
        i = i + 1;
    }
    let needed: u64 = HEAP_PAGES + mapper.missing_tables(pages[0]);
    if !frame_allocator.has_available(needed) {
        return Err(HeapInitError::FrameAllocationFailed);
    }
    proof {
        frame_allocator.lemma_next_in_range();
        lemma_with_tables_complete(before, HEAP_START, frames, start + 1 as int);
    }
    let flags = PageFlags {
        writable: true,
        user_accessible: false,
        write_through: false,
        no_cache: false,
        no_execute: false,
    };
    let mut i: usize = 0;
    while i < pages.len()
        invariant
            i <= pages@.len(),
            pages@.len() == HEAP_PAGES,
            forall|k: int| 0 <= k < HEAP_PAGES ==> (#[trigger] pages@[k]).addr() == heap_page(k),
            heap_unmapped(before),
            before.wf(),
            missing == before.missing_tables(HEAP_START),
            before.with_tables(HEAP_START, frames, start + 1 as int, missing).missing_tables(
                HEAP_START,
            )
                == 0,
            flags == heap_flags(),
            mapper.wf(),
            mapper.root() == old(mapper).root(),
            mapper.offset() == old(mapper).offset(),
            frame_allocator.wf(),
            frame_allocator.regions() == old(frame_allocator).regions(),
            frames == frame_allocator.frames(),
            start + HEAP_PAGES + missing <= frames.len(),
            mapper@ == with_heap_pages(before, frames, start, i as nat),
            frame_allocator.next() == heap_frame_index(start, missing, i as int),
        decreases pages@.len() - i,
    {
        let page: Page = pages[i];
        let ghost current = mapper@;
        let ghost position = frame_allocator.next();
        assert(page.addr() == heap_page(i as int));
        let frame: PhysFrame = frame_allocator.allocate().unwrap();
        proof {
            lemma_usable_frame_in_region(frame_allocator.regions(), position as int);
            PhysFrame::lemma_containing(frames[position as int]);
            PhysFrame::lemma_same_start(frame, PhysFrame::containing(frames[position as int]));
            assert(!heap_page_mapped(before, i as int));
            assert(!current.mappings.contains_key(page.addr()));
            if i > 0 {
                assert(current.missing_tables(page.addr()) == 0);
            }
            reveal_with_fuel(PageTables::with_tables, 2);
        }
        let flush: MapperFlush = mapper.map(page, frame, flags, frame_allocator).unwrap();
        mapper.flush(flush);
        proof {
            let target = with_heap_pages(before, frames, start, (i + 1) as nat);
            lemma_with_tables_keeps_mappings(before, HEAP_START, frames, start + 1 as int, missing);
            assert(mapper@.level_3 =~= target.level_3);
            assert(mapper@.level_2 =~= target.level_2);
            assert(mapper@.level_1 =~= target.level_1);
            assert forall|p: u64| is_heap_page(p, (i + 1) as nat) <==> (is_heap_page(p, i as nat)
                || p == heap_page(i as int)) by {}
            assert(mapper@.mappings.dom() =~= target.mappings.dom());
            assert(mapper@.mappings =~= target.mappings);
        }
        i = i + 1;
    }
    Ok(Heap::init(HEAP_START, HEAP_SIZE))
}

} // verus!
