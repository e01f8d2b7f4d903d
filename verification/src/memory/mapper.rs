//! The page-table mapper: which virtual page leads to which physical frame.

use std::collections::HashMap;
use vstd::prelude::*;
use crate::memory::frame_allocator::FrameAllocator;
use crate::memory::{Page, PhysFrame};

verus! {

/// Bytes of address space below one entry of the top-level table, which is
/// what one level-3 table covers.
pub const LEVEL_3_SPAN: u64 = 0x80_0000_0000;

/// Bytes of address space that one level-2 table covers.
pub const LEVEL_2_SPAN: u64 = 0x4000_0000;

/// Bytes of address space that one level-1 table covers.
pub const LEVEL_1_SPAN: u64 = 0x20_0000;

/// The access rights of a mapped page. Every mapped page is present.
#[derive(Clone, Copy, Debug, PartialEq, Eq, Structural)]
pub struct PageFlags {
    pub writable: bool,
    pub user_accessible: bool,
    pub write_through: bool,
    pub no_cache: bool,
    pub no_execute: bool,
}

/// The leaf entry of a mapped page.
#[derive(Clone, Copy, Debug, PartialEq, Eq, Structural)]
pub struct Mapping {
    pub frame: PhysFrame,
    pub flags: PageFlags,
    /// Whether the translation cache was invalidated for the page since the
    /// entry was written. Until then the page must not be used.
    pub flushed: bool,
}

/// Why a page could not be mapped.
#[derive(Clone, Copy, Debug, PartialEq, Eq, Structural)]
pub enum MapError {
    /// The page already leads to the given frame.
    PageAlreadyMapped(PhysFrame),
    /// A page table was missing and no frame was left to hold it.
    FrameAllocationFailed,
}

/// The mathematical content of a page-table hierarchy. A table is named by
/// the address range it covers (an address of the range, divided by the
/// span of the table's level) and holds the address of the frame it lives
/// in; a leaf entry is named by the start address of its page.
#[verifier::ext_equal]
pub struct PageTables {
    pub level_3: Map<u64, u64>,
    pub level_2: Map<u64, u64>,
    pub level_1: Map<u64, u64>,
    pub mappings: Map<u64, Mapping>,
}

/// The name of the level-3 table that covers `addr`.
pub open spec fn level_3_key(addr: u64) -> u64 {
    addr / LEVEL_3_SPAN
}

/// The name of the level-2 table that covers `addr`.
pub open spec fn level_2_key(addr: u64) -> u64 {
    addr / LEVEL_2_SPAN
}

/// The name of the level-1 table that covers `addr`.
pub open spec fn level_1_key(addr: u64) -> u64 {
    addr / LEVEL_1_SPAN
}

impl PageTables {
    /// A hierarchy with a top-level table and nothing below it.
    pub open spec fn empty() -> PageTables {
        PageTables {
            level_3: Map::empty(),
            level_2: Map::empty(),
            level_1: Map::empty(),
            mappings: Map::empty(),
        }
    }

    /// Every table hangs from a table of the level above, and every leaf
    /// entry sits in a level-1 table.
    pub open spec fn wf(self) -> bool {
        &&& forall|page: u64| #[trigger]
            self.mappings.contains_key(page) ==> self.level_1.contains_key(level_1_key(page))
        &&& forall|addr: u64| #[trigger]
            self.level_1.contains_key(level_1_key(addr)) ==> self.level_2.contains_key(
                level_2_key(addr),
            )
        &&& forall|addr: u64| #[trigger]
            self.level_2.contains_key(level_2_key(addr)) ==> self.level_3.contains_key(
                level_3_key(addr),
            )
    }

    /// How many tables must be created before the page at `page` can get a
    /// leaf entry.
    pub open spec fn missing_tables(self, page: u64) -> nat {
        if !self.level_3.contains_key(level_3_key(page)) {
            3
        } else if !self.level_2.contains_key(level_2_key(page)) {
            2
        } else if !self.level_1.contains_key(level_1_key(page)) {
            1
        } else {
            0
        }
    }

    /// The hierarchy after the topmost missing table on the way to `page`
    /// was created in the frame at `table`.
    pub open spec fn with_next_table(self, page: u64, table: u64) -> PageTables {
        if !self.level_3.contains_key(level_3_key(page)) {
            PageTables { level_3: self.level_3.insert(level_3_key(page), table), ..self }
        } else if !self.level_2.contains_key(level_2_key(page)) {
            PageTables { level_2: self.level_2.insert(level_2_key(page), table), ..self }
        } else if !self.level_1.contains_key(level_1_key(page)) {
            PageTables { level_1: self.level_1.insert(level_1_key(page), table), ..self }
        } else {
            self
        }
    }

    /// The hierarchy after up to `count` missing tables on the way to `page`
    /// were created, top down, in the frames `frames[next]`,
    /// `frames[next + 1]`, and so on.
    pub open spec fn with_tables(
        self,
        page: u64,
        frames: Seq<u64>,
        next: int,
        count: nat,
    ) -> PageTables
        decreases count,
    {
        if count == 0 {
            self
        } else {
            self.with_next_table(page, frames[next]).with_tables(
                page,
                frames,
                next + 1,
                (count - 1) as nat,
            )
        }
    }

    /// The hierarchy after the page at `page` got the leaf entry `mapping`.
    pub open spec fn with_mapping(self, page: u64, mapping: Mapping) -> PageTables {
        PageTables { mappings: self.mappings.insert(page, mapping), ..self }
    }
}

/// Once the missing tables on the way to a page are created, none is
/// missing.
pub proof fn lemma_with_tables_complete(tables: PageTables, page: u64, frames: Seq<u64>, next: int)
    ensures
        tables.with_tables(page, frames, next, tables.missing_tables(page)).missing_tables(page)
            == 0,
{
    reveal_with_fuel(PageTables::with_tables, 4);
}

/// What mapping the page at `page` to `frame` does to a hierarchy and to the
/// frame allocator's position `next` in `frames`, and what it returns.
///
/// A page that is mapped already is refused and nothing changes. Otherwise the
/// missing tables are created top down, one frame each. If the frames run
/// out, the tables created so far stay and the page stays unmapped.
pub open spec fn map_step(
    tables: PageTables,
    frames: Seq<u64>,
    next: nat,
    page: u64,
    frame: PhysFrame,
    flags: PageFlags,
) -> (PageTables, nat, Result<(), MapError>) {
    let missing = tables.missing_tables(page);
    let left = (frames.len() - next) as nat;
    if tables.mappings.contains_key(page) {
        (tables, next, Err(MapError::PageAlreadyMapped(tables.mappings[page].frame)))
    } else if left < missing {
        (
            tables.with_tables(page, frames, next as int, left),
            frames.len(),
            Err(MapError::FrameAllocationFailed),
        )
    } else {
        (
            tables.with_tables(page, frames, next as int, missing).with_mapping(
                page,
                Mapping { frame, flags, flushed: false },
            ),
            next + missing,
            Ok(()),
        )
    }
}


/// One call of [`Mapper::map`].
pub struct MapRequest {
    pub page: Page,
    pub frame: PhysFrame,
    pub flags: PageFlags,
}

/// What a sequence of map calls, made one after the other, does to a
/// hierarchy and to the allocator's position, and what each call returns.
pub open spec fn map_all(
    tables: PageTables,
    frames: Seq<u64>,
    next: nat,
    requests: Seq<MapRequest>,
) -> (PageTables, nat, Seq<Result<(), MapError>>)
    decreases requests.len(),
{
    if requests.len() == 0 {
        (tables, next, Seq::empty())
    } else {
        let (t, n, outcomes) = map_all(tables, frames, next, requests.drop_last());
        let r = requests.last();
        let (t2, n2, outcome) = map_step(t, frames, n, r.page.addr(), r.frame, r.flags);
        (t2, n2, outcomes.push(outcome))
    }
}

/// A map call never removes or changes the leaf entry of a mapped page.
pub proof fn lemma_map_step_keeps_mappings(
    tables: PageTables,
    frames: Seq<u64>,
    next: nat,
    page: u64,
    frame: PhysFrame,
    flags: PageFlags,
    other: u64,
)
    requires
        tables.mappings.contains_key(other),
    ensures
        map_step(tables, frames, next, page, frame, flags).0.mappings.contains_key(other),
        map_step(tables, frames, next, page, frame, flags).0.mappings[other]
            == tables.mappings[other],
{
    lemma_with_tables_keeps_mappings(
        tables,
        page,
        frames,
        next as int,
        (frames.len() - next) as nat,
    );
    lemma_with_tables_keeps_mappings(
        tables,
        page,
        frames,
        next as int,
        tables.missing_tables(page),
    );
}

/// Creating tables leaves the leaf entries as they are.
pub proof fn lemma_with_tables_keeps_mappings(
    tables: PageTables,
    page: u64,
    frames: Seq<u64>,
    next: int,
    count: nat,
)
    ensures
        tables.with_tables(page, frames, next, count).mappings == tables.mappings,
    decreases count,
{
    if count > 0 {
        lemma_with_tables_keeps_mappings(
            tables.with_next_table(page, frames[next]),
            page,
            frames,
            next + 1,
            (count - 1) as nat,
        );
    }
}

/// The first `k` calls of a sequence return what they return when they are
/// made alone.
pub proof fn lemma_map_all_prefix(
    tables: PageTables,
    frames: Seq<u64>,
    next: nat,
    requests: Seq<MapRequest>,
    k: int,
)
    requires
        0 <= k <= requests.len(),
    ensures
        map_all(tables, frames, next, requests).2.len() == requests.len(),
        map_all(tables, frames, next, requests.take(k)).2 == map_all(
            tables,
            frames,
            next,
            requests,
        ).2.take(k),
    decreases requests.len(),
{
    if requests.len() == 0 {
        assert(requests.take(k) == requests);
    } else if k == requests.len() {
        assert(requests.take(k) == requests);
        lemma_map_all_prefix(tables, frames, next, requests.drop_last(), k - 1);
    } else {
        lemma_map_all_prefix(tables, frames, next, requests.drop_last(), k);
        assert(requests.drop_last().take(k) == requests.take(k));
    }
}

/// Once a call has mapped a page, the page stays mapped to that call's frame
/// through every later call of the sequence.
proof fn lemma_mapped_page_stays(
    tables: PageTables,
    frames: Seq<u64>,
    next: nat,
    requests: Seq<MapRequest>,
    i: int,
    k: int,
)
    requires
        0 <= i < k <= requests.len(),
        map_all(tables, frames, next, requests).2.len() == requests.len(),
        map_all(tables, frames, next, requests).2[i] is Ok,
    ensures
        map_all(tables, frames, next, requests.take(k)).0.mappings.contains_key(
            requests[i].page.addr(),
        ),
        map_all(tables, frames, next, requests.take(k)).0.mappings[requests[i].page.addr()].frame
            == requests[i].frame,
    decreases k,
{
    let upto = requests.take(k);
    let rest = upto.drop_last();
    assert(rest == requests.take(k - 1));
    let (t, n, outcomes) = map_all(tables, frames, next, rest);
    let r = upto.last();
    assert(r == requests[k - 1]);
    lemma_map_all_prefix(tables, frames, next, requests, k);
    lemma_map_all_prefix(tables, frames, next, rest, 0);
    let step = map_step(t, frames, n, r.page.addr(), r.frame, r.flags);
    assert(map_all(tables, frames, next, upto).2 == outcomes.push(step.2));
    if k == i + 1 {
        assert(map_all(tables, frames, next, upto).2[i] == map_all(
            tables,
            frames,
            next,
            requests,
        ).2[i]);
        assert(step.2 is Ok);
    } else {
        lemma_mapped_page_stays(tables, frames, next, requests, i, k - 1);
        lemma_map_step_keeps_mappings(
            t,
            frames,
            n,
            r.page.addr(),
            r.frame,
            r.flags,
            requests[i].page.addr(),
        );
    }
}

/// Mapping is unique: in any sequence of map calls, once a call has
/// succeeded for a page, every later call for the same page fails with a
/// collision that names the frame of the call that succeeded. So no two
/// calls succeed for the same page.
pub proof fn lemma_mapping_unique(
    tables: PageTables,
    frames: Seq<u64>,
    next: nat,
    requests: Seq<MapRequest>,
    i: int,
    j: int,
)
    requires
        0 <= i < j < requests.len(),
        requests[i].page.addr() == requests[j].page.addr(),
        map_all(tables, frames, next, requests).2[i] is Ok,
    ensures
        map_all(tables, frames, next, requests).2[j] == Err::<(), MapError>(
            MapError::PageAlreadyMapped(requests[i].frame),
        ),
{
    lemma_map_all_prefix(tables, frames, next, requests, j + 1);
    lemma_mapped_page_stays(tables, frames, next, requests, i, j);
    let upto = requests.take(j + 1);
    let rest = requests.take(j);
    assert(upto.drop_last() == rest);
    assert(upto.last() == requests[j]);
    lemma_map_all_prefix(tables, frames, next, rest, 0);
    let (t, n, outcomes) = map_all(tables, frames, next, rest);
    let r = requests[j];
    let step = map_step(t, frames, n, r.page.addr(), r.frame, r.flags);
    assert(map_all(tables, frames, next, upto).2 == outcomes.push(step.2));
    assert(map_all(tables, frames, next, upto).2[j] == map_all(
        tables,
        frames,
        next,
        requests,
    ).2[j]);
}

/// The promise to invalidate the translation cache for a page that was just
/// mapped. Hand it to [`Mapper::flush`].
#[must_use]
#[derive(Debug)]
pub struct MapperFlush {
    page: Page,
}

impl MapperFlush {
    /// The page that has to be flushed.
    pub closed spec fn page(&self) -> Page {
        self.page
    }

    /// The page that has to be flushed.
    pub fn target(&self) -> (page: Page)
        ensures
            page == self.page(),
    {
        self.page
    }
}

/// The kernel's record of the active page-table hierarchy.
pub struct Mapper {
    level_4_frame: PhysFrame,
    physical_memory_offset: u64,
    level_3: HashMap<u64, u64>,
    level_2: HashMap<u64, u64>,
    level_1: HashMap<u64, u64>,
    mappings: HashMap<u64, Mapping>,
}

impl Mapper {
    /// The content of the hierarchy.
    pub closed spec fn view(&self) -> PageTables {
        PageTables {
            level_3: self.level_3@,
            level_2: self.level_2@,
            level_1: self.level_1@,
            mappings: self.mappings@,
        }
    }

    /// The frame of the top-level table.
    pub closed spec fn root(&self) -> PhysFrame {
        self.level_4_frame
    }

    /// The virtual address at which physical address zero can be reached.
    pub closed spec fn offset(&self) -> u64 {
        self.physical_memory_offset
    }

    /// The invariant of the record.
    pub open spec fn wf(&self) -> bool {
        self@.wf()
    }

    /// A record of the hierarchy under the top-level table in
    /// `level_4_frame`, with nothing mapped by the kernel yet.
    pub fn new(level_4_frame: PhysFrame, physical_memory_offset: u64) -> (mapper: Mapper)
        ensures
            mapper.wf(),
            mapper@ == PageTables::empty(),
            mapper.root() == level_4_frame,
            mapper.offset() == physical_memory_offset,
    {
        let mapper = Mapper {
            level_4_frame,
            physical_memory_offset,
            level_3: HashMap::new(),
            level_2: HashMap::new(),
            level_1: HashMap::new(),
            mappings: HashMap::new(),
        };
        assert(mapper@ =~= PageTables::empty());
        mapper
    }

    /// The frame of the top-level table.
    pub fn level_4_frame(&self) -> (frame: PhysFrame)
        ensures
            frame == self.root(),
    {
        self.level_4_frame
    }

    /// The virtual address at which physical address zero can be reached.
    pub fn physical_memory_offset(&self) -> (offset: u64)
        ensures
            offset == self.offset(),
    {
        self.physical_memory_offset
    }

    /// The leaf entry of `page`, if it is mapped.
    pub fn mapping(&self, page: Page) -> (entry: Option<Mapping>)
        ensures
            entry is Some <==> self@.mappings.contains_key(page.addr()),
            entry is Some ==> entry->0 == self@.mappings[page.addr()],
    {
        let addr: u64 = page.start_address();
        match self.mappings.get(&addr) {
            Some(entry) => Some(*entry),
            None => None,
        }
    }

    /// Whether `page` is mapped.
    pub fn is_mapped(&self, page: Page) -> (mapped: bool)
        ensures
            mapped == self@.mappings.contains_key(page.addr()),
    {
        let addr: u64 = page.start_address();
        self.mappings.contains_key(&addr)
    }

    /// The frame that `page` leads to, if it is mapped.
    pub fn translate_page(&self, page: Page) -> (frame: Option<PhysFrame>)
        ensures
            frame is Some <==> self@.mappings.contains_key(page.addr()),
            frame is Some ==> frame->0 == self@.mappings[page.addr()].frame,
    {
        match self.mapping(page) {
            Some(entry) => Some(entry.frame),
            None => None,
        }
    }

    /// The address of the frame that holds the table of the level `level`
    /// (3, 2 or 1) on the way to `page`, if the table was created.
    pub fn table(&self, level: u8, page: Page) -> (frame: Option<u64>)
        ensures
            frame == if level == 3 && self@.level_3.contains_key(level_3_key(page.addr())) {
                Some(self@.level_3[level_3_key(page.addr())])
            } else if level == 2 && self@.level_2.contains_key(level_2_key(page.addr())) {
                Some(self@.level_2[level_2_key(page.addr())])
            } else if level == 1 && self@.level_1.contains_key(level_1_key(page.addr())) {
                Some(self@.level_1[level_1_key(page.addr())])
            } else {
                None
            },
    {
        let addr: u64 = page.start_address();
        let found: Option<&u64> = if level == 3 {
            let key: u64 = addr / LEVEL_3_SPAN;
            self.level_3.get(&key)
        } else if level == 2 {
            let key: u64 = addr / LEVEL_2_SPAN;
            self.level_2.get(&key)
        } else if level == 1 {
            let key: u64 = addr / LEVEL_1_SPAN;
            self.level_1.get(&key)
        } else {
            None
        };
        match found {
            Some(frame) => Some(*frame),
            None => None,
        }
    }

    /// How many tables must be created before `page` can get a leaf entry.
    pub fn missing_tables(&self, page: Page) -> (missing: u64)
        ensures
            missing == self@.missing_tables(page.addr()),
    {
        let addr: u64 = page.start_address();
        let k3: u64 = addr / LEVEL_3_SPAN;
        let k2: u64 = addr / LEVEL_2_SPAN;
        let k1: u64 = addr / LEVEL_1_SPAN;
        if !self.level_3.contains_key(&k3) {
            3
        } else if !self.level_2.contains_key(&k2) {
            2
        } else if !self.level_1.contains_key(&k1) {
            1
        } else {
            0
        }
    }

    /// Maps `page` to `frame` with the rights `flags`, creating the page
    /// tables that are missing on the way in frames from `allocator`.
    ///
    /// Fails if the page is mapped already, and then changes nothing; fails
    /// if a table is missing and `allocator` has no frame left. On success
    /// the returned promise has to be handed to [`Mapper::flush`] before the
    /// page is used.
    pub fn map(
        &mut self,
        page: Page,
        frame: PhysFrame,
        flags: PageFlags,
        allocator: &mut FrameAllocator,
    ) -> (result: Result<MapperFlush, MapError>)
        requires
            old(self).wf(),
            old(allocator).wf(),
        ensures
            final(self).wf(),
            final(self).root() == old(self).root(),
            final(self).offset() == old(self).offset(),
            final(allocator).wf(),
            final(allocator).regions() == old(allocator).regions(),
            ({
                let (tables, next, outcome) = map_step(
                    old(self)@,
                    old(allocator).frames(),
                    old(allocator).next(),
                    page.addr(),
                    frame,
                    flags,
                );
                &&& final(self)@ == tables
                &&& final(allocator).next() == next
                &&& match result {
                    Ok(flush) => outcome is Ok && flush.page() == page,
                    Err(e) => outcome == Err::<(), MapError>(e),
                }
            }),
    {
        let addr: u64 = page.start_address();
        let ghost frames = allocator.frames();
        let ghost start = allocator.next();
        let ghost before = self@;
        proof {
            allocator.lemma_next_in_range();
            reveal_with_fuel(PageTables::with_tables, 4);
        }
        match self.mappings.get(&addr) {
            Some(entry) => {
                return Err(MapError::PageAlreadyMapped(entry.frame));
            },
            None => {},
        }
        let k3: u64 = addr / LEVEL_3_SPAN;
        let k2: u64 = addr / LEVEL_2_SPAN;
        let k1: u64 = addr / LEVEL_1_SPAN;
        if !self.level_3.contains_key(&k3) {
            match allocator.allocate() {
                Some(table) => {
                    let at: u64 = table.start_address();
                    self.level_3.insert(k3, at);
                },
                None => {
                    assert(self@ =~= before);
                    return Err(MapError::FrameAllocationFailed);
                },
            }
        }
        let ghost after3 = self@;
        assert(after3 =~= before.with_tables(
            addr,
            frames,
            start as int,
            (allocator.next() - start) as nat,
        ));
        if !self.level_2.contains_key(&k2) {
            match allocator.allocate() {
                Some(table) => {
                    let at: u64 = table.start_address();
                    self.level_2.insert(k2, at);
                },
                None => {
                    assert(self@ =~= after3);
                    assert(self@.wf());
                    return Err(MapError::FrameAllocationFailed);
                },
            }
        }
        let ghost after2 = self@;
        assert(after2 =~= before.with_tables(
            addr,
            frames,
            start as int,
            (allocator.next() - start) as nat,
        ));
        if !self.level_1.contains_key(&k1) {
            match allocator.allocate() {
                Some(table) => {
                    let at: u64 = table.start_address();
                    self.level_1.insert(k1, at);
                },
                None => {
                    assert(self@ =~= after2);
                    assert(self@.wf());
                    return Err(MapError::FrameAllocationFailed);
                },
            }
        }
        let ghost after1 = self@;
        assert(after1 =~= before.with_tables(
            addr,
            frames,
            start as int,
            before.missing_tables(addr),
        ));
        self.mappings.insert(addr, Mapping { frame, flags, flushed: false });
        assert(self@ =~= after1.with_mapping(addr, Mapping { frame, flags, flushed: false }));
        assert(self@.wf());
        Ok(MapperFlush { page })
    }

    /// Records that the translation cache was invalidated for the page of
    /// `flush`, which makes the page usable.
    pub fn flush(&mut self, flush: MapperFlush)
        requires
            old(self).wf(),
        ensures
            final(self).wf(),
            final(self).root() == old(self).root(),
            final(self).offset() == old(self).offset(),
            final(self)@.level_3 == old(self)@.level_3,
            final(self)@.level_2 == old(self)@.level_2,
            final(self)@.level_1 == old(self)@.level_1,
            final(self)@.mappings == if old(self)@.mappings.contains_key(flush.page().addr()) {
                old(self)@.mappings.insert(
                    flush.page().addr(),
                    Mapping { flushed: true, ..old(self)@.mappings[flush.page().addr()] },
                )
            } else {
                old(self)@.mappings
            },
    {
        let addr: u64 = flush.page.start_address();
        let found: Option<Mapping> = match self.mappings.get(&addr) {
            Some(entry) => Some(*entry),
            None => None,
        };
        match found {
            Some(entry) => {
                self.mappings.insert(
                    addr,
                    Mapping { frame: entry.frame, flags: entry.flags, flushed: true },
                );
                assert(self@.mappings =~= old(self)@.mappings.insert(
                    addr,
                    Mapping { flushed: true, ..old(self)@.mappings[addr] },
                ));
            },
            None => {},
        }
    }

    /// Whether `page` is mapped and its entry has been flushed, so that the
    /// page may be read and written.
    pub fn is_usable(&self, page: Page) -> (usable: bool)
        ensures
            usable == (self@.mappings.contains_key(page.addr())
                && self@.mappings[page.addr()].flushed),
    {
        match self.mapping(page) {
            Some(entry) => entry.flushed,
            None => false,
        }
    }
}

} // verus!
