//! Physical frames, virtual pages, and the boot memory map.

use vstd::prelude::*;
use crate::arch::{is_canonical, page_start_of, PAGE_SIZE};
use crate::memory::frame_allocator::FrameAllocator;
use crate::memory::mapper::{map_step, MapError, Mapper, Mapping, PageFlags, PageTables};

pub mod frame_allocator;
pub mod mapper;

verus! {

/// What the boot loader says about a range of physical memory.
#[derive(Clone, Copy, Debug, PartialEq, Eq, Structural)]
pub enum MemoryRegionKind {
    /// Free for the kernel to use.
    Usable,
    /// Holds the kernel image, its stack, or structures of the boot loader.
    Bootloader,
    /// Reserved by the UEFI firmware, with the firmware's own type tag.
    UnknownUefi(u32),
    /// Reserved by the BIOS, with the firmware's own type tag.
    UnknownBios(u32),
}

/// One entry of the boot memory map: the bytes from `start` up to, but not
/// including, `end`.
#[derive(Clone, Copy, Debug, PartialEq, Eq, Structural)]
pub struct MemoryRegion {
    pub start: u64,
    pub end: u64,
    pub kind: MemoryRegionKind,
}

/// A 4 KiB block of physical memory, named by its start address.
#[derive(Clone, Copy, Debug, PartialEq, Eq, Structural)]
pub struct PhysFrame {
    start: u64,
}

impl PhysFrame {
    #[verifier::type_invariant]
    spec fn aligned(self) -> bool {
        self.start % 4096 == 0
    }

    /// The address of the frame's first byte.
    pub closed spec fn addr(self) -> u64 {
        self.start
    }

    /// The frame that holds the physical address `addr`.
    pub closed spec fn containing(addr: u64) -> PhysFrame {
        PhysFrame { start: (addr - addr % 4096) as u64 }
    }

    /// The frame that holds the physical address `addr`.
    pub fn containing_address(addr: u64) -> (frame: PhysFrame)
        ensures
            frame == PhysFrame::containing(addr),
            frame.addr() == addr - addr % 4096,
    {
        PhysFrame { start: addr - addr % PAGE_SIZE }
    }

    /// The frame that starts at `addr`, if `addr` is a multiple of the frame
    /// size.
    pub fn from_start_address(addr: u64) -> (frame: Option<PhysFrame>)
        ensures
            frame is Some <==> addr % 4096 == 0,
            frame is Some ==> frame->0.addr() == addr,
    {
        if addr % PAGE_SIZE == 0 {
            Some(PhysFrame { start: addr })
        } else {
            None
        }
    }

    /// The address of the frame's first byte.
    pub fn start_address(&self) -> (addr: u64)
        ensures
            addr == self.addr(),
            addr % 4096 == 0,
    {
        proof {
            use_type_invariant(self);
        }
        self.start
    }

    /// The frame that holds `addr` starts at `addr` rounded down to the
    /// frame size.
    pub proof fn lemma_containing(addr: u64)
        ensures
            PhysFrame::containing(addr).addr() == addr - addr % 4096,
    {
    }

    /// A frame is nothing but its start address.
    pub proof fn lemma_same_start(a: PhysFrame, b: PhysFrame)
        requires
            a.addr() == b.addr(),
        ensures
            a == b,
    {
    }
}

/// A 4 KiB block of virtual memory, named by its start address, which is
/// canonical.
#[derive(Clone, Copy, Debug, PartialEq, Eq, Structural)]
pub struct Page {
    start: u64,
}

impl Page {
    #[verifier::type_invariant]
    spec fn valid(self) -> bool {
        self.start % 4096 == 0 && is_canonical(self.start)
    }

    /// The address of the page's first byte.
    pub closed spec fn addr(self) -> u64 {
        self.start
    }

    /// The page that holds the virtual address `addr`, or nothing if `addr`
    /// is not canonical.
    pub fn containing_address(addr: u64) -> (page: Option<Page>)
        ensures
            page is Some <==> is_canonical(addr),
            page is Some ==> page->0.addr() == addr - addr % 4096,
    {
        if addr < 0x0000_8000_0000_0000 || addr >= 0xffff_8000_0000_0000 {
            let start: u64 = page_start_of(addr);
            Some(Page { start })
        } else {
            None
        }
    }

    /// The address of the page's first byte.
    pub fn start_address(&self) -> (addr: u64)
        ensures
            addr == self.addr(),
            addr % 4096 == 0,
            is_canonical(addr),
    {
        proof {
            use_type_invariant(self);
        }
        self.start
    }

    /// A page is nothing but its start address.
    pub proof fn lemma_same_start(a: Page, b: Page)
        requires
            a.addr() == b.addr(),
        ensures
            a == b,
    {
    }
}

/// What the boot loader hands to the kernel about memory. The value is
/// consumed by [`init`], so the memory subsystem is set up at most once for
/// each handoff.
pub struct BootInfo {
    memory_regions: Vec<MemoryRegion>,
    physical_memory_offset: Option<u64>,
    level_4_table: u64,
}

impl BootInfo {
    /// The memory map of the handoff.
    pub closed spec fn regions(&self) -> Seq<MemoryRegion> {
        self.memory_regions@
    }

    /// The virtual address at which the boot loader mapped physical address
    /// zero, if it mapped physical memory at all.
    pub closed spec fn offset(&self) -> Option<u64> {
        self.physical_memory_offset
    }

    /// The physical address of the active top-level page table.
    pub closed spec fn root(&self) -> u64 {
        self.level_4_table
    }

    /// The handoff with the memory map `memory_regions`, the window onto
    /// physical memory at `physical_memory_offset`, and the active top-level
    /// page table at the physical address `level_4_table`.
    pub fn new(
        memory_regions: Vec<MemoryRegion>,
        physical_memory_offset: Option<u64>,
        level_4_table: u64,
    ) -> (info: BootInfo)
        ensures
            info.regions() == memory_regions@,
            info.offset() == physical_memory_offset,
            info.root() == level_4_table,
    {
        BootInfo { memory_regions, physical_memory_offset, level_4_table }
    }
}

/// Why the memory subsystem could not be set up.
#[derive(Clone, Copy, Debug, PartialEq, Eq, Structural)]
pub enum MemoryInitError {
    /// The boot loader did not map physical memory.
    NoPhysicalMemoryOffset,
    /// The address given for the top-level page table is not the start of a
    /// frame.
    MisalignedRootTable,
}

/// Sets up the memory subsystem from the boot handoff: a mapper for the
/// active page-table hierarchy, and a frame allocator over every whole frame
/// of the usable regions, none of which has been handed out.
pub fn init(boot_info: BootInfo) -> (result: Result<(Mapper, FrameAllocator), MemoryInitError>)
    ensures
        match result {
            Ok((mapper, allocator)) => {
                &&& boot_info.offset() is Some
                &&& boot_info.root() % 4096 == 0
                &&& mapper.wf()
                &&& mapper@ == PageTables::empty()
                &&& mapper.root().addr() == boot_info.root()
                &&& mapper.offset() == boot_info.offset()->0
                &&& allocator.wf()
                &&& allocator.regions() == boot_info.regions()
                &&& allocator.next() == 0
            },
            Err(MemoryInitError::NoPhysicalMemoryOffset) => boot_info.offset() is None,
            Err(MemoryInitError::MisalignedRootTable) => boot_info.offset() is Some
                && boot_info.root() % 4096 != 0,
        },
{
    let offset: u64 = match boot_info.physical_memory_offset {
        Some(offset) => offset,
        None => {
            return Err(MemoryInitError::NoPhysicalMemoryOffset);
        },
    };
    let root: PhysFrame = match PhysFrame::from_start_address(boot_info.level_4_table) {
        Some(root) => root,
        None => {
            return Err(MemoryInitError::MisalignedRootTable);
        },
    };
    let mapper = Mapper::new(root, offset);
    let allocator = FrameAllocator::new(boot_info.memory_regions);
    Ok((mapper, allocator))
}

/// The rights with which device registers are mapped: writable, and never
/// cached.
pub open spec fn device_flags() -> PageFlags {
    PageFlags {
        writable: true,
        user_accessible: false,
        write_through: false,
        no_cache: true,
        no_execute: false,
    }
}

/// Why a physical address could not be made reachable.
#[derive(Clone, Copy, Debug, PartialEq, Eq, Structural)]
pub enum MapPhysicalError {
    /// The virtual address is not canonical.
    NonCanonical(u64),
    /// The mapper refused the page.
    Mapper(MapError),
}

/// What [`map_physical_to_virtual`] does to a hierarchy and to the frame
/// allocator's position `next` in `frames`, and what it returns, with the
/// page named by its start address.
pub open spec fn map_physical_step(
    tables: PageTables,
    frames: Seq<u64>,
    next: nat,
    physical: u64,
    virtual_address: u64,
) -> (PageTables, nat, Result<u64, MapPhysicalError>) {
    if !is_canonical(virtual_address) {
        (tables, next, Err(MapPhysicalError::NonCanonical(virtual_address)))
    } else {
        let page = (virtual_address - virtual_address % 4096) as u64;
        let frame = PhysFrame::containing(physical);
        let (mapped, position, outcome) = map_step(
            tables,
            frames,
            next,
            page,
            frame,
            device_flags(),
        );
        match outcome {
            Ok(()) => (
                mapped.with_mapping(page, Mapping { frame, flags: device_flags(), flushed: true }),
                position,
                Ok(page),
            ),
            Err(e) => (mapped, position, Err(MapPhysicalError::Mapper(e))),
        }
    }
}

/// Makes the frame that holds the physical address `physical` reachable at
/// the page that holds the virtual address `virtual_address`, with
/// [`device_flags`], and flushes the page.
///
/// Fails if the virtual address is not canonical, and then changes nothing;
/// fails where [`Mapper::map`] fails, with its error and its effect.
pub fn map_physical_to_virtual(
    mapper: &mut Mapper,
    allocator: &mut FrameAllocator,
    physical: u64,
    virtual_address: u64,
) -> (result: Result<Page, MapPhysicalError>)
    requires
        old(mapper).wf(),
        old(allocator).wf(),
    ensures
        final(mapper).wf(),
        final(mapper).root() == old(mapper).root(),
        final(mapper).offset() == old(mapper).offset(),
        final(allocator).wf(),
        final(allocator).regions() == old(allocator).regions(),
        ({
            let (tables, next, outcome) = map_physical_step(
                old(mapper)@,
                old(allocator).frames(),
                old(allocator).next(),
                physical,
                virtual_address,
            );
            &&& final(mapper)@ == tables
            &&& final(allocator).next() == next
            &&& match result {
                Ok(page) => outcome == Ok::<u64, MapPhysicalError>(page.addr()),
                Err(e) => outcome == Err::<u64, MapPhysicalError>(e),
            }
        }),
{
    let page: Page = match Page::containing_address(virtual_address) {
        Some(page) => page,
        None => {
            return Err(MapPhysicalError::NonCanonical(virtual_address));
        },
    };
    let frame: PhysFrame = PhysFrame::containing_address(physical);
    let flags = PageFlags {
        writable: true,
        user_accessible: false,
        write_through: false,
        no_cache: true,
        no_execute: false,
    };
    match mapper.map(page, frame, flags, allocator) {
        Ok(flush) => {
            mapper.flush(flush);
            assert(mapper@ =~= map_step(
                old(mapper)@,
                old(allocator).frames(),
                old(allocator).next(),
                page.addr(),
                frame,
                flags,
            ).0.with_mapping(page.addr(), Mapping { frame, flags, flushed: true }));
            Ok(page)
        },
        Err(e) => Err(MapPhysicalError::Mapper(e)),
    }
}

} // verus!
