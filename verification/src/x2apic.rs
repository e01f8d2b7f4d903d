//! The interrupt controllers: the legacy controller that is switched off,
//! the local APIC, and the I/O APIC with its redirection table.
//!
//! The functions here decide what the controllers are programmed with. The
//! caller does the programming, step by step: it performs the port writes
//! of [`disable_pic`], builds the local APIC from the configuration that
//! [`init_lapic`] returns, reports to [`finish_lapic`] whether that worked,
//! and programs the I/O APIC with the table that [`init_ioapic`] returns.

use vstd::prelude::*;
use crate::cpu::interrupts::{InterruptDescriptorTable, InterruptIndex, IdtEntry, VECTORS,
    IOAPIC_INTERRUPT_INDEX_OFFSET};
use crate::memory::frame_allocator::FrameAllocator;
use crate::memory::mapper::Mapper;
use crate::memory::{map_physical_step, map_physical_to_virtual, MapPhysicalError};

verus! {

/// The command port of the second legacy controller's mask register.
pub const PIC_2_DATA_PORT: u16 = 0xa1;

/// The command port of the first legacy controller's mask register.
pub const PIC_1_DATA_PORT: u16 = 0x21;

/// The number of inputs of the I/O APIC.
pub const IOAPIC_LINES: usize = 24;

/// The count from which the local APIC's timer counts down.
pub const TIMER_INITIAL_COUNT: u32 = 100_000_000;

/// The legacy interrupt lines that the kernel listens to.
#[derive(Clone, Copy, Debug, PartialEq, Eq, Structural)]
pub enum IrqVector {
    Keyboard,
    Mouse,
}

impl IrqVector {
    /// The number of the line.
    pub open spec fn line(self) -> u8 {
        match self {
            IrqVector::Keyboard => 1,
            IrqVector::Mouse => 12,
        }
    }

    /// The number of the line.
    pub fn as_u8(self) -> (line: u8)
        ensures
            line == self.line(),
            line < IOAPIC_LINES,
    {
        match self {
            IrqVector::Keyboard => 1,
            IrqVector::Mouse => 12,
        }
    }
}

/// One I/O APIC as the platform describes it.
#[derive(Clone, Copy, Debug, PartialEq, Eq, Structural)]
pub struct IoApicInfo {
    pub id: u8,
    /// The physical address of its registers.
    pub address: u32,
    /// The number of the first interrupt that it handles.
    pub global_system_interrupt_base: u32,
}

/// The platform's description of its interrupt controllers.
#[derive(Debug)]
pub struct Apic {
    /// The physical address of the local APIC's registers.
    pub local_apic_address: u64,
    pub io_apics: Vec<IoApicInfo>,
}

/// A byte to write to an I/O port.
#[derive(Clone, Copy, Debug, PartialEq, Eq, Structural)]
pub struct PortWrite {
    pub port: u16,
    pub value: u8,
}

/// By how much the local APIC's timer divides the bus clock.
#[derive(Clone, Copy, Debug, PartialEq, Eq, Structural)]
pub enum TimerDivide {
    Div1,
    Div2,
    Div4,
    Div8,
    Div16,
    Div32,
    Div64,
    Div128,
}

/// What the local APIC is built with.
#[derive(Clone, Copy, Debug, PartialEq, Eq, Structural)]
pub struct LocalApicConfig {
    pub spurious_vector: u8,
    pub timer_vector: u8,
    pub error_vector: u8,
    pub timer_divide: TimerDivide,
    pub timer_initial: u32,
    /// The virtual address of the local APIC's registers.
    pub xapic_base: u64,
}

/// The local APIC, built and enabled.
#[derive(Clone, Copy, Debug, PartialEq, Eq, Structural)]
pub struct LocalApic {
    pub config: LocalApicConfig,
    /// The identity that the hardware reports for this processor's APIC.
    pub id: u32,
    pub enabled: bool,
}

/// How the I/O APIC delivers an interrupt.
#[derive(Clone, Copy, Debug, PartialEq, Eq, Structural)]
pub enum IrqMode {
    Fixed,
    LowestPriority,
    SystemManagement,
    NonMaskable,
    Init,
    External,
}

/// One entry of the I/O APIC's redirection table: where the interrupts of
/// one line go.
#[derive(Clone, Copy, Debug, PartialEq, Eq, Structural)]
pub struct RedirectionEntry {
    /// The vector that the line raises.
    pub vector: u8,
    pub mode: IrqMode,
    /// The identity of the local APIC that gets the interrupt.
    pub dest: u8,
    pub level_triggered: bool,
    pub low_active: bool,
    /// Whether the line is switched off.
    pub masked: bool,
}

/// The I/O APIC: where its registers are, and its redirection table.
#[derive(Debug)]
pub struct IoApic {
    base: u64,
    entries: Vec<RedirectionEntry>,
}

/// Why the interrupt controllers could not be set up. Every one of these is
/// fatal: without the controllers no interrupt arrives.
#[derive(Clone, Copy, Debug, PartialEq, Eq, Structural)]
pub enum ApicInitError {
    /// The registers lie beyond the end of the address space when seen
    /// through the window onto physical memory.
    AddressOverflow,
    /// The page of the registers could not be mapped.
    Mapping(MapPhysicalError),
    /// The hardware refused to build the local APIC.
    LapicBuildFailed,
    /// The platform describes no I/O APIC.
    NoIoApic,
    /// The line has no handler bound to the vector it would raise.
    UnregisteredVector(u8),
}

/// The entry that line `line` has after the I/O APIC was reset with the
/// vector offset `offset`: switched off, and aimed at the vector `offset`
/// plus the line's number.
pub open spec fn reset_entry(offset: u8, line: int) -> RedirectionEntry {
    RedirectionEntry {
        vector: (offset + line) as u8,
        mode: IrqMode::Fixed,
        dest: 0,
        level_triggered: false,
        low_active: false,
        masked: true,
    }
}

/// The entry that the kernel programs for a line it listens to: fixed
/// delivery of `vector` to the local APIC `dest`, level triggered, active
/// low, and switched on.
pub open spec fn kernel_entry(vector: InterruptIndex, dest: u8) -> RedirectionEntry {
    RedirectionEntry {
        vector: vector.vector(),
        mode: IrqMode::Fixed,
        dest,
        level_triggered: true,
        low_active: true,
        masked: false,
    }
}

/// Whether every line of `table` that is switched on raises a vector to
/// which `idt` binds a handler.
pub open spec fn routes_to_handlers(
    table: Seq<RedirectionEntry>,
    idt: Seq<Option<IdtEntry>>,
) -> bool {
    forall|line: int|
        0 <= line < table.len() && !(#[trigger] table[line]).masked
            ==> idt[table[line].vector as int] is Some
}

impl IoApic {
    /// The redirection table, by line.
    pub closed spec fn view(&self) -> Seq<RedirectionEntry> {
        self.entries@
    }

    /// The virtual address of the registers.
    pub closed spec fn base(&self) -> u64 {
        self.base
    }

    /// The table has an entry for each line.
    pub open spec fn wf(&self) -> bool {
        self@.len() == IOAPIC_LINES
    }

    /// The I/O APIC with its registers at the virtual address `base`, reset
    /// with the vector offset `offset`: every line is switched off.
    pub fn new(base: u64, offset: u8) -> (io_apic: IoApic)
        requires
            offset + IOAPIC_LINES <= VECTORS,
        ensures
            io_apic.wf(),
            io_apic.base() == base,
            forall|line: int|
                0 <= line < IOAPIC_LINES ==> io_apic@[line] == reset_entry(offset, line),
    {
        let mut entries: Vec<RedirectionEntry> = Vec::new();
        let mut line: u8 = 0;
        while (line as usize) < IOAPIC_LINES
            invariant
                line <= IOAPIC_LINES,
                offset + IOAPIC_LINES <= VECTORS,
                entries@.len() == line,
                forall|k: int| 0 <= k < line ==> entries@[k] == reset_entry(offset, k),
            decreases IOAPIC_LINES - line,
        {
            entries.push(
                RedirectionEntry {
                    vector: offset + line,
                    mode: IrqMode::Fixed,
                    dest: 0,
                    level_triggered: false,
                    low_active: false,
                    masked: true,
                },
            );
            line = line + 1;
        }
        IoApic { base, entries }
    }

    /// The virtual address of the registers.
    pub fn base_address(&self) -> (base: u64)
        ensures
            base == self.base(),
    {
        self.base
    }

    /// The entry of `line`, if the table has such a line.
    pub fn table_entry(&self, line: u8) -> (entry: Option<RedirectionEntry>)
        requires
            self.wf(),
        ensures
            entry == if line < IOAPIC_LINES {
                Some(self@[line as int])
            } else {
                None
            },
    {
        if (line as usize) < IOAPIC_LINES {
            Some(self.entries[line as usize])
        } else {
            None
        }
    }
}

/// The port writes that switch the legacy interrupt controllers off: every
/// line of both is masked. The legacy controllers and the APIC must never
/// deliver at the same time.
pub fn disable_pic() -> (writes: [PortWrite; 2])
    ensures
        writes@.len() == 2,
        writes@[0] == (PortWrite { port: PIC_2_DATA_PORT, value: 0xff }),
        writes@[1] == (PortWrite { port: PIC_1_DATA_PORT, value: 0xff }),
{
    [
        PortWrite { port: PIC_2_DATA_PORT, value: 0xff },
        PortWrite { port: PIC_1_DATA_PORT, value: 0xff },
    ]
}

/// The configuration of the local APIC whose registers are reachable at the
/// virtual address `xapic_base`.
pub open spec fn lapic_config(xapic_base: u64) -> LocalApicConfig {
    LocalApicConfig {
        spurious_vector: InterruptIndex::ApicSpurious.vector(),
        timer_vector: InterruptIndex::Timer.vector(),
        error_vector: InterruptIndex::ApicError.vector(),
        timer_divide: TimerDivide::Div2,
        timer_initial: TIMER_INITIAL_COUNT,
        xapic_base,
    }
}

/// Starts the switch to the APIC: switches the legacy controllers off and
/// prepares the local APIC. Returns the port writes of [`disable_pic`] and
/// what [`init_lapic`] returns.
pub fn init(apic: &Apic, mapper: &mut Mapper, frame_allocator: &mut FrameAllocator) -> (result: (
    [PortWrite; 2],
    Result<LocalApicConfig, ApicInitError>,
))
    requires
        old(mapper).wf(),
        old(frame_allocator).wf(),
    ensures
        final(mapper).wf(),
        final(mapper).root() == old(mapper).root(),
        final(mapper).offset() == old(mapper).offset(),
        final(frame_allocator).wf(),
        final(frame_allocator).regions() == old(frame_allocator).regions(),
        result.0@.len() == 2,
        result.0@[0] == (PortWrite { port: PIC_2_DATA_PORT, value: 0xff }),
        result.0@[1] == (PortWrite { port: PIC_1_DATA_PORT, value: 0xff }),
        registers_mapped(
            old(mapper),
            old(frame_allocator),
            final(mapper),
            final(frame_allocator),
            apic.local_apic_address,
            match result.1 {
                Ok(config) => Ok(config.xapic_base),
                Err(e) => Err(e),
            },
        ),
        result.1 is Ok ==> result.1->Ok_0 == lapic_config(result.1->Ok_0.xapic_base),
{
    let writes: [PortWrite; 2] = disable_pic();
    let lapic: Result<LocalApicConfig, ApicInitError> = init_lapic(apic, mapper, frame_allocator);
    (writes, lapic)
}

/// Whether going from `before` to `after` is what mapping the registers at
/// the physical address `physical` through the window onto physical memory
/// does, with the outcome `outcome`: the virtual address of the registers,
/// or why they could not be mapped.
pub open spec fn registers_mapped(
    before: &Mapper,
    allocator_before: &FrameAllocator,
    after: &Mapper,
    allocator_after: &FrameAllocator,
    physical: u64,
    outcome: Result<u64, ApicInitError>,
) -> bool {
    if before.offset() + physical > u64::MAX {
        &&& outcome == Err::<u64, ApicInitError>(ApicInitError::AddressOverflow)
        &&& after@ == before@
        &&& allocator_after.next() == allocator_before.next()
    } else {
        let address = (before.offset() + physical) as u64;
        let (tables, next, mapped) = map_physical_step(
            before@,
            allocator_before.frames(),
            allocator_before.next(),
            physical,
            address,
        );
        &&& after@ == tables
        &&& allocator_after.next() == next
        &&& outcome == match mapped {
            Ok(page) => Ok::<u64, ApicInitError>(address),
            Err(e) => Err::<u64, ApicInitError>(ApicInitError::Mapping(e)),
        }
    }
}

/// Maps the registers at the physical address `physical` at the same offset
/// in the window onto physical memory, and returns their virtual address.
fn map_registers(
    mapper: &mut Mapper,
    frame_allocator: &mut FrameAllocator,
    physical: u64,
) -> (result: Result<u64, ApicInitError>)
    requires
        old(mapper).wf(),
        old(frame_allocator).wf(),
    ensures
        final(mapper).wf(),
        final(mapper).root() == old(mapper).root(),
        final(mapper).offset() == old(mapper).offset(),
        final(frame_allocator).wf(),
        final(frame_allocator).regions() == old(frame_allocator).regions(),
        registers_mapped(
            old(mapper),
            old(frame_allocator),
            final(mapper),
            final(frame_allocator),
            physical,
            result,
        ),
{
    let address: u64 = match mapper.physical_memory_offset().checked_add(physical) {
        Some(address) => address,
        None => {
            return Err(ApicInitError::AddressOverflow);
        },
    };
    match map_physical_to_virtual(mapper, frame_allocator, physical, address) {
        Ok(_) => Ok(address),
        Err(e) => Err(ApicInitError::Mapping(e)),
    }
}

/// Prepares the local APIC: maps its registers into the window onto
/// physical memory and returns what the local APIC is to be built with. The
/// timer raises the timer vector, counting down from
/// [`TIMER_INITIAL_COUNT`] at half the bus clock; spurious and error
/// interrupts raise their own vectors.
pub fn init_lapic(
    apic: &Apic,
    mapper: &mut Mapper,
    frame_allocator: &mut FrameAllocator,
) -> (result: Result<LocalApicConfig, ApicInitError>)
    requires
        old(mapper).wf(),
        old(frame_allocator).wf(),
    ensures
        final(mapper).wf(),
        final(mapper).root() == old(mapper).root(),
        final(mapper).offset() == old(mapper).offset(),
        final(frame_allocator).wf(),
        final(frame_allocator).regions() == old(frame_allocator).regions(),
        registers_mapped(
            old(mapper),
            old(frame_allocator),
            final(mapper),
            final(frame_allocator),
            apic.local_apic_address,
            match result {
                Ok(config) => Ok(config.xapic_base),
                Err(e) => Err(e),
            },
        ),
        result is Ok ==> result->Ok_0 == lapic_config(result->Ok_0.xapic_base),
{
    let apic_virt_addr: u64 = match map_registers(
        mapper,
        frame_allocator,
        apic.local_apic_address,
    ) {
        Ok(address) => address,
        Err(e) => {
            return Err(e);
        },
    };
    Ok(
        LocalApicConfig {
            spurious_vector: InterruptIndex::ApicSpurious.as_u8(),
            timer_vector: InterruptIndex::Timer.as_u8(),
            error_vector: InterruptIndex::ApicError.as_u8(),
            timer_divide: TimerDivide::Div2,
            timer_initial: TIMER_INITIAL_COUNT,
            xapic_base: apic_virt_addr,
        },
    )
}

/// Takes note of how the building of the local APIC went. `built` is the
/// identity that the hardware reports for the local APIC, or nothing if the
/// hardware refused the configuration. A local APIC that was built is
/// enabled; one that was not is fatal.
pub fn finish_lapic(config: LocalApicConfig, built: Option<u32>) -> (result: Result<
    LocalApic,
    ApicInitError,
>)
    ensures
        result == match built {
            Some(id) => Ok::<LocalApic, ApicInitError>(LocalApic { config, id, enabled: true }),
            None => Err::<LocalApic, ApicInitError>(ApicInitError::LapicBuildFailed),
        },
{
    match built {
        Some(id) => Ok(LocalApic { config, id, enabled: true }),
        None => Err(ApicInitError::LapicBuildFailed),
    }
}

/// The redirection table after the lines of the keyboard and of the mouse
/// were programmed on a table that was reset with the vector offset
/// `offset`, for the local APIC `dest`.
pub open spec fn kernel_table(offset: u8, dest: u8) -> Seq<RedirectionEntry> {
    Seq::new(
        IOAPIC_LINES as nat,
        |line: int|
            if line == IrqVector::Keyboard.line() {
                kernel_entry(InterruptIndex::Keyboard, dest)
            } else if line == IrqVector::Mouse.line() {
                kernel_entry(InterruptIndex::Mouse, dest)
            } else {
                reset_entry(offset, line)
            },
    )
}

/// Sets up the I/O APIC: maps the registers of the platform's first I/O
/// APIC into the window onto physical memory, resets its redirection table
/// with the vector offset [`IOAPIC_INTERRUPT_INDEX_OFFSET`], and programs
/// the lines of the keyboard and of the mouse to raise their vectors at
/// `lapic`.
///
/// Fails, before anything is mapped, if the platform describes no I/O APIC
/// or if `idt` binds no handler to one of the two vectors.
pub fn init_ioapic(
    apic: &Apic,
    mapper: &mut Mapper,
    frame_allocator: &mut FrameAllocator,
    lapic: &LocalApic,
    idt: &InterruptDescriptorTable,
) -> (result: Result<IoApic, ApicInitError>)
    requires
        old(mapper).wf(),
        old(frame_allocator).wf(),
        idt.wf(),
    ensures
        final(mapper).wf(),
        final(mapper).root() == old(mapper).root(),
        final(mapper).offset() == old(mapper).offset(),
        final(frame_allocator).wf(),
        final(frame_allocator).regions() == old(frame_allocator).regions(),
        ({
            let unchanged = final(mapper)@ == old(mapper)@ && final(frame_allocator).next() == old(
                frame_allocator,
            ).next();
            if apic.io_apics@.len() == 0 {
                result == Err::<IoApic, ApicInitError>(ApicInitError::NoIoApic) && unchanged
            } else if idt@[InterruptIndex::Keyboard.vector() as int] is None {
                result == Err::<IoApic, ApicInitError>(
                    ApicInitError::UnregisteredVector(InterruptIndex::Keyboard.vector()),
                ) && unchanged
            } else if idt@[InterruptIndex::Mouse.vector() as int] is None {
                result == Err::<IoApic, ApicInitError>(
                    ApicInitError::UnregisteredVector(InterruptIndex::Mouse.vector()),
                ) && unchanged
            } else {
                &&& registers_mapped(
                    old(mapper),
                    old(frame_allocator),
                    final(mapper),
                    final(frame_allocator),
                    apic.io_apics@[0].address as u64,
                    match result {
                        Ok(io_apic) => Ok(io_apic.base()),
                        Err(e) => Err(e),
                    },
                )
                &&& result is Ok ==> {
                    &&& result->Ok_0.wf()
                    &&& result->Ok_0@ == kernel_table(
                        IOAPIC_INTERRUPT_INDEX_OFFSET,
                        lapic.id as u8,
                    )
                    &&& routes_to_handlers(result->Ok_0@, idt@)
                }
            }
        }),
{
    if apic.io_apics.len() == 0 {
        return Err(ApicInitError::NoIoApic);
    }
    if !idt.is_registered(InterruptIndex::Keyboard.as_u8()) {
        return Err(ApicInitError::UnregisteredVector(InterruptIndex::Keyboard.as_u8()));
    }
    if !idt.is_registered(InterruptIndex::Mouse.as_u8()) {
        return Err(ApicInitError::UnregisteredVector(InterruptIndex::Mouse.as_u8()));
    }
    let physical_address: u64 = apic.io_apics[0].address as u64;
    let virtual_address: u64 = match map_registers(mapper, frame_allocator, physical_address) {
        Ok(address) => address,
        Err(e) => {
            return Err(e);
        },
    };
    let mut io_apic = IoApic::new(virtual_address, IOAPIC_INTERRUPT_INDEX_OFFSET);
    let keyboard = InterruptIndex::Keyboard;
    let mouse = InterruptIndex::Mouse;
    ioapic_add_entry(&mut io_apic, lapic, idt, IrqVector::Keyboard, keyboard).unwrap();
    ioapic_add_entry(&mut io_apic, lapic, idt, IrqVector::Mouse, mouse).unwrap();
    assert(io_apic@ =~= kernel_table(IOAPIC_INTERRUPT_INDEX_OFFSET, lapic.id as u8));
    Ok(io_apic)
}

/// Programs the line `irq` of the I/O APIC to raise `vector` at `lapic`:
/// fixed delivery, level triggered, active low. The entry is written
/// switched off and is then switched on.
///
/// Fails, and changes nothing, if `idt` binds no handler to `vector`: a
/// line must never raise a vector that nothing handles.
pub fn ioapic_add_entry(
    io_apic: &mut IoApic,
    lapic: &LocalApic,
    idt: &InterruptDescriptorTable,
    irq: IrqVector,
    vector: InterruptIndex,
) -> (result: Result<(), ApicInitError>)
    requires
        old(io_apic).wf(),
        idt.wf(),
    ensures
        final(io_apic).wf(),
        final(io_apic).base() == old(io_apic).base(),
        idt@[vector.vector() as int] is Some ==> {
            &&& result is Ok
            &&& final(io_apic)@ == old(io_apic)@.update(
                irq.line() as int,
                kernel_entry(vector, lapic.id as u8),
            )
            &&& routes_to_handlers(old(io_apic)@, idt@) ==> routes_to_handlers(
                final(io_apic)@,
                idt@,
            )
        },
        idt@[vector.vector() as int] is None ==> {
            &&& result == Err::<(), ApicInitError>(
                ApicInitError::UnregisteredVector(vector.vector()),
            )
            &&& final(io_apic)@ == old(io_apic)@
        },
{
    if !idt.is_registered(vector.as_u8()) {
        return Err(ApicInitError::UnregisteredVector(vector.as_u8()));
    }
    let line: usize = irq.as_u8() as usize;
    let entry = RedirectionEntry {
        vector: vector.as_u8(),
        mode: IrqMode::Fixed,
        dest: lapic.id as u8,
        level_triggered: true,
        low_active: true,
        masked: true,
    };
    io_apic.entries[line] = entry;
    io_apic.entries[line] = RedirectionEntry { masked: false, ..entry };
    Ok(())
}

} // verus!
