use iron_kernel::cpu::interrupts::{init_idt, InterruptDescriptorTable, InterruptIndex};
use iron_kernel::memory::frame_allocator::FrameAllocator;
use iron_kernel::memory::mapper::{MapError, Mapper};
use iron_kernel::memory::{MapPhysicalError, MemoryRegion, MemoryRegionKind, Page, PhysFrame};
use iron_kernel::x2apic::{
    disable_pic, finish_lapic, init, init_ioapic, init_lapic, ioapic_add_entry, Apic, ApicInitError,
    IoApic, IoApicInfo, IrqMode, IrqVector, LocalApic, LocalApicConfig, PortWrite,
    RedirectionEntry, TimerDivide, IOAPIC_LINES, TIMER_INITIAL_COUNT,
};

const OFFSET: u64 = 0x18_0000_0000;

fn memory() -> (Mapper, FrameAllocator) {
    let regions =
        vec![MemoryRegion { start: 0x10_0000, end: 0x20_0000, kind: MemoryRegionKind::Usable }];
    (Mapper::new(PhysFrame::containing_address(0x1000), OFFSET), FrameAllocator::new(regions))
}

fn platform() -> Apic {
    Apic {
        local_apic_address: 0xfee0_0000,
        io_apics: vec![
            IoApicInfo { id: 0, address: 0xfec0_0000, global_system_interrupt_base: 0 },
            IoApicInfo { id: 1, address: 0xfec1_0000, global_system_interrupt_base: 24 },
        ],
    }
}

fn lapic(id: u32) -> LocalApic {
    let config = LocalApicConfig {
        spurious_vector: 37,
        timer_vector: 32,
        error_vector: 35,
        timer_divide: TimerDivide::Div2,
        timer_initial: TIMER_INITIAL_COUNT,
        xapic_base: OFFSET + 0xfee0_0000,
    };
    finish_lapic(config, Some(id)).expect("built")
}

fn reset(line: u8) -> RedirectionEntry {
    RedirectionEntry {
        vector: 32 + line,
        mode: IrqMode::Fixed,
        dest: 0,
        level_triggered: false,
        low_active: false,
        masked: true,
    }
}

fn routed(vector: u8, dest: u8) -> RedirectionEntry {
    RedirectionEntry {
        vector,
        mode: IrqMode::Fixed,
        dest,
        level_triggered: true,
        low_active: true,
        masked: false,
    }
}

#[test]
fn irq_lines() {
    assert_eq!(IrqVector::Keyboard.as_u8(), 1);
    assert_eq!(IrqVector::Mouse.as_u8(), 12);
    assert_eq!(IOAPIC_LINES, 24);
    assert_eq!(TIMER_INITIAL_COUNT, 100_000_000);
}

#[test]
fn legacy_controllers_are_masked() {
    assert_eq!(
        disable_pic(),
        [PortWrite { port: 0xa1, value: 0xff }, PortWrite { port: 0x21, value: 0xff }]
    );
}

#[test]
fn local_apic_is_prepared() {
    let (mut mapper, mut allocator) = memory();
    let config = init_lapic(&platform(), &mut mapper, &mut allocator).expect("config");
    assert_eq!(
        config,
        LocalApicConfig {
            spurious_vector: 37,
            timer_vector: 32,
            error_vector: 35,
            timer_divide: TimerDivide::Div2,
            timer_initial: 100_000_000,
            xapic_base: 0x18_fee0_0000,
        }
    );
    let page = Page::containing_address(0x18_fee0_0000).unwrap();
    let entry = mapper.mapping(page).expect("registers are mapped");
    assert_eq!(entry.frame.start_address(), 0xfee0_0000);
    assert!(entry.flags.writable && entry.flags.no_cache);
    assert!(mapper.is_usable(page));
}

#[test]
fn init_masks_the_legacy_controllers_and_prepares_the_local_apic() {
    let (mut mapper, mut allocator) = memory();
    let (writes, config) = init(&platform(), &mut mapper, &mut allocator);
    assert_eq!(writes, disable_pic());
    assert_eq!(config.map(|c| c.xapic_base), Ok(0x18_fee0_0000));
    assert!(mapper.is_usable(Page::containing_address(0x18_fee0_0000).unwrap()));
}

#[test]
fn registers_beyond_the_address_space_are_refused() {
    let (_, mut allocator) = memory();
    let mut mapper = Mapper::new(PhysFrame::containing_address(0x1000), u64::MAX - 0x1000);
    let result = init_lapic(&platform(), &mut mapper, &mut allocator);
    assert_eq!(result.err(), Some(ApicInitError::AddressOverflow));
    assert_eq!(allocator.allocate().map(|f| f.start_address()), Some(0x10_0000));
}

#[test]
fn registers_that_cannot_be_mapped_are_fatal() {
    let (mut mapper, _) = memory();
    let mut empty = FrameAllocator::new(Vec::new());
    let result = init_lapic(&platform(), &mut mapper, &mut empty);
    assert_eq!(
        result.err(),
        Some(ApicInitError::Mapping(MapPhysicalError::Mapper(MapError::FrameAllocationFailed)))
    );
    let mut odd = Mapper::new(PhysFrame::containing_address(0x1000), 0x7fff_f000_0000);
    let (_, mut allocator) = memory();
    let result = init_lapic(&platform(), &mut odd, &mut allocator);
    assert_eq!(
        result.err(),
        Some(ApicInitError::Mapping(MapPhysicalError::NonCanonical(0x8000_eee0_0000)))
    );
}

#[test]
fn failed_build_of_the_local_apic_is_fatal() {
    let config = lapic(0).config;
    assert_eq!(finish_lapic(config, None), Err(ApicInitError::LapicBuildFailed));
    assert_eq!(finish_lapic(config, Some(3)), Ok(LocalApic { config, id: 3, enabled: true }));
}

#[test]
fn io_apic_routes_keyboard_and_mouse() {
    let (mut mapper, mut allocator) = memory();
    let idt = init_idt();
    let io_apic =
        init_ioapic(&platform(), &mut mapper, &mut allocator, &lapic(2), &idt).expect("io apic");
    assert_eq!(io_apic.base_address(), 0x18_fec0_0000);
    assert!(mapper.is_usable(Page::containing_address(0x18_fec0_0000).unwrap()));
    assert_eq!(io_apic.table_entry(1), Some(routed(33, 2)));
    assert_eq!(io_apic.table_entry(12), Some(routed(34, 2)));
    for line in 0..24u8 {
        if line != 1 && line != 12 {
            assert_eq!(io_apic.table_entry(line), Some(reset(line)));
        }
        let entry = io_apic.table_entry(line).unwrap();
        // Every line that is switched on leads to a handler.
        assert!(entry.masked || idt.is_registered(entry.vector));
    }
    assert_eq!(io_apic.table_entry(24), None);
    assert_eq!(io_apic.table_entry(255), None);
}

#[test]
fn io_apic_needs_a_description() {
    let (mut mapper, mut allocator) = memory();
    let none = Apic { local_apic_address: 0xfee0_0000, io_apics: Vec::new() };
    let result = init_ioapic(&none, &mut mapper, &mut allocator, &lapic(0), &init_idt());
    assert_eq!(result.err(), Some(ApicInitError::NoIoApic));
    assert_eq!(allocator.allocate().map(|f| f.start_address()), Some(0x10_0000));
}

#[test]
fn io_apic_never_routes_to_an_unregistered_vector() {
    let (mut mapper, mut allocator) = memory();
    let empty = InterruptDescriptorTable::new();
    let result = init_ioapic(&platform(), &mut mapper, &mut allocator, &lapic(0), &empty);
    assert_eq!(result.err(), Some(ApicInitError::UnregisteredVector(33)));
    let mut only_keyboard = InterruptDescriptorTable::new();
    only_keyboard.set_handler(33, iron_kernel::cpu::interrupts::Handler::Keyboard);
    let result = init_ioapic(&platform(), &mut mapper, &mut allocator, &lapic(0), &only_keyboard);
    assert_eq!(result.err(), Some(ApicInitError::UnregisteredVector(34)));
    // Nothing was mapped by the failed calls.
    assert!(!mapper.is_mapped(Page::containing_address(0x18_fec0_0000).unwrap()));
}

#[test]
fn io_apic_mapping_failure_is_fatal() {
    let (mut mapper, _) = memory();
    let mut empty = FrameAllocator::new(Vec::new());
    let result = init_ioapic(&platform(), &mut mapper, &mut empty, &lapic(0), &init_idt());
    assert_eq!(
        result.err(),
        Some(ApicInitError::Mapping(MapPhysicalError::Mapper(MapError::FrameAllocationFailed)))
    );
}

#[test]
fn add_entry_programs_one_line() {
    let mut io_apic = IoApic::new(0x5000, 32);
    let idt = init_idt();
    for line in 0..24u8 {
        assert_eq!(io_apic.table_entry(line), Some(reset(line)));
    }
    let result =
        ioapic_add_entry(&mut io_apic, &lapic(7), &idt, IrqVector::Mouse, InterruptIndex::Timer);
    assert_eq!(result, Ok(()));
    assert_eq!(io_apic.table_entry(12), Some(routed(32, 7)));
    assert_eq!(io_apic.table_entry(1), Some(reset(1)));
    let empty = InterruptDescriptorTable::new();
    let refused = ioapic_add_entry(
        &mut io_apic,
        &lapic(7),
        &empty,
        IrqVector::Keyboard,
        InterruptIndex::Keyboard,
    );
    assert_eq!(refused, Err(ApicInitError::UnregisteredVector(33)));
    assert_eq!(io_apic.table_entry(1), Some(reset(1)));
}

#[test]
fn destination_is_the_low_byte_of_the_apic_identity() {
    let mut io_apic = IoApic::new(0x5000, 32);
    let idt = init_idt();
    let wide = lapic(0x1_02);
    assert_eq!(
        ioapic_add_entry(&mut io_apic, &wide, &idt, IrqVector::Keyboard, InterruptIndex::Keyboard),
        Ok(())
    );
    assert_eq!(io_apic.table_entry(1).map(|e| e.dest), Some(2));
}
