use iron_kernel::cpu::gdt::{
    init_gdt, Descriptor, GdtError, SegmentSelector, DOUBLE_FAULT_IST_INDEX,
    DOUBLE_FAULT_STACK_SIZE, KERNEL_CODE_SELECTOR, TSS_SELECTOR,
};
use iron_kernel::cpu::interrupts::{
    breakpoint_handler, double_fault_handler, general_fault_handler, init_idt,
    keyboard_interrupt_handler, lapic_error, mouse_interrupt, page_fault_handler,
    spurious_interrupt, syscall_handler, timer_interrupt_handler, Diagnostic, Handler, IdtEntry,
    InterruptDescriptorTable, InterruptIndex, InterruptStackFrame, LogEntry, Outcome,
    PageFaultErrorCode, Severity, TimerSlot, TimerSlotError, IOAPIC_INTERRUPT_INDEX_OFFSET,
    PIC_1_OFFSET,
};
use iron_kernel::cpu::{init, DeliveryError, DescriptorTables, HandlerStack, InterruptInput};
use iron_kernel::keyboard::{KeypressPrinter, ScancodeQueue, KEYBOARD_DATA_PORT};
use iron_kernel::task::executor::Executor;
use iron_kernel::task::{TaskId, Waker};

const STACK: u64 = 0x20_0000;

fn frame() -> InterruptStackFrame {
    InterruptStackFrame {
        instruction_pointer: 0xffff_8000_0010_0000,
        code_segment: 8,
        cpu_flags: 0x202,
        stack_pointer: 0xffff_8000_0020_0000,
        stack_segment: 0,
    }
}

fn input(scancode: u8) -> InterruptInput {
    InterruptInput { stack_frame: frame(), error_code: 3, accessed_address: 0xdead_b000, scancode }
}

fn tables() -> DescriptorTables {
    init(STACK).expect("tables")
}

#[test]
fn interrupt_index_vectors() {
    assert_eq!(PIC_1_OFFSET, 32);
    assert_eq!(IOAPIC_INTERRUPT_INDEX_OFFSET, 32);
    assert_eq!(KEYBOARD_DATA_PORT, 0x60);
    assert_eq!(InterruptIndex::Timer.as_u8(), 32);
    assert_eq!(InterruptIndex::Keyboard.as_u8(), 33);
    assert_eq!(InterruptIndex::Mouse.as_u8(), 34);
    assert_eq!(InterruptIndex::ApicError.as_u8(), 35);
    assert_eq!(InterruptIndex::Syscall.as_u8(), 36);
    assert_eq!(InterruptIndex::ApicSpurious.as_u8(), 37);
    assert_eq!(InterruptIndex::Timer.as_usize(), 32);
    assert_eq!(InterruptIndex::ApicSpurious.as_usize(), 37);
}

#[test]
fn segment_table_holds_code_and_task_state() {
    let gdt = init_gdt(STACK).expect("segment table");
    assert_eq!(gdt.code_selector(), SegmentSelector(KERNEL_CODE_SELECTOR));
    assert_eq!(gdt.tss_selector(), SegmentSelector(TSS_SELECTOR));
    assert_eq!(KERNEL_CODE_SELECTOR, 8);
    assert_eq!(TSS_SELECTOR, 16);
    assert_ne!(Descriptor::KernelCode, Descriptor::TaskState);
    assert_eq!(DOUBLE_FAULT_STACK_SIZE, 20480);
    assert_eq!(gdt.interrupt_stack(DOUBLE_FAULT_IST_INDEX), Some(STACK + 20480));
    for index in 1..10 {
        assert_eq!(gdt.interrupt_stack(index), None);
    }
}

#[test]
fn segment_table_wants_a_canonical_stack() {
    assert_eq!(init_gdt(0x0000_8000_0000_0000).err(), Some(GdtError::BadStack));
    assert_eq!(init_gdt(0x0000_7fff_ffff_f000).err(), Some(GdtError::BadStack));
    assert_eq!(init_gdt(u64::MAX - 100).err(), Some(GdtError::BadStack));
    assert!(init_gdt(0xffff_8000_0000_0000).is_ok());
    assert!(init_gdt(0).is_ok());
    assert_eq!(init(u64::MAX).err(), Some(GdtError::BadStack));
}

#[test]
fn interrupt_table_binds_the_kernel_handlers() {
    let idt = init_idt();
    let plain = |handler| Some(IdtEntry { handler, stack_index: None });
    assert_eq!(idt.entry(3), plain(Handler::Breakpoint));
    assert_eq!(idt.entry(13), plain(Handler::GeneralProtectionFault));
    assert_eq!(idt.entry(14), plain(Handler::PageFault));
    assert_eq!(
        idt.entry(8),
        Some(IdtEntry { handler: Handler::DoubleFault, stack_index: Some(DOUBLE_FAULT_IST_INDEX) })
    );
    assert_eq!(idt.entry(32), plain(Handler::Timer));
    assert_eq!(idt.entry(33), plain(Handler::Keyboard));
    assert_eq!(idt.entry(34), plain(Handler::Mouse));
    assert_eq!(idt.entry(35), plain(Handler::ApicError));
    assert_eq!(idt.entry(36), plain(Handler::Syscall));
    assert_eq!(idt.entry(37), plain(Handler::ApicSpurious));
    let bound = [3u8, 8, 13, 14, 32, 33, 34, 35, 36, 37];
    for vector in 0..=255u8 {
        assert_eq!(idt.is_registered(vector), bound.contains(&vector));
        assert_eq!(idt.entry(vector).is_some(), bound.contains(&vector));
    }
}

#[test]
fn empty_interrupt_table_binds_nothing() {
    let mut idt = InterruptDescriptorTable::new();
    for vector in 0..=255u8 {
        assert!(!idt.is_registered(vector));
    }
    idt.set_stack_index(9, 2);
    assert_eq!(idt.entry(9), None);
    idt.set_handler(255, Handler::Mouse);
    assert_eq!(idt.entry(255), Some(IdtEntry { handler: Handler::Mouse, stack_index: None }));
    idt.set_stack_index(255, 2);
    assert_eq!(idt.entry(255), Some(IdtEntry { handler: Handler::Mouse, stack_index: Some(2) }));
    idt.set_handler(255, Handler::Timer);
    assert_eq!(idt.entry(255), Some(IdtEntry { handler: Handler::Timer, stack_index: None }));
}

#[test]
fn unregistered_vector_is_fatal() {
    let tables = tables();
    let timer = TimerSlot::new();
    let mut keyboard = ScancodeQueue::new();
    for vector in [0u8, 1, 2, 4, 7, 9, 31, 38, 100, 255] {
        let result = tables.deliver(vector, input(0x1e), &timer, &mut keyboard);
        assert_eq!(result.err(), Some(DeliveryError::UnregisteredVector(vector)));
    }
    assert_eq!(keyboard.len(), 0);
}

#[test]
fn handler_without_its_stack_is_fatal() {
    let gdt = init_gdt(STACK).unwrap();
    let mut idt = init_idt();
    idt.set_stack_index(3, 4);
    let tables = DescriptorTables::new(gdt, idt);
    let timer = TimerSlot::new();
    let mut keyboard = ScancodeQueue::new();
    let result = tables.deliver(3, input(0), &timer, &mut keyboard);
    assert_eq!(result.err(), Some(DeliveryError::MissingStack(3)));
    let gdt = init_gdt(STACK).unwrap();
    let mut idt = init_idt();
    idt.set_stack_index(3, 7);
    let tables = DescriptorTables::new(gdt, idt);
    let result = tables.deliver(3, input(0), &timer, &mut keyboard);
    assert_eq!(result.err(), Some(DeliveryError::MissingStack(3)));
}

#[test]
fn double_fault_runs_on_its_own_stack_and_halts() {
    let tables = tables();
    let timer = TimerSlot::new();
    let mut keyboard = ScancodeQueue::new();
    let delivery = tables.deliver(8, input(0), &timer, &mut keyboard).expect("registered");
    assert_eq!(delivery.stack, HandlerStack::Dedicated(STACK + DOUBLE_FAULT_STACK_SIZE));
    assert_ne!(delivery.stack, HandlerStack::Interrupted);
    assert_eq!(delivery.response.handler, Handler::DoubleFault);
    assert_eq!(delivery.response.outcome, Outcome::Halt);
    assert!(!delivery.response.end_of_interrupt);
    assert_eq!(
        delivery.response.log,
        Some(LogEntry {
            severity: Severity::Error,
            diagnostic: Diagnostic::DoubleFault { frame: frame(), error_code: 3 },
        })
    );
}

#[test]
fn every_other_handler_runs_on_the_interrupted_stack() {
    let tables = tables();
    let timer = TimerSlot::new();
    let mut keyboard = ScancodeQueue::new();
    for vector in [3u8, 13, 14, 32, 33, 34, 35, 36, 37] {
        let delivery = tables.deliver(vector, input(1), &timer, &mut keyboard).unwrap();
        assert_eq!(delivery.stack, HandlerStack::Interrupted);
    }
}

#[test]
fn every_apic_interrupt_is_acknowledged_exactly_once() {
    let tables = tables();
    let timer = TimerSlot::new();
    let mut keyboard = ScancodeQueue::new();
    let mut acknowledged = 0;
    let mut delivered = 0;
    let handlers = [
        (32u8, Handler::Timer),
        (33, Handler::Keyboard),
        (34, Handler::Mouse),
        (35, Handler::ApicError),
        (36, Handler::Syscall),
        (37, Handler::ApicSpurious),
    ];
    for round in 0..3 {
        for (vector, handler) in handlers {
            let delivery = tables.deliver(vector, input(round), &timer, &mut keyboard).unwrap();
            delivered += 1;
            assert_eq!(delivery.response.handler, handler);
            assert_eq!(delivery.response.outcome, Outcome::Return);
            if delivery.response.end_of_interrupt {
                acknowledged += 1;
            }
        }
    }
    assert_eq!(delivered, 18);
    assert_eq!(acknowledged, delivered);
}

#[test]
fn exceptions_are_not_acknowledged() {
    let tables = tables();
    let timer = TimerSlot::new();
    let mut keyboard = ScancodeQueue::new();
    for (vector, handler, outcome) in [
        (3u8, Handler::Breakpoint, Outcome::Return),
        (8, Handler::DoubleFault, Outcome::Halt),
        (13, Handler::GeneralProtectionFault, Outcome::Return),
        (14, Handler::PageFault, Outcome::Halt),
    ] {
        let delivery = tables.deliver(vector, input(0), &timer, &mut keyboard).unwrap();
        assert_eq!(delivery.response.handler, handler);
        assert_eq!(delivery.response.outcome, outcome);
        assert!(!delivery.response.end_of_interrupt);
        assert!(delivery.response.log.is_some());
        assert!(!delivery.response.invoke_timer_callback);
        assert_eq!(delivery.response.wake, None);
    }
}

#[test]
fn breakpoint_is_reported_and_execution_goes_on() {
    let response = breakpoint_handler(frame());
    assert_eq!(response.handler, Handler::Breakpoint);
    assert_eq!(
        response.log,
        Some(LogEntry {
            severity: Severity::Print,
            diagnostic: Diagnostic::Breakpoint { frame: frame() }
        })
    );
    assert_eq!(response.outcome, Outcome::Return);
    assert!(!response.end_of_interrupt);
}

#[test]
fn general_protection_fault_is_logged_as_error() {
    let response = general_fault_handler(frame(), 0x10);
    assert_eq!(
        response.log,
        Some(LogEntry {
            severity: Severity::Error,
            diagnostic: Diagnostic::GeneralProtectionFault { frame: frame(), error_code: 0x10 },
        })
    );
    assert_eq!(response.outcome, Outcome::Return);
    assert!(!response.end_of_interrupt);
}

#[test]
fn double_fault_handler_halts() {
    let response = double_fault_handler(frame(), 0);
    assert_eq!(response.outcome, Outcome::Halt);
    assert_eq!(
        response.log,
        Some(LogEntry {
            severity: Severity::Error,
            diagnostic: Diagnostic::DoubleFault { frame: frame(), error_code: 0 },
        })
    );
}

#[test]
fn page_fault_reports_address_and_cause_and_halts() {
    let cause = PageFaultErrorCode { bits: 0b10011 };
    let response = page_fault_handler(frame(), cause, 0xdead_beef);
    assert_eq!(response.handler, Handler::PageFault);
    assert_eq!(response.outcome, Outcome::Halt);
    assert!(!response.end_of_interrupt);
    assert_eq!(
        response.log,
        Some(LogEntry {
            severity: Severity::Print,
            diagnostic: Diagnostic::PageFault {
                frame: frame(),
                accessed_address: 0xdead_beef,
                cause,
            },
        })
    );
    assert!(cause.protection_violation());
    assert!(cause.caused_by_write());
    assert!(!cause.user_mode());
    assert!(!cause.malformed_table());
    assert!(cause.instruction_fetch());
    let none = PageFaultErrorCode { bits: 0 };
    assert!(!none.protection_violation() && !none.caused_by_write() && !none.instruction_fetch());
    let rest = PageFaultErrorCode { bits: 0b01100 };
    assert!(rest.user_mode() && rest.malformed_table());
}

#[test]
fn timer_tick_without_callback_is_still_acknowledged() {
    let timer = TimerSlot::new();
    assert!(!timer.is_installed());
    let response = timer_interrupt_handler(&timer);
    assert_eq!(response.handler, Handler::Timer);
    assert!(!response.invoke_timer_callback);
    assert!(response.end_of_interrupt);
    assert_eq!(response.outcome, Outcome::Return);
    assert_eq!(response.log, None);
}

#[test]
fn timer_tick_calls_the_installed_callback() {
    let mut timer = TimerSlot::new();
    assert_eq!(timer.install(), Ok(()));
    assert!(timer.is_installed());
    let response = timer_interrupt_handler(&timer);
    assert!(response.invoke_timer_callback);
    assert!(response.end_of_interrupt);
}

#[test]
fn timer_callback_is_installed_once() {
    let mut timer = TimerSlot::new();
    assert_eq!(timer.install(), Ok(()));
    assert_eq!(timer.install(), Err(TimerSlotError::AlreadyInstalled));
    assert!(timer.is_installed());
}

#[test]
fn acknowledge_only_handlers() {
    let mouse = mouse_interrupt();
    assert_eq!(mouse.handler, Handler::Mouse);
    assert_eq!(mouse.log, None);
    let syscall = syscall_handler();
    assert_eq!(
        syscall.log,
        Some(LogEntry { severity: Severity::Debug, diagnostic: Diagnostic::Syscall })
    );
    let spurious = spurious_interrupt();
    assert_eq!(
        spurious.log,
        Some(LogEntry { severity: Severity::Debug, diagnostic: Diagnostic::SpuriousInterrupt })
    );
    let error = lapic_error();
    assert_eq!(
        error.log,
        Some(LogEntry { severity: Severity::Print, diagnostic: Diagnostic::ApicError })
    );
    for response in [mouse, syscall, spurious, error] {
        assert!(response.end_of_interrupt);
        assert_eq!(response.outcome, Outcome::Return);
        assert!(!response.invoke_timer_callback);
        assert_eq!(response.wake, None);
    }
}

#[test]
fn keyboard_handler_queues_and_acknowledges() {
    let mut keyboard = ScancodeQueue::new();
    let response = keyboard_interrupt_handler(0x1e, &mut keyboard);
    assert_eq!(response.handler, Handler::Keyboard);
    assert!(response.end_of_interrupt);
    assert_eq!(response.wake, None);
    assert_eq!(response.log, None);
    assert_eq!(keyboard.len(), 1);
    assert_eq!(keyboard.next_scancode(Waker { task: TaskId(9) }), Some(0x1e));
}

#[test]
fn keyboard_handler_wakes_the_waiting_task() {
    let mut keyboard = ScancodeQueue::new();
    let waker = Waker { task: TaskId(4) };
    assert_eq!(keyboard.next_scancode(waker), None);
    let response = keyboard_interrupt_handler(0x30, &mut keyboard);
    assert_eq!(response.wake, Some(waker));
    assert!(response.end_of_interrupt);
    // The waker is used up: the next scancode wakes nobody.
    let response = keyboard_interrupt_handler(0x31, &mut keyboard);
    assert_eq!(response.wake, None);
    assert!(response.end_of_interrupt);
}

#[test]
fn keyboard_handler_acknowledges_even_when_the_queue_is_full() {
    let mut keyboard = ScancodeQueue::with_capacity(2);
    assert_eq!(keyboard.next_scancode(Waker { task: TaskId(1) }), None);
    assert!(keyboard_interrupt_handler(1, &mut keyboard).wake.is_some());
    assert_eq!(keyboard.next_scancode(Waker { task: TaskId(1) }), Some(1));
    assert_eq!(keyboard.next_scancode(Waker { task: TaskId(1) }), None);
    assert!(keyboard_interrupt_handler(2, &mut keyboard).end_of_interrupt);
    assert!(keyboard_interrupt_handler(3, &mut keyboard).end_of_interrupt);
    let response = keyboard_interrupt_handler(4, &mut keyboard);
    assert!(response.end_of_interrupt);
    assert_eq!(response.wake, None);
    assert_eq!(keyboard.len(), 2);
    assert_eq!(keyboard.dropped_count(), 1);
}

#[test]
fn keypresses_reach_the_task_in_order() {
    let tables = tables();
    let timer = TimerSlot::new();
    let mut keyboard = ScancodeQueue::new();
    let mut executor: Executor<KeypressPrinter> = Executor::new();
    let id = executor.spawn(KeypressPrinter::new()).expect("room");
    // The first poll finds nothing and leaves the waker in the queue.
    assert_eq!(executor.run_ready_tasks(&mut keyboard), vec![id]);
    assert_eq!(executor.ready_count(), 0);
    let mut acknowledged = 0;
    for scancode in [0x1eu8, 0x30, 0x2e] {
        let delivery = tables.deliver(33, input(scancode), &timer, &mut keyboard).unwrap();
        if delivery.response.end_of_interrupt {
            acknowledged += 1;
        }
        if let Some(waker) = delivery.response.wake {
            executor.wake(waker);
        }
    }
    assert_eq!(acknowledged, 3);
    assert_eq!(executor.ready_count(), 1);
    assert_eq!(keyboard.len(), 3);
    assert_eq!(executor.run_ready_tasks(&mut keyboard), vec![id]);
    assert_eq!(keyboard.len(), 0);
    // The task never ends: it waits for the next key.
    assert!(executor.contains(id));
    assert!(executor.take_next().is_none());
}

#[test]
fn keypress_printer_shows_what_was_typed() {
    let mut keyboard = ScancodeQueue::new();
    let mut task = KeypressPrinter::new();
    let waker = Waker { task: TaskId(0) };
    for scancode in [0x1eu8, 0x30, 0x2e] {
        let _ = keyboard_interrupt_handler(scancode, &mut keyboard);
    }
    let _ = task.resume(&mut keyboard, waker);
    assert_eq!(task.take_output(), vec![0x1e, 0x30, 0x2e]);
    assert_eq!(task.take_output(), Vec::<u8>::new());
    let response = keyboard_interrupt_handler(0x10, &mut keyboard);
    assert_eq!(response.wake, Some(waker));
    let _ = task.resume(&mut keyboard, waker);
    assert_eq!(task.take_output(), vec![0x10]);
}
