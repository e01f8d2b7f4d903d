//! The processor's tables: segments and interrupts, and the delivery of an
//! interrupt through them.

use vstd::prelude::*;
use crate::arch::is_canonical;
use crate::cpu::gdt::{init_gdt, GdtError, SegmentTables, DOUBLE_FAULT_STACK_SIZE, IST_SLOTS};
use crate::cpu::interrupts::{
    boot_table, breakpoint_handler, double_fault_handler, general_fault_handler, init_idt,
    keyboard_interrupt_handler, lapic_error, mouse_interrupt, page_fault_handler,
    spurious_interrupt, syscall_handler, timer_interrupt_handler, Diagnostic, Handler, IdtEntry,
    response_of, InterruptDescriptorTable, InterruptStackFrame, LogEntry, PageFaultErrorCode,
    Response, Severity, TimerSlot, DOUBLE_FAULT_VECTOR, VECTORS,
};
use crate::keyboard::ScancodeQueue;
use crate::queue::pushed;
use crate::task::Waker;

pub mod gdt;
pub mod interrupts;

verus! {

/// The two tables that the processor is loaded with, once, before interrupts
/// are enabled. They do not change afterwards.
#[derive(Debug)]
pub struct DescriptorTables {
    gdt: SegmentTables,
    idt: InterruptDescriptorTable,
}

/// The stack that a handler runs on.
#[derive(Clone, Copy, Debug, PartialEq, Eq, Structural)]
pub enum HandlerStack {
    /// The stack of the interrupted code.
    Interrupted,
    /// A stack of its own, of which this is the address just above the top.
    Dedicated(u64),
}

/// Why an interrupt could not be delivered. Either is fatal: the kernel
/// reports it and halts.
#[derive(Clone, Copy, Debug, PartialEq, Eq, Structural)]
pub enum DeliveryError {
    /// No handler is bound to the vector.
    UnregisteredVector(u8),
    /// The entry of the vector names a slot of the interrupt stack table
    /// that holds no stack.
    MissingStack(u8),
}

/// What the hardware hands to a handler, as far as any handler reads it.
#[derive(Clone, Copy, Debug, PartialEq, Eq, Structural)]
pub struct InterruptInput {
    /// What the processor pushed when it took the interrupt.
    pub stack_frame: InterruptStackFrame,
    /// The error code of the exception, where it has one.
    pub error_code: u64,
    /// The address whose access caused a page fault.
    pub accessed_address: u64,
    /// The byte that stands in the keyboard's data port.
    pub scancode: u8,
}

/// One delivered interrupt: the stack that the handler ran on, and what the
/// handler asks for.
#[derive(Clone, Copy, Debug, PartialEq, Eq, Structural)]
pub struct Delivery {
    pub stack: HandlerStack,
    pub response: Response,
}

impl DescriptorTables {
    /// The segment table.
    pub closed spec fn segments(&self) -> SegmentTables {
        self.gdt
    }

    /// The entries of the interrupt table, by vector.
    pub closed spec fn vectors(&self) -> Seq<Option<IdtEntry>> {
        self.idt@
    }

    /// The interrupt table has an entry, bound or not, for every vector.
    pub open spec fn wf(&self) -> bool {
        self.vectors().len() == VECTORS
    }

    /// The stack on which the handler of `entry` runs, if the interrupt
    /// stack table has it.
    pub open spec fn stack_of(&self, entry: IdtEntry) -> Option<HandlerStack> {
        match entry.stack_index {
            None => Some(HandlerStack::Interrupted),
            Some(index) => if index < IST_SLOTS && self.segments().stacks()[index as int] != 0 {
                Some(HandlerStack::Dedicated(self.segments().stacks()[index as int]))
            } else {
                None
            },
        }
    }

    /// The pair of the segment table `gdt` and the interrupt table `idt`.
    pub fn new(gdt: SegmentTables, idt: InterruptDescriptorTable) -> (tables: DescriptorTables)
        requires
            idt.wf(),
        ensures
            tables.wf(),
            tables.segments() == gdt,
            tables.vectors() == idt@,
    {
        DescriptorTables { gdt, idt }
    }

    /// The segment table.
    pub fn gdt(&self) -> (gdt: &SegmentTables)
        ensures
            *gdt == self.segments(),
    {
        &self.gdt
    }

    /// The interrupt table.
    pub fn idt(&self) -> (idt: &InterruptDescriptorTable)
        ensures
            idt@ == self.vectors(),
    {
        &self.idt
    }

    /// Delivers the interrupt `vector` as the processor does: looks the
    /// vector up in the interrupt table, switches to the handler's stack, and
    /// runs the one handler that is bound to the vector.
    ///
    /// A vector without a handler is refused and nothing changes. For a
    /// vector that came through the APIC the response asks for exactly one
    /// end-of-interrupt, and for an exception of the processor for none.
    pub fn deliver(
        &self,
        vector: u8,
        input: InterruptInput,
        timer: &TimerSlot,
        keyboard: &mut ScancodeQueue,
    ) -> (result: Result<Delivery, DeliveryError>)
        requires
            self.wf(),
        ensures
            final(keyboard).capacity() == old(keyboard).capacity(),
            match self.vectors()[vector as int] {
                None => {
                    &&& result == Err::<Delivery, DeliveryError>(
                        DeliveryError::UnregisteredVector(vector),
                    )
                    &&& *final(keyboard) == *old(keyboard)
                },
                Some(entry) => match self.stack_of(entry) {
                    None => {
                        &&& result == Err::<Delivery, DeliveryError>(
                            DeliveryError::MissingStack(vector),
                        )
                        &&& *final(keyboard) == *old(keyboard)
                    },
                    Some(stack) => {
                        &&& result is Ok
                        &&& result->Ok_0.stack == stack
                        &&& result->Ok_0.response == handler_response(
                            entry.handler,
                            input,
                            timer.installed(),
                            old(keyboard).waiting(),
                            old(keyboard)@.len() < old(keyboard).capacity(),
                        )
                        &&& entry.handler != Handler::Keyboard ==> *final(keyboard) == *old(
                            keyboard,
                        )
                        &&& entry.handler == Handler::Keyboard ==> final(keyboard)@
                            == pushed(
                            old(keyboard)@,
                            old(keyboard).capacity(),
                            input.scancode,
                        )
                    },
                },
            },
    {
        let entry: IdtEntry = match self.idt.entry(vector) {
            Some(entry) => entry,
            None => {
                return Err(DeliveryError::UnregisteredVector(vector));
            },
        };
        let stack: HandlerStack = match entry.stack_index {
            None => HandlerStack::Interrupted,
            Some(index) => match self.gdt.interrupt_stack(index) {
                Some(top) => HandlerStack::Dedicated(top),
                None => {
                    return Err(DeliveryError::MissingStack(vector));
                },
            },
        };
        let response: Response = match entry.handler {
            Handler::Breakpoint => breakpoint_handler(input.stack_frame),
            Handler::GeneralProtectionFault => general_fault_handler(
                input.stack_frame,
                input.error_code,
            ),
            Handler::DoubleFault => double_fault_handler(input.stack_frame, input.error_code),
            Handler::PageFault => page_fault_handler(
                input.stack_frame,
                PageFaultErrorCode { bits: input.error_code },
                input.accessed_address,
            ),
            Handler::Timer => timer_interrupt_handler(timer),
            Handler::Keyboard => keyboard_interrupt_handler(input.scancode, keyboard),
            Handler::Mouse => mouse_interrupt(),
            Handler::ApicError => lapic_error(),
            Handler::Syscall => syscall_handler(),
            Handler::ApicSpurious => spurious_interrupt(),
        };
        Ok(Delivery { stack, response })
    }
}

/// What the handler `handler` reports when it is given `input`.
pub open spec fn handler_log(handler: Handler, input: InterruptInput) -> Option<LogEntry> {
    match handler {
        Handler::Breakpoint => Some(
            LogEntry {
                severity: Severity::Print,
                diagnostic: Diagnostic::Breakpoint { frame: input.stack_frame },
            },
        ),
        Handler::GeneralProtectionFault => Some(
            LogEntry {
                severity: Severity::Error,
                diagnostic: Diagnostic::GeneralProtectionFault {
                    frame: input.stack_frame,
                    error_code: input.error_code,
                },
            },
        ),
        Handler::DoubleFault => Some(
            LogEntry {
                severity: Severity::Error,
                diagnostic: Diagnostic::DoubleFault {
                    frame: input.stack_frame,
                    error_code: input.error_code,
                },
            },
        ),
        Handler::PageFault => Some(
            LogEntry {
                severity: Severity::Print,
                diagnostic: Diagnostic::PageFault {
                    frame: input.stack_frame,
                    accessed_address: input.accessed_address,
                    cause: PageFaultErrorCode { bits: input.error_code },
                },
            },
        ),
        Handler::ApicError => Some(
            LogEntry { severity: Severity::Print, diagnostic: Diagnostic::ApicError },
        ),
        Handler::Syscall => Some(
            LogEntry { severity: Severity::Debug, diagnostic: Diagnostic::Syscall },
        ),
        Handler::ApicSpurious => Some(
            LogEntry { severity: Severity::Debug, diagnostic: Diagnostic::SpuriousInterrupt },
        ),
        Handler::Timer => None,
        Handler::Keyboard => None,
        Handler::Mouse => None,
    }
}

/// What the handler `handler` asks for when it is given `input`, the timer
/// callback is or is not installed, the task with the waker `waiting` waits
/// for a scancode, and the scancode queue has or has not room.
pub open spec fn handler_response(
    handler: Handler,
    input: InterruptInput,
    callback_installed: bool,
    waiting: Option<Waker>,
    room: bool,
) -> Response {
    response_of(
        handler,
        handler_log(handler, input),
        handler == Handler::Timer && callback_installed,
        if handler == Handler::Keyboard && room {
            waiting
        } else {
            None
        },
    )
}

/// Every interrupt is acknowledged exactly once: whatever the input, the
/// response of a handler asks for one end-of-interrupt if the handler serves
/// the APIC, and for none if it serves an exception of the processor. The
/// handler named in the response is the one that was asked.
pub proof fn lemma_acknowledged_exactly_once(
    handler: Handler,
    input: InterruptInput,
    callback_installed: bool,
    waiting: Option<Waker>,
    room: bool,
)
    ensures
        handler_response(handler, input, callback_installed, waiting, room).handler == handler,
        handler_response(handler, input, callback_installed, waiting, room).acknowledgements()
            == if handler.acknowledges() {
            1nat
        } else {
            0nat
        },
{
}

/// In the kernel's interrupt table every vector from 32 on that is bound
/// leads to a handler that acknowledges, and every bound vector below 32 to
/// one that does not.
pub proof fn lemma_boot_table_acknowledges(vector: int)
    requires
        0 <= vector < VECTORS,
        boot_table()[vector] is Some,
    ensures
        boot_table()[vector]->0.handler.acknowledges() <==> vector >= 32,
{
}

/// Builds the processor's tables: first the segment table with the
/// double-fault stack that starts at `double_fault_stack`, then the
/// interrupt table.
pub fn init(double_fault_stack: u64) -> (result: Result<DescriptorTables, GdtError>)
    ensures
        match result {
            Ok(tables) => {
                &&& tables.wf()
                &&& tables.vectors() == boot_table()
                &&& double_fault_stack + DOUBLE_FAULT_STACK_SIZE <= u64::MAX
                &&& tables.stack_of(boot_table()[DOUBLE_FAULT_VECTOR as int]->0) == Some(
                    HandlerStack::Dedicated(
                        (double_fault_stack + DOUBLE_FAULT_STACK_SIZE) as u64,
                    ),
                )
                &&& forall|vector: int|
                    0 <= vector < VECTORS && boot_table()[vector] is Some ==> tables.stack_of(
                        #[trigger] boot_table()[vector]->0,
                    ) is Some
            },
            Err(e) => init_gdt_fails(double_fault_stack),
        },
{
    let gdt: SegmentTables = match init_gdt(double_fault_stack) {
        Ok(gdt) => gdt,
        Err(e) => {
            return Err(e);
        },
    };
    let idt: InterruptDescriptorTable = init_idt();
    Ok(DescriptorTables::new(gdt, idt))
}

/// Whether no segment table can be built around a double-fault stack that
/// starts at `double_fault_stack`.
pub open spec fn init_gdt_fails(double_fault_stack: u64) -> bool {
    ||| !is_canonical(double_fault_stack)
    ||| double_fault_stack + DOUBLE_FAULT_STACK_SIZE > u64::MAX
    ||| !is_canonical((double_fault_stack + DOUBLE_FAULT_STACK_SIZE) as u64)
}

} // verus!
