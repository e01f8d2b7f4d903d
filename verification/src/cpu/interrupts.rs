//! The interrupt table, the handlers bound in it, and what each handler
//! does when its vector fires.
//!
//! A handler decides; it touches no hardware. It returns a [`Response`] that
//! says what the processor glue has to do, and in which order. No handler
//! allocates or waits.

use vstd::prelude::*;
use crate::cpu::gdt::DOUBLE_FAULT_IST_INDEX;
use crate::keyboard::ScancodeQueue;
use crate::queue::pushed;
use crate::task::Waker;

verus! {

/// The first vector that the legacy interrupt controller would use.
pub const PIC_1_OFFSET: u8 = 32;

/// The vector that the I/O APIC gives to its first input.
pub const IOAPIC_INTERRUPT_INDEX_OFFSET: u8 = 32;

/// The number of interrupt vectors.
pub const VECTORS: usize = 256;

/// The vector of the breakpoint exception.
pub const BREAKPOINT_VECTOR: u8 = 3;

/// The vector of the double-fault exception.
pub const DOUBLE_FAULT_VECTOR: u8 = 8;

/// The vector of the general-protection-fault exception.
pub const GENERAL_PROTECTION_FAULT_VECTOR: u8 = 13;

/// The vector of the page-fault exception.
pub const PAGE_FAULT_VECTOR: u8 = 14;

/// The hardware interrupts that the kernel handles. Their vectors follow
/// one another from [`PIC_1_OFFSET`]; the vectors below are the processor's
/// own exceptions.
#[derive(Clone, Copy, Debug, PartialEq, Eq, Structural)]
pub enum InterruptIndex {
    Timer,
    Keyboard,
    Mouse,
    ApicError,
    Syscall,
    ApicSpurious,
}

impl InterruptIndex {
    /// The vector of the interrupt.
    pub open spec fn vector(self) -> u8 {
        match self {
            InterruptIndex::Timer => 32,
            InterruptIndex::Keyboard => 33,
            InterruptIndex::Mouse => 34,
            InterruptIndex::ApicError => 35,
            InterruptIndex::Syscall => 36,
            InterruptIndex::ApicSpurious => 37,
        }
    }

    /// The vector of the interrupt.
    pub fn as_u8(self) -> (vector: u8)
        ensures
            vector == self.vector(),
            vector >= PIC_1_OFFSET,
    {
        match self {
            InterruptIndex::Timer => PIC_1_OFFSET,
            InterruptIndex::Keyboard => PIC_1_OFFSET + 1,
            InterruptIndex::Mouse => PIC_1_OFFSET + 2,
            InterruptIndex::ApicError => PIC_1_OFFSET + 3,
            InterruptIndex::Syscall => PIC_1_OFFSET + 4,
            InterruptIndex::ApicSpurious => PIC_1_OFFSET + 5,
        }
    }

    /// The vector of the interrupt, as an index into the interrupt table.
    pub fn as_usize(self) -> (index: usize)
        ensures
            index == self.vector(),
    {
        self.as_u8() as usize
    }
}

/// The routines that the interrupt table can lead to.
#[derive(Clone, Copy, Debug, PartialEq, Eq, Structural)]
pub enum Handler {
    Breakpoint,
    GeneralProtectionFault,
    DoubleFault,
    PageFault,
    Timer,
    Keyboard,
    Mouse,
    ApicError,
    Syscall,
    ApicSpurious,
}

impl Handler {
    /// Whether the handler serves an interrupt that came through the APIC,
    /// which has to be acknowledged. The processor's own exceptions are not.
    pub open spec fn acknowledges(self) -> bool {
        match self {
            Handler::Breakpoint => false,
            Handler::GeneralProtectionFault => false,
            Handler::DoubleFault => false,
            Handler::PageFault => false,
            _ => true,
        }
    }

    /// Whether the handler halts the processor instead of returning.
    pub open spec fn halts(self) -> bool {
        self == Handler::DoubleFault || self == Handler::PageFault
    }
}

/// One entry of the interrupt table: the handler, and the slot of the
/// interrupt stack table whose stack the handler runs on, if it does not run
/// on the interrupted stack.
#[derive(Clone, Copy, Debug, PartialEq, Eq, Structural)]
pub struct IdtEntry {
    pub handler: Handler,
    pub stack_index: Option<u16>,
}

/// The entry that the kernel's interrupt table holds for `vector`, if it
/// holds one.
pub open spec fn boot_entry(vector: int) -> Option<IdtEntry> {
    if vector == BREAKPOINT_VECTOR {
        Some(IdtEntry { handler: Handler::Breakpoint, stack_index: None })
    } else if vector == DOUBLE_FAULT_VECTOR {
        Some(
            IdtEntry { handler: Handler::DoubleFault, stack_index: Some(DOUBLE_FAULT_IST_INDEX) },
        )
    } else if vector == GENERAL_PROTECTION_FAULT_VECTOR {
        Some(IdtEntry { handler: Handler::GeneralProtectionFault, stack_index: None })
    } else if vector == PAGE_FAULT_VECTOR {
        Some(IdtEntry { handler: Handler::PageFault, stack_index: None })
    } else if vector == InterruptIndex::Timer.vector() {
        Some(IdtEntry { handler: Handler::Timer, stack_index: None })
    } else if vector == InterruptIndex::Keyboard.vector() {
        Some(IdtEntry { handler: Handler::Keyboard, stack_index: None })
    } else if vector == InterruptIndex::Mouse.vector() {
        Some(IdtEntry { handler: Handler::Mouse, stack_index: None })
    } else if vector == InterruptIndex::ApicError.vector() {
        Some(IdtEntry { handler: Handler::ApicError, stack_index: None })
    } else if vector == InterruptIndex::Syscall.vector() {
        Some(IdtEntry { handler: Handler::Syscall, stack_index: None })
    } else if vector == InterruptIndex::ApicSpurious.vector() {
        Some(IdtEntry { handler: Handler::ApicSpurious, stack_index: None })
    } else {
        None
    }
}

/// The kernel's interrupt table: [`boot_entry`] for each of the 256 vectors.
pub open spec fn boot_table() -> Seq<Option<IdtEntry>> {
    Seq::new(VECTORS as nat, |vector: int| boot_entry(vector))
}

/// The interrupt table: for each of the 256 vectors the handler bound to
/// it, or nothing. A vector without a handler must never fire.
#[derive(Debug)]
pub struct InterruptDescriptorTable {
    entries: Vec<Option<IdtEntry>>,
}

impl InterruptDescriptorTable {
    /// The entries of the table, by vector.
    pub closed spec fn view(&self) -> Seq<Option<IdtEntry>> {
        self.entries@
    }

    /// The table has one entry, bound or not, for each vector.
    pub open spec fn wf(&self) -> bool {
        self@.len() == VECTORS
    }

    /// A table in which no vector is bound.
    pub fn new() -> (idt: InterruptDescriptorTable)
        ensures
            idt.wf(),
            forall|vector: int| 0 <= vector < VECTORS ==> idt@[vector] is None,
    {
        let mut entries: Vec<Option<IdtEntry>> = Vec::new();
        let mut i: usize = 0;
        while i < VECTORS
            invariant
                i <= VECTORS,
                entries@.len() == i,
                forall|vector: int| 0 <= vector < i ==> entries@[vector] is None,
            decreases VECTORS - i,
        {
            entries.push(None);
            i = i + 1;
        }
        InterruptDescriptorTable { entries }
    }

    /// Binds `handler` to `vector`, to run on the interrupted stack.
    pub fn set_handler(&mut self, vector: u8, handler: Handler)
        requires
            old(self).wf(),
        ensures
            final(self).wf(),
            final(self)@ == old(self)@.update(
                vector as int,
                Some(IdtEntry { handler, stack_index: None }),
            ),
    {
        self.entries[vector as usize] = Some(IdtEntry { handler, stack_index: None });
    }

    /// Makes the handler of `vector` run on the stack in slot `index` of the
    /// interrupt stack table. Does nothing if the vector is not bound.
    pub fn set_stack_index(&mut self, vector: u8, index: u16)
        requires
            old(self).wf(),
        ensures
            final(self).wf(),
            final(self)@ == match old(self)@[vector as int] {
                Some(entry) => old(self)@.update(
                    vector as int,
                    Some(IdtEntry { handler: entry.handler, stack_index: Some(index) }),
                ),
                None => old(self)@,
            },
    {
        match self.entries[vector as usize] {
            Some(entry) => {
                self.entries[vector as usize] = Some(
                    IdtEntry { handler: entry.handler, stack_index: Some(index) },
                );
            },
            None => {},
        }
    }

    /// The entry of `vector`.
    pub fn entry(&self, vector: u8) -> (entry: Option<IdtEntry>)
        requires
            self.wf(),
        ensures
            entry == self@[vector as int],
    {
        self.entries[vector as usize]
    }

    /// Whether a handler is bound to `vector`.
    pub fn is_registered(&self, vector: u8) -> (registered: bool)
        requires
            self.wf(),
        ensures
            registered == (self@[vector as int] is Some),
    {
        self.entries[vector as usize].is_some()
    }
}

/// Builds the kernel's interrupt table. It binds the breakpoint, the
/// general-protection-fault, the double-fault and the page-fault exception,
/// and the six hardware interrupts of [`InterruptIndex`]. The double-fault
/// handler runs on the stack in slot [`DOUBLE_FAULT_IST_INDEX`]; every other
/// handler runs on the interrupted stack. No other vector is bound.
pub fn init_idt() -> (idt: InterruptDescriptorTable)
    ensures
        idt.wf(),
        idt@ == boot_table(),
{
    let mut idt = InterruptDescriptorTable::new();
    idt.set_handler(BREAKPOINT_VECTOR, Handler::Breakpoint);
    idt.set_handler(GENERAL_PROTECTION_FAULT_VECTOR, Handler::GeneralProtectionFault);
    idt.set_handler(DOUBLE_FAULT_VECTOR, Handler::DoubleFault);
    idt.set_stack_index(DOUBLE_FAULT_VECTOR, DOUBLE_FAULT_IST_INDEX);
    idt.set_handler(PAGE_FAULT_VECTOR, Handler::PageFault);
    idt.set_handler(InterruptIndex::Timer.as_u8(), Handler::Timer);
    idt.set_handler(InterruptIndex::Keyboard.as_u8(), Handler::Keyboard);
    idt.set_handler(InterruptIndex::ApicError.as_u8(), Handler::ApicError);
    idt.set_handler(InterruptIndex::ApicSpurious.as_u8(), Handler::ApicSpurious);
    idt.set_handler(InterruptIndex::Mouse.as_u8(), Handler::Mouse);
    idt.set_handler(InterruptIndex::Syscall.as_u8(), Handler::Syscall);
    assert(idt@ =~= boot_table());
    idt
}

/// What the processor pushed when it took the interrupt.
#[derive(Clone, Copy, Debug, PartialEq, Eq, Structural)]
pub struct InterruptStackFrame {
    pub instruction_pointer: u64,
    pub code_segment: u64,
    pub cpu_flags: u64,
    pub stack_pointer: u64,
    pub stack_segment: u64,
}

/// The reasons that the processor gives for a page fault.
#[derive(Clone, Copy, Debug, PartialEq, Eq, Structural)]
pub struct PageFaultErrorCode {
    pub bits: u64,
}

impl PageFaultErrorCode {
    /// Whether the access broke the rights of a present page; if not, the
    /// page was not present.
    pub fn protection_violation(&self) -> (set: bool)
        ensures
            set == (self.bits & 1 != 0),
    {
        self.bits & 1 != 0
    }

    /// Whether the access was a write.
    pub fn caused_by_write(&self) -> (set: bool)
        ensures
            set == (self.bits & 2 != 0),
    {
        self.bits & 2 != 0
    }

    /// Whether the access came from user mode.
    pub fn user_mode(&self) -> (set: bool)
        ensures
            set == (self.bits & 4 != 0),
    {
        self.bits & 4 != 0
    }

    /// Whether a reserved bit was set in a page-table entry.
    pub fn malformed_table(&self) -> (set: bool)
        ensures
            set == (self.bits & 8 != 0),
    {
        self.bits & 8 != 0
    }

    /// Whether the access was an instruction fetch.
    pub fn instruction_fetch(&self) -> (set: bool)
        ensures
            set == (self.bits & 16 != 0),
    {
        self.bits & 16 != 0
    }
}

/// How loudly a diagnostic is reported.
#[derive(Clone, Copy, Debug, PartialEq, Eq, Structural)]
pub enum Severity {
    /// Written to the console as it is.
    Print,
    /// Passed to the log at debug level.
    Debug,
    /// Passed to the log at error level.
    Error,
}

/// What a handler has to report.
#[derive(Clone, Copy, Debug, PartialEq, Eq, Structural)]
pub enum Diagnostic {
    Breakpoint { frame: InterruptStackFrame },
    GeneralProtectionFault { frame: InterruptStackFrame, error_code: u64 },
    DoubleFault { frame: InterruptStackFrame, error_code: u64 },
    PageFault { frame: InterruptStackFrame, accessed_address: u64, cause: PageFaultErrorCode },
    ApicError,
    Syscall,
    SpuriousInterrupt,
}

/// A diagnostic, and how loudly to report it.
#[derive(Clone, Copy, Debug, PartialEq, Eq, Structural)]
pub struct LogEntry {
    pub severity: Severity,
    pub diagnostic: Diagnostic,
}

/// Whether the handler returns to the interrupted code.
#[derive(Clone, Copy, Debug, PartialEq, Eq, Structural)]
pub enum Outcome {
    /// The interrupted code goes on.
    Return,
    /// The processor is halted for good.
    Halt,
}

/// What a handler asks the processor glue to do, in this order: report
/// `log`, call the timer callback, wake `wake`, acknowledge the interrupt
/// at the local APIC, and then return or halt.
#[derive(Clone, Copy, Debug, PartialEq, Eq, Structural)]
pub struct Response {
    /// The handler that ran.
    pub handler: Handler,
    /// What to report, and how loudly.
    pub log: Option<LogEntry>,
    /// Whether to call the timer callback.
    pub invoke_timer_callback: bool,
    /// The waker of the task to wake.
    pub wake: Option<Waker>,
    /// Whether to send the end-of-interrupt to the local APIC. It is sent
    /// once or not at all.
    pub end_of_interrupt: bool,
    /// Whether the handler returns.
    pub outcome: Outcome,
}

impl Response {
    /// How many end-of-interrupt signals the response asks for.
    pub open spec fn acknowledgements(self) -> nat {
        if self.end_of_interrupt {
            1
        } else {
            0
        }
    }
}

/// The response of `handler` that reports `log`, calls the timer callback
/// or not, and wakes `wake`. Whether it acknowledges and whether it halts
/// follows from the handler alone.
pub open spec fn response_of(
    handler: Handler,
    log: Option<LogEntry>,
    invoke_timer_callback: bool,
    wake: Option<Waker>,
) -> Response {
    Response {
        handler,
        log,
        invoke_timer_callback,
        wake,
        end_of_interrupt: handler.acknowledges(),
        outcome: if handler.halts() {
            Outcome::Halt
        } else {
            Outcome::Return
        },
    }
}

/// Builds the response of `handler`.
fn respond(
    handler: Handler,
    log: Option<LogEntry>,
    invoke_timer_callback: bool,
    wake: Option<Waker>,
) -> (response: Response)
    ensures
        response == response_of(handler, log, invoke_timer_callback, wake),
{
    let end_of_interrupt: bool = match handler {
        Handler::Breakpoint => false,
        Handler::GeneralProtectionFault => false,
        Handler::DoubleFault => false,
        Handler::PageFault => false,
        _ => true,
    };
    let outcome: Outcome = match handler {
        Handler::DoubleFault => Outcome::Halt,
        Handler::PageFault => Outcome::Halt,
        _ => Outcome::Return,
    };
    Response { handler, log, invoke_timer_callback, wake, end_of_interrupt, outcome }
}

/// Handles a breakpoint: reports it, and the interrupted code goes on.
pub fn breakpoint_handler(stack_frame: InterruptStackFrame) -> (response: Response)
    ensures
        response == response_of(
            Handler::Breakpoint,
            Some(
                LogEntry {
                    severity: Severity::Print,
                    diagnostic: Diagnostic::Breakpoint { frame: stack_frame },
                },
            ),
            false,
            None,
        ),
{
    let diagnostic = Diagnostic::Breakpoint { frame: stack_frame };
    respond(
        Handler::Breakpoint,
        Some(LogEntry { severity: Severity::Print, diagnostic }),
        false,
        None,
    )
}

/// Handles a general protection fault: reports it as an error, and the
/// interrupted code goes on.
pub fn general_fault_handler(stack_frame: InterruptStackFrame, error_code: u64) -> (response:
    Response)
    ensures
        response == response_of(
            Handler::GeneralProtectionFault,
            Some(
                LogEntry {
                    severity: Severity::Error,
                    diagnostic: Diagnostic::GeneralProtectionFault {
                        frame: stack_frame,
                        error_code,
                    },
                },
            ),
            false,
            None,
        ),
{
    let diagnostic = Diagnostic::GeneralProtectionFault { frame: stack_frame, error_code };
    respond(
        Handler::GeneralProtectionFault,
        Some(LogEntry { severity: Severity::Error, diagnostic }),
        false,
        None,
    )
}

/// Handles a double fault: reports it as an error and halts. The state of
/// the kernel cannot be trusted any more.
pub fn double_fault_handler(stack_frame: InterruptStackFrame, error_code: u64) -> (response:
    Response)
    ensures
        response == response_of(
            Handler::DoubleFault,
            Some(
                LogEntry {
                    severity: Severity::Error,
                    diagnostic: Diagnostic::DoubleFault { frame: stack_frame, error_code },
                },
            ),
            false,
            None,
        ),
{
    let diagnostic = Diagnostic::DoubleFault { frame: stack_frame, error_code };
    respond(
        Handler::DoubleFault,
        Some(LogEntry { severity: Severity::Error, diagnostic }),
        false,
        None,
    )
}

/// Handles a page fault: reports the address that was accessed, the reasons
/// that the processor gives, and the interrupted state, and halts.
pub fn page_fault_handler(
    stack_frame: InterruptStackFrame,
    error_code: PageFaultErrorCode,
    accessed_address: u64,
) -> (response: Response)
    ensures
        response == response_of(
            Handler::PageFault,
            Some(
                LogEntry {
                    severity: Severity::Print,
                    diagnostic: Diagnostic::PageFault {
                        frame: stack_frame,
                        accessed_address,
                        cause: error_code,
                    },
                },
            ),
            false,
            None,
        ),
{
    let diagnostic = Diagnostic::PageFault {
        frame: stack_frame,
        accessed_address,
        cause: error_code,
    };
    respond(
        Handler::PageFault,
        Some(LogEntry { severity: Severity::Print, diagnostic }),
        false,
        None,
    )
}

/// Handles a timer tick: calls the timer callback if one is installed, then
/// acknowledges. A tick without a callback is acknowledged all the same.
pub fn timer_interrupt_handler(timer: &TimerSlot) -> (response: Response)
    ensures
        response == response_of(Handler::Timer, None, timer.installed(), None),
{
    respond(Handler::Timer, None, timer.is_installed(), None)
}

/// Handles a keyboard interrupt. `scancode` is the byte that was read from
/// the keyboard's data port. The handler queues it, asks for the waiting
/// task to be woken, and acknowledges. When the queue is full the scancode
/// is dropped and counted, nobody is woken, and the interrupt is
/// acknowledged all the same.
pub fn keyboard_interrupt_handler(scancode: u8, keyboard: &mut ScancodeQueue) -> (response:
    Response)
    ensures
        final(keyboard).capacity() == old(keyboard).capacity(),
        final(keyboard)@ == pushed(old(keyboard)@, old(keyboard).capacity(), scancode),
        old(keyboard)@.len() < old(keyboard).capacity() ==> {
            &&& response == response_of(Handler::Keyboard, None, false, old(keyboard).waiting())
            &&& final(keyboard).waiting() is None
            &&& final(keyboard).dropped() == old(keyboard).dropped()
        },
        old(keyboard)@.len() >= old(keyboard).capacity() ==> {
            &&& response == response_of(Handler::Keyboard, None, false, None)
            &&& final(keyboard).waiting() == old(keyboard).waiting()
            &&& final(keyboard).dropped() == if old(keyboard).dropped() < u64::MAX {
                (old(keyboard).dropped() + 1) as u64
            } else {
                u64::MAX
            }
        },
{
    let wake: Option<Waker> = keyboard.add_scancode(scancode);
    respond(Handler::Keyboard, None, false, wake)
}

/// Handles a mouse interrupt: acknowledges it.
pub fn mouse_interrupt() -> (response: Response)
    ensures
        response == response_of(Handler::Mouse, None, false, None),
{
    respond(Handler::Mouse, None, false, None)
}

/// Handles the system-call vector: notes it in the log and acknowledges.
pub fn syscall_handler() -> (response: Response)
    ensures
        response == response_of(
            Handler::Syscall,
            Some(LogEntry { severity: Severity::Debug, diagnostic: Diagnostic::Syscall }),
            false,
            None,
        ),
{
    respond(
        Handler::Syscall,
        Some(LogEntry { severity: Severity::Debug, diagnostic: Diagnostic::Syscall }),
        false,
        None,
    )
}

/// Handles a spurious interrupt: notes it in the log and acknowledges.
pub fn spurious_interrupt() -> (response: Response)
    ensures
        response == response_of(
            Handler::ApicSpurious,
            Some(
                LogEntry { severity: Severity::Debug, diagnostic: Diagnostic::SpuriousInterrupt },
            ),
            false,
            None,
        ),
{
    respond(
        Handler::ApicSpurious,
        Some(LogEntry { severity: Severity::Debug, diagnostic: Diagnostic::SpuriousInterrupt }),
        false,
        None,
    )
}

/// Handles an error interrupt of the local APIC: reports it and
/// acknowledges.
pub fn lapic_error() -> (response: Response)
    ensures
        response == response_of(
            Handler::ApicError,
            Some(LogEntry { severity: Severity::Print, diagnostic: Diagnostic::ApicError }),
            false,
            None,
        ),
{
    respond(
        Handler::ApicError,
        Some(LogEntry { severity: Severity::Print, diagnostic: Diagnostic::ApicError }),
        false,
        None,
    )
}

/// The one place for the routine that runs on every timer tick. It is empty
/// until a routine is installed, and a routine is installed at most once.
/// The routine itself stays with the caller; the slot records that there is
/// one.
#[derive(Debug)]
pub struct TimerSlot {
    installed: bool,
}

/// Why a timer callback was not installed.
#[derive(Clone, Copy, Debug, PartialEq, Eq, Structural)]
pub enum TimerSlotError {
    /// A callback is installed already.
    AlreadyInstalled,
}

impl TimerSlot {
    /// Whether a callback is installed.
    pub closed spec fn installed(&self) -> bool {
        self.installed
    }

    /// An empty slot.
    pub fn new() -> (slot: TimerSlot)
        ensures
            !slot.installed(),
    {
        TimerSlot { installed: false }
    }

    /// Whether a callback is installed.
    pub fn is_installed(&self) -> (installed: bool)
        ensures
            installed == self.installed(),
    {
        self.installed
    }

    /// Records that a callback was installed, unless one is installed
    /// already.
    pub fn install(&mut self) -> (result: Result<(), TimerSlotError>)
        ensures
            final(self).installed(),
            result == if old(self).installed() {
                Err::<(), TimerSlotError>(TimerSlotError::AlreadyInstalled)
            } else {
                Ok::<(), TimerSlotError>(())
            },
    {
        if self.installed {
            Err(TimerSlotError::AlreadyInstalled)
        } else {
            self.installed = true;
            Ok(())
        }
    }
}

} // verus!
