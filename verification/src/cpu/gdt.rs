//! The segment table: the kernel's code segment, and the task state segment
//! with the stack that the double-fault handler runs on.

use vstd::prelude::*;
use crate::arch::is_canonical;

verus! {

/// The slot of the interrupt stack table that holds the double-fault stack.
pub const DOUBLE_FAULT_IST_INDEX: u16 = 0;

/// The size in bytes of the double-fault stack.
pub const DOUBLE_FAULT_STACK_SIZE: u64 = 4096 * 5;

/// The number of slots in the interrupt stack table.
pub const IST_SLOTS: usize = 7;

/// The selector of the kernel's code segment: the first slot after the
/// null descriptor, at ring 0.
pub const KERNEL_CODE_SELECTOR: u16 = 8;

/// The selector of the task state segment: the slot after the code
/// segment, at ring 0.
pub const TSS_SELECTOR: u16 = 16;

/// What a slot of the segment table describes.
#[derive(Clone, Copy, Debug, PartialEq, Eq, Structural)]
pub enum Descriptor {
    /// The kernel's 64-bit code segment, at ring 0.
    KernelCode,
    /// The task state segment.
    TaskState,
}

/// The name by which the processor finds a descriptor: the byte offset of
/// its slot in the table, with the requested privilege level in the low
/// bits.
#[derive(Clone, Copy, Debug, PartialEq, Eq, Structural)]
pub struct SegmentSelector(pub u16);

/// Why the segment table could not be built.
#[derive(Clone, Copy, Debug, PartialEq, Eq, Structural)]
pub enum GdtError {
    /// The double-fault stack does not lie in canonical address space.
    BadStack,
}

/// The segment table together with the task state segment it points at.
/// Once built it does not change.
#[derive(Debug)]
pub struct SegmentTables {
    code_selector: SegmentSelector,
    tss_selector: SegmentSelector,
    interrupt_stacks: [u64; 7],
}

impl SegmentTables {
    /// The selector of the kernel's code segment.
    pub closed spec fn code(&self) -> SegmentSelector {
        self.code_selector
    }

    /// The selector of the task state segment.
    pub closed spec fn tss(&self) -> SegmentSelector {
        self.tss_selector
    }

    /// The interrupt stack table: for each slot the address just above the
    /// top of its stack, or zero where the slot is unused.
    pub closed spec fn stacks(&self) -> Seq<u64> {
        self.interrupt_stacks@
    }

    /// What the descriptor named by `selector` describes, if the table has
    /// one under that name.
    pub open spec fn descriptor(&self, selector: SegmentSelector) -> Option<Descriptor> {
        if selector == self.code() {
            Some(Descriptor::KernelCode)
        } else if selector == self.tss() {
            Some(Descriptor::TaskState)
        } else {
            None
        }
    }

    /// The selector of the kernel's code segment.
    pub fn code_selector(&self) -> (selector: SegmentSelector)
        ensures
            selector == self.code(),
    {
        self.code_selector
    }

    /// The selector of the task state segment.
    pub fn tss_selector(&self) -> (selector: SegmentSelector)
        ensures
            selector == self.tss(),
    {
        self.tss_selector
    }

    /// The address just above the top of the stack in slot `index` of the
    /// interrupt stack table, if the slot exists and is in use.
    pub fn interrupt_stack(&self, index: u16) -> (top: Option<u64>)
        ensures
            top == if index < IST_SLOTS && self.stacks()[index as int] != 0 {
                Some(self.stacks()[index as int])
            } else {
                None
            },
    {
        if (index as usize) < IST_SLOTS && self.interrupt_stacks[index as usize] != 0 {
            Some(self.interrupt_stacks[index as usize])
        } else {
            None
        }
    }
}

/// Builds the segment table: the kernel's code segment, and a task state
/// segment whose interrupt stack table holds, in slot
/// [`DOUBLE_FAULT_IST_INDEX`], the stack of [`DOUBLE_FAULT_STACK_SIZE`] bytes
/// that starts at `double_fault_stack`. A stack grows downwards, so the slot
/// holds the address just above the stack's last byte.
pub fn init_gdt(double_fault_stack: u64) -> (result: Result<SegmentTables, GdtError>)
    ensures
        match result {
            Ok(tables) => {
                &&& is_canonical(double_fault_stack)
                &&& double_fault_stack + DOUBLE_FAULT_STACK_SIZE <= u64::MAX
                &&& is_canonical((double_fault_stack + DOUBLE_FAULT_STACK_SIZE) as u64)
                &&& tables.code() == SegmentSelector(KERNEL_CODE_SELECTOR)
                &&& tables.tss() == SegmentSelector(TSS_SELECTOR)
                &&& tables.stacks().len() == IST_SLOTS
                &&& tables.stacks()[DOUBLE_FAULT_IST_INDEX as int] == double_fault_stack
                    + DOUBLE_FAULT_STACK_SIZE
                &&& forall|i: int|
                    0 <= i < IST_SLOTS && i != DOUBLE_FAULT_IST_INDEX ==> tables.stacks()[i] == 0
            },
            Err(GdtError::BadStack) => {
                ||| !is_canonical(double_fault_stack)
                ||| double_fault_stack + DOUBLE_FAULT_STACK_SIZE > u64::MAX
                ||| !is_canonical((double_fault_stack + DOUBLE_FAULT_STACK_SIZE) as u64)
            },
        },
{
    let top: u64 = match double_fault_stack.checked_add(DOUBLE_FAULT_STACK_SIZE) {
        Some(top) => top,
        None => {
            return Err(GdtError::BadStack);
        },
    };
    let bottom_ok: bool = double_fault_stack < 0x0000_8000_0000_0000 || double_fault_stack
        >= 0xffff_8000_0000_0000;
    let top_ok: bool = top < 0x0000_8000_0000_0000 || top >= 0xffff_8000_0000_0000;
    if !bottom_ok || !top_ok {
        return Err(GdtError::BadStack);
    }
    let mut interrupt_stacks: [u64; 7] = [0, 0, 0, 0, 0, 0, 0];
    interrupt_stacks[DOUBLE_FAULT_IST_INDEX as usize] = top;
    Ok(
        SegmentTables {
            code_selector: SegmentSelector(KERNEL_CODE_SELECTOR),
            tss_selector: SegmentSelector(TSS_SELECTOR),
            interrupt_stacks,
        },
    )
}

} // verus!
