//! The order in which the kernel is brought up.
//!
//! Each subsystem is set up once, and only when what it builds on is there:
//! memory, then the heap, then the processor's tables, then the interrupt
//! controllers. Only then are interrupts enabled.

use vstd::prelude::*;

verus! {

/// How far the kernel has been brought up.
#[derive(Clone, Copy, Debug, PartialEq, Eq, Structural)]
pub enum Stage {
    /// The boot loader has handed over; nothing is set up.
    Handoff,
    /// The mapper and the frame allocator exist.
    Memory,
    /// The heap is mapped and the heap allocator has it.
    Heap,
    /// The segment table and the interrupt table are loaded.
    DescriptorTables,
    /// The interrupt controllers are programmed.
    InterruptControllers,
    /// Interrupts are enabled; tasks run.
    Running,
}

/// One step of bringing the kernel up.
#[derive(Clone, Copy, Debug, PartialEq, Eq, Structural)]
pub enum Step {
    InitMemory,
    InitHeap,
    InitDescriptorTables,
    InitInterruptControllers,
    EnableInterrupts,
}

/// Why a step was refused.
#[derive(Clone, Copy, Debug, PartialEq, Eq, Structural)]
pub enum ConfigError {
    /// The step was taken before; nothing is set up twice.
    AlreadyInitialized(Step),
    /// The step builds on one that was not taken yet.
    OutOfOrder(Step),
}

impl Stage {
    /// The number of steps that were taken to reach the stage.
    pub open spec fn rank(self) -> nat {
        match self {
            Stage::Handoff => 0,
            Stage::Memory => 1,
            Stage::Heap => 2,
            Stage::DescriptorTables => 3,
            Stage::InterruptControllers => 4,
            Stage::Running => 5,
        }
    }
}

impl Step {
    /// The number of steps that must have been taken before this one.
    pub open spec fn rank(self) -> nat {
        match self {
            Step::InitMemory => 0,
            Step::InitHeap => 1,
            Step::InitDescriptorTables => 2,
            Step::InitInterruptControllers => 3,
            Step::EnableInterrupts => 4,
        }
    }

    /// The stage that the step leads to.
    pub open spec fn leads_to(self) -> Stage {
        match self {
            Step::InitMemory => Stage::Memory,
            Step::InitHeap => Stage::Heap,
            Step::InitDescriptorTables => Stage::DescriptorTables,
            Step::InitInterruptControllers => Stage::InterruptControllers,
            Step::EnableInterrupts => Stage::Running,
        }
    }
}

/// The record of how far the kernel has been brought up.
#[derive(Debug)]
pub struct BootSequence {
    stage: Stage,
}

impl BootSequence {
    /// The stage that was reached.
    pub closed spec fn reached(&self) -> Stage {
        self.stage
    }

    /// The record at the boot handoff.
    pub fn new() -> (sequence: BootSequence)
        ensures
            sequence.reached() == Stage::Handoff,
    {
        BootSequence { stage: Stage::Handoff }
    }

    /// The stage that was reached.
    pub fn stage(&self) -> (stage: Stage)
        ensures
            stage == self.reached(),
    {
        self.stage
    }

    /// Whether interrupts are enabled.
    pub fn interrupts_enabled(&self) -> (enabled: bool)
        ensures
            enabled == (self.reached() == Stage::Running),
    {
        match self.stage {
            Stage::Running => true,
            _ => false,
        }
    }

    /// Records that `step` is about to be taken. The step is accepted if it
    /// is the one that follows the stage that was reached; a step that was
    /// taken before and a step that comes too early are refused, and the
    /// record stays as it was.
    pub fn begin(&mut self, step: Step) -> (result: Result<Stage, ConfigError>)
        ensures
            old(self).reached().rank() == step.rank() ==> {
                &&& result == Ok::<Stage, ConfigError>(step.leads_to())
                &&& final(self).reached() == step.leads_to()
            },
            old(self).reached().rank() > step.rank() ==> {
                &&& result == Err::<Stage, ConfigError>(ConfigError::AlreadyInitialized(step))
                &&& final(self).reached() == old(self).reached()
            },
            old(self).reached().rank() < step.rank() ==> {
                &&& result == Err::<Stage, ConfigError>(ConfigError::OutOfOrder(step))
                &&& final(self).reached() == old(self).reached()
            },
    {
        let reached: u8 = match self.stage {
            Stage::Handoff => 0,
            Stage::Memory => 1,
            Stage::Heap => 2,
            Stage::DescriptorTables => 3,
            Stage::InterruptControllers => 4,
            Stage::Running => 5,
        };
        let (needed, next): (u8, Stage) = match step {
            Step::InitMemory => (0, Stage::Memory),
            Step::InitHeap => (1, Stage::Heap),
            Step::InitDescriptorTables => (2, Stage::DescriptorTables),
            Step::InitInterruptControllers => (3, Stage::InterruptControllers),
            Step::EnableInterrupts => (4, Stage::Running),
        };
        if reached == needed {
            self.stage = next;
            Ok(next)
        } else if reached > needed {
            Err(ConfigError::AlreadyInitialized(step))
        } else {
            Err(ConfigError::OutOfOrder(step))
        }
    }
}

/// Interrupts are enabled only when everything is set up: a record that
/// shows interrupts enabled has taken every step, so both tables are loaded
/// and the controllers are programmed.
pub proof fn lemma_interrupts_enabled_last(stage: Stage, step: Step)
    requires
        stage == Stage::Running,
    ensures
        stage.rank() > step.rank(),
{
}

} // verus!
