//! Core of a single-core x86-64 kernel: the memory subsystem, the interrupt
//! subsystem and the cooperative task executor, as verified logic.
//!
//! Nothing in this crate touches hardware. Every function decides what has to
//! happen and returns that decision as a plain value; the program that embeds
//! the crate carries it out on the machine. What the crate decides is proved:
//! each function has a contract that says what it returns and changes, and
//! the laws that hold across functions are proof functions next to them.
//!
//! - [`boot`]: the order in which the kernel is brought up.
//! - [`memory`]: frames and pages, the frame allocator over the boot memory
//!   map, and the mapper that keeps the books of the page tables.
//! - [`allocator`]: the set-up of the heap range, and the heap allocator.
//! - [`cpu`]: the segment table, the interrupt table, the handlers, and the
//!   delivery of an interrupt through the tables.
//! - [`x2apic`]: what the interrupt controllers are programmed with.
//! - [`queue`], [`keyboard`]: the bounded queue between the keyboard handler
//!   and the task that consumes the scancodes.
//! - [`task`]: tasks, wakers, and the executor.
//! - [`framebuffer`], [`logger`], [`shell`]: text on the screen, log lines,
//!   and the prompt.
//! - [`arch`]: address arithmetic of the `x86_64` crate.

pub mod allocator;
pub mod arch;
pub mod boot;
pub mod cpu;
pub mod framebuffer;
pub mod keyboard;
pub mod logger;
pub mod memory;
pub mod queue;
pub mod shell;
pub mod task;
pub mod x2apic;
