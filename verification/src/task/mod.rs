//! Cooperative tasks: what a task is, and how it asks to be run again.

use vstd::prelude::*;

pub mod executor;

verus! {

/// The identity of a task. The executor gives each task it takes in an
/// identity that no other task had or will have.
#[derive(Clone, Copy, Debug, PartialEq, Eq, Structural)]
pub struct TaskId(pub u64);

/// The handle by which a producer of events says that a task can make
/// progress. Hand it to [`executor::Executor::wake`].
#[derive(Clone, Copy, Debug, PartialEq, Eq, Structural)]
pub struct Waker {
    pub task: TaskId,
}

/// What a task says when it is polled.
#[derive(Clone, Copy, Debug, PartialEq, Eq, Structural)]
pub enum Poll {
    /// The task has run to its end.
    Ready,
    /// The task waits for an event; it is to be polled again once it was
    /// woken.
    Pending,
}

/// What a task is given when it is polled: its own waker, and the means to
/// ask for another poll at once.
pub struct Context {
    waker: Waker,
    woken: bool,
}

impl Context {
    /// The waker of the task that is being polled.
    pub closed spec fn spec_waker(&self) -> Waker {
        self.waker
    }

    /// Whether the task asked to be polled again.
    pub closed spec fn spec_woken(&self) -> bool {
        self.woken
    }

    /// The context for one poll of the task that `waker` belongs to.
    pub fn new(waker: Waker) -> (cx: Context)
        ensures
            cx.spec_waker() == waker,
            !cx.spec_woken(),
    {
        Context { waker, woken: false }
    }

    /// The waker of the task that is being polled. The task leaves it with
    /// whatever will produce the event it waits for.
    pub fn waker(&self) -> (waker: Waker)
        ensures
            waker == self.spec_waker(),
    {
        self.waker
    }

    /// Asks for another poll of the task at once, without waiting for an event.
    pub fn wake(&mut self)
        ensures
            final(self).spec_waker() == old(self).spec_waker(),
            final(self).spec_woken(),
    {
        self.woken = true;
    }

    /// Whether the task asked to be polled again.
    pub fn is_woken(&self) -> (woken: bool)
        ensures
            woken == self.spec_woken(),
    {
        self.woken
    }
}

/// A computation that runs in steps. Each call of `poll` runs it until it
/// ends or has to wait. `E` is what the task works on.
pub trait Task<E> {
    /// Runs the task until it ends or has to wait for an event.
    fn poll(&mut self, env: &mut E, cx: &mut Context) -> Poll;
}

} // verus!
