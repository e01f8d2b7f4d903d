//! The keyboard: the queue that the interrupt handler fills with scancodes,
//! and the task that takes them out.

use vstd::prelude::*;
use crate::queue::{pushed, BoundedQueue};
use crate::task::{Context, Poll, Task, Waker};

verus! {

/// The I/O port from which the keyboard controller's data byte is read.
pub const KEYBOARD_DATA_PORT: u16 = 0x60;

/// The number of scancodes that the queue holds before it drops new ones.
pub const SCANCODE_QUEUE_CAPACITY: usize = 100;

/// The scancodes that the keyboard handler has read and no task has taken
/// yet, with the waker of the task that waits for the next one.
///
/// The handler never waits: when the queue is full it drops the scancode it
/// brought and counts the loss.
pub struct ScancodeQueue {
    codes: BoundedQueue<u8>,
    waker: Option<Waker>,
    dropped: u64,
}

impl ScancodeQueue {
    /// The queued scancodes, oldest first.
    pub closed spec fn view(&self) -> Seq<u8> {
        self.codes@
    }

    /// The number of scancodes the queue can hold.
    pub closed spec fn capacity(&self) -> nat {
        self.codes.capacity()
    }

    /// The waker of the task that waits for a scancode, if one does.
    pub closed spec fn waiting(&self) -> Option<Waker> {
        self.waker
    }

    /// How many scancodes were dropped because the queue was full. The
    /// count stops at the largest number it can hold.
    pub closed spec fn dropped(&self) -> u64 {
        self.dropped
    }

    /// An empty queue for [`SCANCODE_QUEUE_CAPACITY`] scancodes.
    pub fn new() -> (queue: ScancodeQueue)
        ensures
            queue@ == Seq::<u8>::empty(),
            queue.capacity() == SCANCODE_QUEUE_CAPACITY,
            queue.waiting() is None,
            queue.dropped() == 0,
    {
        ScancodeQueue::with_capacity(SCANCODE_QUEUE_CAPACITY)
    }

    /// An empty queue for `capacity` scancodes.
    pub fn with_capacity(capacity: usize) -> (queue: ScancodeQueue)
        ensures
            queue@ == Seq::<u8>::empty(),
            queue.capacity() == capacity,
            queue.waiting() is None,
            queue.dropped() == 0,
    {
        ScancodeQueue { codes: BoundedQueue::new(capacity, 0), waker: None, dropped: 0 }
    }

    /// The number of queued scancodes.
    pub fn len(&self) -> (n: usize)
        ensures
            n == self@.len(),
            n <= self.capacity(),
    {
        let capacity: usize = self.codes.max_len();
        self.codes.len()
    }

    /// How many scancodes were dropped because the queue was full.
    pub fn dropped_count(&self) -> (n: u64)
        ensures
            n == self.dropped(),
    {
        self.dropped
    }

    /// Called by the keyboard handler: queues `scancode` and returns the
    /// waker of the waiting task, which the handler has to wake. If the queue
    /// is full the scancode is dropped and counted, nothing else changes,
    /// and nobody is woken.
    pub fn add_scancode(&mut self, scancode: u8) -> (wake: Option<Waker>)
        ensures
            final(self).capacity() == old(self).capacity(),
            final(self)@ == pushed(old(self)@, old(self).capacity(), scancode),
            old(self)@.len() < old(self).capacity() ==> {
                &&& wake == old(self).waiting()
                &&& final(self).waiting() is None
                &&& final(self).dropped() == old(self).dropped()
            },
            old(self)@.len() >= old(self).capacity() ==> {
                &&& wake is None
                &&& final(self).waiting() == old(self).waiting()
                &&& final(self).dropped() == if old(self).dropped() < u64::MAX {
                    (old(self).dropped() + 1) as u64
                } else {
                    u64::MAX
                }
            },
    {
        match self.codes.push(scancode) {
            Ok(()) => {
                let wake: Option<Waker> = self.waker;
                self.waker = None;
                wake
            },
            Err(_) => {
                if self.dropped < u64::MAX {
                    self.dropped = self.dropped + 1;
                }
                None
            },
        }
    }

    /// Called by the consuming task: takes the oldest scancode out. If there
    /// is none, `waker` is left in the queue, so that the handler wakes the
    /// task when the next scancode arrives.
    pub fn next_scancode(&mut self, waker: Waker) -> (scancode: Option<u8>)
        ensures
            final(self).capacity() == old(self).capacity(),
            final(self).dropped() == old(self).dropped(),
            old(self)@.len() > 0 ==> {
                &&& scancode == Some(old(self)@[0])
                &&& final(self)@ == old(self)@.subrange(1, old(self)@.len() as int)
                &&& final(self).waiting() == old(self).waiting()
            },
            old(self)@.len() == 0 ==> {
                &&& scancode is None
                &&& final(self)@ == old(self)@
                &&& final(self).waiting() == Some(waker)
            },
    {
        match self.codes.pop() {
            Some(code) => Some(code),
            None => {
                self.waker = Some(waker);
                None
            },
        }
    }
}

/// The task that shows what is typed: it takes every scancode out of the
/// queue, in order, and keeps it for output. When the queue is empty the
/// task waits for the keyboard handler to wake it. It never ends.
pub struct KeypressPrinter {
    printed: Vec<u8>,
}

impl KeypressPrinter {
    /// The scancodes that the task has taken and that were not collected
    /// yet, oldest first.
    pub closed spec fn view(&self) -> Seq<u8> {
        self.printed@
    }

    /// A task that has seen nothing yet.
    pub fn new() -> (task: KeypressPrinter)
        ensures
            task@ == Seq::<u8>::empty(),
    {
        KeypressPrinter { printed: Vec::new() }
    }

    /// Takes every queued scancode, in order, then leaves `waker` in the
    /// queue and waits.
    pub fn resume(&mut self, queue: &mut ScancodeQueue, waker: Waker) -> (outcome: Poll)
        ensures
            outcome == Poll::Pending,
            final(self)@ == old(self)@ + old(queue)@,
            final(queue)@ == Seq::<u8>::empty(),
            final(queue).waiting() == Some(waker),
            final(queue).capacity() == old(queue).capacity(),
            final(queue).dropped() == old(queue).dropped(),
    {
        let mut left: usize = queue.len();
        loop
            invariant
                left == queue@.len(),
                queue.capacity() == old(queue).capacity(),
                queue.dropped() == old(queue).dropped(),
                self@ + queue@ == old(self)@ + old(queue)@,
            ensures
                queue@.len() == 0,
                queue.waiting() == Some(waker),
                queue.capacity() == old(queue).capacity(),
                queue.dropped() == old(queue).dropped(),
                self@ + queue@ == old(self)@ + old(queue)@,
            decreases left,
        {
            let ghost seen = self@;
            let ghost queued = queue@;
            match queue.next_scancode(waker) {
                Some(code) => {
                    self.printed.push(code);
                    left = left - 1;
                    assert(self@ + queue@ =~= seen + queued);
                },
                None => {
                    break ;
                },
            }
        }
        assert(self@ =~= self@ + queue@);
        Poll::Pending
    }

    /// Hands out the scancodes that the task has taken since the last call
    /// and forgets them.
    pub fn take_output(&mut self) -> (output: Vec<u8>)
        ensures
            output@ == old(self)@,
            final(self)@ == Seq::<u8>::empty(),
    {
        let mut output: Vec<u8> = Vec::new();
        std::mem::swap(&mut self.printed, &mut output);
        output
    }
}

impl Task<ScancodeQueue> for KeypressPrinter {
    fn poll(&mut self, env: &mut ScancodeQueue, cx: &mut Context) -> (outcome: Poll)
        ensures
            outcome == Poll::Pending,
            final(self)@ == old(self)@ + old(env)@,
            final(env)@ == Seq::<u8>::empty(),
            final(env).waiting() == Some(old(cx).spec_waker()),
    {
        self.resume(env, cx.waker())
    }
}

} // verus!
