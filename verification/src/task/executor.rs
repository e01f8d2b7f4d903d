//! The cooperative executor: which task runs next, and when the processor
//! may sleep.

use std::collections::HashMap;
use vstd::prelude::*;
use vstd::set_lib::lemma_len_subset;
use crate::queue::BoundedQueue;
use crate::task::{Context, Poll, Task, TaskId, Waker};

verus! {

/// The number of tasks that [`Executor::new`] makes room for.
pub const MAX_TASKS: usize = 100;

/// Why a task was not taken in.
#[derive(Clone, Copy, Debug, PartialEq, Eq, Structural)]
pub enum SpawnError {
    /// The identities have run out: a fresh one would repeat an old one.
    DuplicateId,
    /// The task table is full.
    TableFull,
}

/// What the processor is to do when the executor has polled every ready
/// task.
#[derive(Clone, Copy, Debug, PartialEq, Eq, Structural)]
pub enum IdleAction {
    /// A task is ready: enable interrupts and poll on.
    Resume,
    /// Nothing is ready: enable interrupts and halt, in one step, until the
    /// next interrupt.
    Halt,
}

/// The ready queue after the task `id` was woken: the task is appended if
/// it is known and not queued yet, and else the queue stays as it is.
pub open spec fn woken(ids: Set<u64>, ready: Seq<u64>, id: u64) -> Seq<u64> {
    if ids.contains(id) && !ready.contains(id) {
        ready.push(id)
    } else {
        ready
    }
}

/// The ready queue after the task `id` was woken `n` times in a row.
pub open spec fn woken_times(ids: Set<u64>, ready: Seq<u64>, id: u64, n: nat) -> Seq<u64>
    decreases n,
{
    if n == 0 {
        ready
    } else {
        woken(ids, woken_times(ids, ready, id, (n - 1) as nat), id)
    }
}

/// Waking is idempotent: however often a task is woken before it is polled,
/// the ready queue is what a single wake makes it, and it holds the task
/// exactly once.
pub proof fn lemma_wake_idempotent(ids: Set<u64>, ready: Seq<u64>, id: u64, n: nat)
    requires
        n >= 1,
        ids.contains(id),
        ready.no_duplicates(),
    ensures
        woken_times(ids, ready, id, n) == woken(ids, ready, id),
        woken_times(ids, ready, id, n).no_duplicates(),
        woken_times(ids, ready, id, n).contains(id),
    decreases n,
{
    let once = woken(ids, ready, id);
    if ready.contains(id) {
        assert(once == ready);
    } else {
        assert(once[ready.len() as int] == id);
        assert(once.no_duplicates());
    }
    assert(once.contains(id));
    if n > 1 {
        lemma_wake_idempotent(ids, ready, id, (n - 1) as nat);
    } else {
        assert(woken_times(ids, ready, id, 0) == ready);
    }
}

/// A sequence without repeats whose items all come from a finite set is no
/// longer than the set is large.
proof fn lemma_distinct_within(items: Seq<u64>, ids: Set<u64>)
    requires
        ids.finite(),
        items.no_duplicates(),
        forall|i: int| 0 <= i < items.len() ==> ids.contains(#[trigger] items[i]),
    ensures
        items.len() <= ids.len(),
{
    items.unique_seq_to_set();
    assert(items.to_set().subset_of(ids));
    lemma_len_subset(items.to_set(), ids);
}

/// Where a task stands.
#[derive(Clone, Copy, Debug, PartialEq, Eq, Structural)]
pub enum TaskState {
    /// The identity was never handed out.
    Unknown,
    /// The task waits in the ready queue for its next poll.
    Ready,
    /// The task waits for an event.
    Pending,
    /// The task was taken out of the executor and is being polled.
    Polling,
    /// The identity is not in use and never will be again: its task has
    /// ended, or it lies below the first identity of the executor.
    Retired,
}

/// Runs tasks in turn, each until it ends or has to wait, and polls only
/// those that were woken. It owns the tasks it was given.
pub struct Executor<T> {
    tasks: HashMap<u64, T>,
    ready: BoundedQueue<u64>,
    next_id: u64,
    halted: bool,
    /// The task that was taken out to be polled.
    polling: Option<u64>,
    /// Whether that task was woken while it was out.
    rewoken: bool,
}

impl<T> Executor<T> {
    /// The identities of the tasks in the task table.
    pub closed spec fn task_ids(&self) -> Set<u64> {
        self.tasks@.dom()
    }

    /// The task with the identity `id`.
    pub closed spec fn task(&self, id: u64) -> T {
        self.tasks@[id]
    }

    /// The identities of the tasks that are to be polled, in the order in
    /// which they will be.
    pub closed spec fn ready(&self) -> Seq<u64> {
        self.ready@
    }

    /// The number of tasks that the executor has room for.
    pub closed spec fn capacity(&self) -> nat {
        self.ready.capacity()
    }

    /// The identity that the next task will get.
    pub closed spec fn next_id(&self) -> u64 {
        self.next_id
    }

    /// Whether the executor has told the processor to halt and has not been
    /// woken since.
    pub closed spec fn halted(&self) -> bool {
        self.halted
    }

    /// The identity of the task that was taken out to be polled and has not
    /// been handed back, if there is one.
    pub closed spec fn polling(&self) -> Option<u64> {
        self.polling
    }

    /// Whether the task that is being polled was woken since it was taken
    /// out.
    pub closed spec fn rewoken(&self) -> bool {
        self.rewoken
    }

    /// The number of tasks that are out for a poll: one or none.
    pub open spec fn out(&self) -> nat {
        if self.polling() is Some {
            1
        } else {
            0
        }
    }

    /// Whether there is work to do: a task is ready, or the task that is
    /// being polled was woken.
    pub open spec fn has_work(&self) -> bool {
        self.ready().len() > 0 || self.rewoken()
    }

    /// The invariant of the executor: the tasks are within the bound, every
    /// identity in use was handed out, the task that is out for a poll is
    /// not in the table, the ready queue holds only tasks of the table and
    /// each of them once, and the executor is not halted while there is
    /// work.
    pub open spec fn wf(&self) -> bool {
        &&& self.task_ids().finite()
        &&& self.task_ids().len() + self.out() <= self.capacity()
        &&& forall|id: u64| self.task_ids().contains(id) ==> id < self.next_id()
        &&& self.polling() is Some ==> self.polling()->0 < self.next_id()
            && !self.task_ids().contains(self.polling()->0)
        &&& self.polling() is None ==> !self.rewoken()
        &&& self.ready().no_duplicates()
        &&& forall|i: int|
            0 <= i < self.ready().len() ==> self.task_ids().contains(#[trigger] self.ready()[i])
        &&& self.halted() ==> !self.has_work()
    }

    /// Whether `self` and `other` hold the same tasks under the same
    /// identities.
    pub open spec fn same_tasks(&self, other: &Self) -> bool {
        &&& self.task_ids() == other.task_ids()
        &&& forall|id: u64| self.task_ids().contains(id) ==> self.task(id) == other.task(id)
    }

    /// Where the task with the identity `id` stands.
    pub open spec fn state_of(&self, id: u64) -> TaskState {
        if self.polling() == Some(id) {
            TaskState::Polling
        } else if self.ready().contains(id) {
            TaskState::Ready
        } else if self.task_ids().contains(id) {
            TaskState::Pending
        } else if id < self.next_id() {
            TaskState::Retired
        } else {
            TaskState::Unknown
        }
    }

    /// Whether the identity `id` is in use: its task is in the task table or
    /// out for a poll.
    pub open spec fn in_use(&self, id: u64) -> bool {
        self.task_ids().contains(id) || self.polling() == Some(id)
    }

    /// Whether `self` can come after `before`: no identity was taken back,
    /// and no identity that `before` had handed out and that was not in use
    /// is in use now.
    pub open spec fn follows(&self, before: &Self) -> bool {
        &&& self.next_id() >= before.next_id()
        &&& forall|id: u64| #[trigger]
            self.in_use(id) && id < before.next_id() ==> before.in_use(id)
    }

    /// An identity is never used twice: once the task of an identity has
    /// ended, the identity stays retired in every state that follows, by
    /// whatever steps.
    pub proof fn lemma_retired_forever(&self, before: &Self, id: u64)
        requires
            self.wf(),
            before.wf(),
            self.follows(before),
            before.state_of(id) == TaskState::Retired,
        ensures
            self.state_of(id) == TaskState::Retired,
            !self.in_use(id),
    {
        assert(!before.in_use(id));
        assert(!self.in_use(id));
        if self.ready().contains(id) {
            let i = choose|i: int| 0 <= i < self.ready().len() && self.ready()[i] == id;
            assert(self.task_ids().contains(self.ready()[i]));
        }
    }

    /// What follows a state that follows another follows that one too.
    pub proof fn lemma_follows_transitive(&self, middle: &Self, before: &Self)
        requires
            self.follows(middle),
            middle.follows(before),
        ensures
            self.follows(before),
    {
        assert forall|id: u64| #[trigger]
            self.in_use(id) && id < before.next_id() implies before.in_use(id) by {
            assert(middle.in_use(id));
        }
    }

    /// The executor never rests while there is work: in every state it can
    /// reach, if it is halted then no task is ready and no wake is
    /// outstanding.
    pub proof fn lemma_never_halted_with_work(&self)
        requires
            self.wf(),
        ensures
            self.halted() ==> self.ready().len() == 0 && !self.rewoken(),
            self.has_work() ==> !self.halted(),
    {
    }

    /// The ready queue always fits: it is no longer than the task table is
    /// large, and that is within the capacity.
    pub proof fn lemma_ready_fits(&self)
        requires
            self.wf(),
        ensures
            self.ready().len() <= self.task_ids().len(),
            self.task_ids().len() + self.out() <= self.capacity(),
    {
        lemma_distinct_within(self.ready(), self.task_ids());
    }

    /// An executor with room for [`MAX_TASKS`] tasks and no task in it.
    pub fn new() -> (executor: Self)
        ensures
            executor.wf(),
            executor.task_ids() == Set::<u64>::empty(),
            executor.ready() == Seq::<u64>::empty(),
            executor.capacity() == MAX_TASKS,
            executor.next_id() == 0,
            executor.polling() is None,
            !executor.halted(),
    {
        Self::with_capacity(MAX_TASKS, 0)
    }

    /// An executor with room for `capacity` tasks and no task in it, whose
    /// first task will get the identity `first_id`.
    pub fn with_capacity(capacity: usize, first_id: u64) -> (executor: Self)
        ensures
            executor.wf(),
            executor.task_ids() == Set::<u64>::empty(),
            executor.ready() == Seq::<u64>::empty(),
            executor.capacity() == capacity,
            executor.next_id() == first_id,
            executor.polling() is None,
            !executor.halted(),
    {
        let executor = Executor {
            tasks: HashMap::new(),
            ready: BoundedQueue::new(capacity, 0),
            next_id: first_id,
            halted: false,
            polling: None,
            rewoken: false,
        };
        assert(executor.task_ids() =~= Set::<u64>::empty());
        executor
    }

    /// The number of tasks in the task table.
    pub fn task_count(&self) -> (n: usize)
        requires
            self.wf(),
        ensures
            n == self.task_ids().len(),
    {
        self.tasks.len()
    }

    /// The number of tasks that are to be polled.
    pub fn ready_count(&self) -> (n: usize)
        requires
            self.wf(),
        ensures
            n == self.ready().len(),
    {
        self.ready.len()
    }

    /// Whether a task with the identity `id` is in the task table.
    pub fn contains(&self, id: TaskId) -> (known: bool)
        ensures
            known == self.task_ids().contains(id.0),
    {
        self.tasks.contains_key(&id.0)
    }

    /// Whether the task with the identity `id` is to be polled.
    pub fn is_ready(&self, id: TaskId) -> (queued: bool)
        requires
            self.wf(),
        ensures
            queued == self.ready().contains(id.0),
    {
        let n: usize = self.ready.len();
        let mut i: usize = 0;
        while i < n
            invariant
                n == self.ready().len(),
                i <= n,
                forall|k: int| 0 <= k < i ==> self.ready()[k] != id.0,
            decreases n - i,
        {
            if self.ready.get(i) == id.0 {
                return true;
            }
            i = i + 1;
        }
        false
    }

    /// The identity of the task that is out for a poll, if there is one.
    pub fn polling_task(&self) -> (id: Option<TaskId>)
        ensures
            id == match self.polling() {
                Some(id) => Some(TaskId(id)),
                None => None,
            },
    {
        match self.polling {
            Some(id) => Some(TaskId(id)),
            None => None,
        }
    }

    /// Where the task with the identity `id` stands.
    pub fn state(&self, id: TaskId) -> (state: TaskState)
        requires
            self.wf(),
        ensures
            state == self.state_of(id.0),
    {
        let out: bool = match self.polling {
            Some(p) => p == id.0,
            None => false,
        };
        if out {
            TaskState::Polling
        } else if self.is_ready(id) {
            TaskState::Ready
        } else if self.contains(id) {
            TaskState::Pending
        } else if id.0 < self.next_id {
            TaskState::Retired
        } else {
            TaskState::Unknown
        }
    }

    /// Whether the executor has told the processor to halt and has not been
    /// woken since.
    pub fn is_halted(&self) -> (halted: bool)
        ensures
            halted == self.halted(),
    {
        self.halted
    }

    /// Takes `task` in: gives it a fresh identity, puts it into the task
    /// table and makes it ready for its first poll.
    ///
    /// Fails when there is no room for another task, and when the
    /// identities have run out. Then nothing changes.
    pub fn spawn(&mut self, task: T) -> (result: Result<TaskId, SpawnError>)
        requires
            old(self).wf(),
        ensures
            final(self).wf(),
            final(self).follows(old(self)),
            final(self).capacity() == old(self).capacity(),
            final(self).polling() == old(self).polling(),
            final(self).rewoken() == old(self).rewoken(),
            match result {
                Ok(id) => {
                    &&& old(self).task_ids().len() + old(self).out() < old(self).capacity()
                    &&& old(self).next_id() < u64::MAX
                    &&& id.0 == old(self).next_id()
                    &&& final(self).next_id() == id.0 + 1
                    &&& final(self).task_ids() == old(self).task_ids().insert(id.0)
                    &&& final(self).task(id.0) == task
                    &&& forall|other: u64|
                        old(self).task_ids().contains(other) ==> final(self).task(other) == old(
                            self,
                        ).task(other)
                    &&& final(self).ready() == old(self).ready().push(id.0)
                    &&& !final(self).halted()
                },
                Err(e) => {
                    &&& e == if old(self).task_ids().len() + old(self).out() >= old(
                        self,
                    ).capacity() {
                        SpawnError::TableFull
                    } else {
                        SpawnError::DuplicateId
                    }
                    &&& old(self).task_ids().len() + old(self).out() >= old(self).capacity()
                        || old(self).next_id() == u64::MAX
                    &&& final(self).same_tasks(old(self))
                    &&& final(self).ready() == old(self).ready()
                    &&& final(self).next_id() == old(self).next_id()
                    &&& final(self).halted() == old(self).halted()
                },
            },
    {
        let capacity: usize = self.ready.max_len();
        let count: usize = self.tasks.len();
        let full: bool = match self.polling {
            Some(_) => count >= capacity || count + 1 >= capacity,
            None => count >= capacity,
        };
        if full {
            return Err(SpawnError::TableFull);
        }
        if self.next_id == u64::MAX {
            return Err(SpawnError::DuplicateId);
        }
        let id: u64 = self.next_id;
        proof {
            self.lemma_ready_fits();
        }
        self.next_id = id + 1;
        self.tasks.insert(id, task);
        self.ready.push(id).unwrap();
        self.halted = false;
        assert(self.task_ids() =~= old(self).task_ids().insert(id));
        Ok(TaskId(id))
    }

    /// Makes the task of `waker` ready, unless it is ready already or is no
    /// longer known. A task that is out for a poll is noted as woken, and
    /// becomes ready when it is handed back. This is the only way in which
    /// a task gets into the ready queue from outside the executor. It
    /// allocates nothing.
    pub fn wake(&mut self, waker: Waker)
        requires
            old(self).wf(),
        ensures
            final(self).wf(),
            final(self).follows(old(self)),
            final(self).capacity() == old(self).capacity(),
            final(self).same_tasks(old(self)),
            final(self).next_id() == old(self).next_id(),
            final(self).polling() == old(self).polling(),
            final(self).ready() == woken(old(self).task_ids(), old(self).ready(), waker.task.0),
            final(self).rewoken() == (old(self).rewoken() || old(self).polling() == Some(
                waker.task.0,
            )),
            final(self).halted() == (old(self).halted() && !final(self).has_work()),
    {
        let id: TaskId = waker.task;
        let out: bool = match self.polling {
            Some(p) => p == id.0,
            None => false,
        };
        if out {
            self.rewoken = true;
            self.halted = false;
            return ;
        }
        if !self.contains(id) {
            return ;
        }
        if self.is_ready(id) {
            return ;
        }
        proof {
            lemma_distinct_within(self.ready(), self.task_ids().remove(id.0));
        }
        self.ready.push(id.0).unwrap();
        self.halted = false;
    }

    /// Takes the next ready task out of the executor, to be polled. After
    /// the poll the task is handed back with [`Executor::settle`]. While a
    /// task is out, no other is handed out.
    pub fn take_next(&mut self) -> (next: Option<(TaskId, T)>)
        requires
            old(self).wf(),
        ensures
            final(self).wf(),
            final(self).follows(old(self)),
            final(self).capacity() == old(self).capacity(),
            final(self).next_id() == old(self).next_id(),
            match next {
                Some((id, task)) => {
                    &&& old(self).polling() is None
                    &&& old(self).ready().len() > 0
                    &&& id.0 == old(self).ready()[0]
                    &&& task == old(self).task(id.0)
                    &&& final(self).ready() == old(self).ready().subrange(
                        1,
                        old(self).ready().len() as int,
                    )
                    &&& final(self).task_ids() == old(self).task_ids().remove(id.0)
                    &&& forall|other: u64|
                        final(self).task_ids().contains(other) ==> final(self).task(other) == old(
                            self,
                        ).task(other)
                    &&& final(self).polling() == Some(id.0)
                    &&& !final(self).rewoken()
                    &&& !final(self).halted()
                },
                None => {
                    &&& old(self).polling() is Some || old(self).ready().len() == 0
                    &&& final(self).same_tasks(old(self))
                    &&& final(self).ready() == old(self).ready()
                    &&& final(self).halted() == old(self).halted()
                    &&& final(self).polling() == old(self).polling()
                    &&& final(self).rewoken() == old(self).rewoken()
                },
            },
    {
        if self.polling.is_some() {
            return None;
        }
        let id: u64 = match self.ready.pop() {
            Some(id) => id,
            None => {
                return None;
            },
        };
        assert(old(self).ready()[0] == id);
        assert(old(self).task_ids().contains(id));
        let task: T = self.tasks.remove(&id).unwrap();
        self.polling = Some(id);
        self.halted = false;
        assert(self.task_ids() =~= old(self).task_ids().remove(id));
        assert forall|i: int| 0 <= i < self.ready().len() implies self.task_ids().contains(
            #[trigger] self.ready()[i],
        ) by {
            assert(self.ready()[i] == old(self).ready()[i + 1]);
        }
        Some((TaskId(id), task))
    }

    /// Hands back the task that is out for a poll, after the poll has
    /// returned `outcome`. A task that has ended is dropped and its identity
    /// is retired. A task that waits goes back into the task table, and into
    /// the ready queue too if it asked for another poll, as `woken` says, or
    /// was woken while it was out.
    pub fn settle(&mut self, task: T, outcome: Poll, woken: bool)
        requires
            old(self).wf(),
            old(self).polling() is Some,
        ensures
            final(self).wf(),
            final(self).follows(old(self)),
            final(self).capacity() == old(self).capacity(),
            final(self).next_id() == old(self).next_id(),
            final(self).polling() is None,
            !final(self).rewoken(),
            match outcome {
                Poll::Ready => {
                    &&& final(self).same_tasks(old(self))
                    &&& final(self).ready() == old(self).ready()
                    &&& final(self).halted() == old(self).halted()
                },
                Poll::Pending => {
                    &&& final(self).task_ids() == old(self).task_ids().insert(
                        old(self).polling()->0,
                    )
                    &&& final(self).task(old(self).polling()->0) == task
                    &&& forall|other: u64|
                        old(self).task_ids().contains(other) ==> final(self).task(other) == old(
                            self,
                        ).task(other)
                    &&& final(self).ready() == if woken || old(self).rewoken() {
                        old(self).ready().push(old(self).polling()->0)
                    } else {
                        old(self).ready()
                    }
                    &&& final(self).halted() == (old(self).halted() && !woken)
                },
            },
    {
        let id: u64 = self.polling.unwrap();
        let again: bool = woken || self.rewoken;
        proof {
            self.lemma_ready_fits();
        }
        self.polling = None;
        self.rewoken = false;
        match outcome {
            Poll::Ready => {},
            Poll::Pending => {
                self.tasks.insert(id, task);
                assert(self.task_ids() =~= old(self).task_ids().insert(id));
                if again {
                    self.ready.push(id).unwrap();
                    self.halted = false;
                }
            },
        }
    }

    /// Decides, once every ready task was polled, whether the processor may
    /// halt. The caller has disabled interrupts, so that no wake can slip in
    /// between this look at the ready queue and the halt.
    ///
    /// The processor halts only if there is no work at this moment,
    /// whatever was seen before.
    pub fn sleep_if_idle(&mut self) -> (action: IdleAction)
        requires
            old(self).wf(),
        ensures
            final(self).wf(),
            final(self).follows(old(self)),
            final(self).capacity() == old(self).capacity(),
            final(self).same_tasks(old(self)),
            final(self).ready() == old(self).ready(),
            final(self).next_id() == old(self).next_id(),
            final(self).polling() == old(self).polling(),
            final(self).rewoken() == old(self).rewoken(),
            action == if old(self).has_work() {
                IdleAction::Resume
            } else {
                IdleAction::Halt
            },
            final(self).halted() == (action == IdleAction::Halt),
    {
        if self.ready.is_empty() && !self.rewoken {
            self.halted = true;
            IdleAction::Halt
        } else {
            self.halted = false;
            IdleAction::Resume
        }
    }

    /// Polls every task that is ready at the time of the call, once, in the
    /// order of the ready queue, and returns their identities in the order
    /// in which they were polled. A task that ends is dropped. A task that
    /// asks for another poll while it runs is queued again and polled by the
    /// next call. Nothing is polled while a task is out for a poll already.
    pub fn run_ready_tasks<E>(&mut self, env: &mut E) -> (polled: Vec<TaskId>) where T: Task<E>
        requires
            old(self).wf(),
        ensures
            final(self).wf(),
            final(self).follows(old(self)),
            final(self).capacity() == old(self).capacity(),
            final(self).next_id() == old(self).next_id(),
            final(self).polling() == old(self).polling(),
            final(self).rewoken() == old(self).rewoken(),
            old(self).polling() is Some ==> {
                &&& polled@.len() == 0
                &&& final(self).same_tasks(old(self))
                &&& final(self).ready() == old(self).ready()
                &&& final(self).halted() == old(self).halted()
            },
            old(self).polling() is None ==> {
                &&& polled@.len() == old(self).ready().len()
                &&& forall|k: int|
                    0 <= k < polled@.len() ==> (#[trigger] polled@[k]).0 == old(self).ready()[k]
                &&& final(self).task_ids().subset_of(old(self).task_ids())
                &&& forall|id: u64|
                    old(self).task_ids().contains(id) && !old(self).ready().contains(id) ==> {
                        &&& final(self).task_ids().contains(id)
                        &&& final(self).task(id) == old(self).task(id)
                    }
                &&& forall|i: int|
                    0 <= i < final(self).ready().len() ==> old(self).ready().contains(
                        #[trigger] final(self).ready()[i],
                    )
            },
    {
        let mut polled: Vec<TaskId> = Vec::new();
        if self.polling.is_some() {
            return polled;
        }
        let n: usize = self.ready.len();
        let ghost start = old(self).ready();
        let mut k: usize = 0;
        while k < n
            invariant
                self.wf(),
                self.follows(old(self)),
                self.capacity() == old(self).capacity(),
                self.next_id() == old(self).next_id(),
                self.polling() is None,
                old(self).polling() is None,
                n == start.len(),
                start == old(self).ready(),
                old(self).wf(),
                k <= n,
                polled@.len() == k,
                forall|j: int| 0 <= j < k ==> (#[trigger] polled@[j]).0 == start[j],
                self.ready().len() >= n - k,
                forall|j: int| 0 <= j < n - k ==> self.ready()[j] == start[k + j],
                forall|j: int|
                    n - k <= j < self.ready().len() ==> exists|m: int|
                        0 <= m < k && start[m] == #[trigger] self.ready()[j],
                self.task_ids().subset_of(old(self).task_ids()),
                forall|id: u64|
                    old(self).task_ids().contains(id) && !start.contains(id) ==> {
                        &&& self.task_ids().contains(id)
                        &&& self.task(id) == old(self).task(id)
                    },
            decreases n - k,
        {
            let ghost before = self.ready();
            match self.take_next() {
                Some((id, task)) => {
                    let mut task = task;
                    let mut cx = Context::new(Waker { task: id });
                    let outcome: Poll = task.poll(env, &mut cx);
                    let again: bool = cx.is_woken();
                    assert(start[k as int] == id.0);
                    assert(start.contains(id.0));
                    self.settle(task, outcome, again);
                    polled.push(id);
                    assert forall|j: int| n - (k + 1) <= j < self.ready().len() implies exists|
                        m: int,
                    |
                        0 <= m < k + 1 && start[m] == #[trigger] self.ready()[j] by {
                        if j < before.len() - 1 {
                            assert(self.ready()[j] == before[j + 1]);
                            let m = choose|m: int| 0 <= m < k && start[m] == before[j + 1];
                            assert(start[m] == self.ready()[j]);
                        } else {
                            assert(self.ready()[j] == id.0);
                            assert(start[k as int] == self.ready()[j]);
                        }
                    }
                },
                None => {},
            }
            k = k + 1;
        }
        proof {
            assert forall|i: int| 0 <= i < self.ready().len() implies start.contains(
                #[trigger] self.ready()[i],
            ) by {
                let m = choose|m: int| 0 <= m < n && start[m] == self.ready()[i];
                assert(start[m] == self.ready()[i]);
            }
        }
        polled
    }
}

} // verus!
