//! A fixed-capacity first-in first-out queue that never allocates after it
//! was made.

use vstd::prelude::*;

verus! {

/// What pushing `item` makes of the queued items `queue`: the item is
/// appended if there is room, and dropped if there is none.
pub open spec fn pushed<T>(queue: Seq<T>, capacity: nat, item: T) -> Seq<T> {
    if queue.len() < capacity {
        queue.push(item)
    } else {
        queue
    }
}

/// What pushing each of `items` in turn makes of the queued items `queue`.
pub open spec fn pushed_all<T>(queue: Seq<T>, capacity: nat, items: Seq<T>) -> Seq<T>
    decreases items.len(),
{
    if items.len() == 0 {
        queue
    } else {
        pushed(pushed_all(queue, capacity, items.drop_last()), capacity, items.last())
    }
}

/// Overflow drops only the newest: after any run of pushes the queue holds
/// what was queued before, followed by the pushed items, in order, cut off
/// where the capacity is reached. Nothing that was queued is lost or moved.
pub proof fn lemma_overflow_drops_newest<T>(queue: Seq<T>, capacity: nat, items: Seq<T>)
    requires
        queue.len() <= capacity,
    ensures
        pushed_all(queue, capacity, items) == (queue + items).take(
            if queue.len() + items.len() <= capacity {
                (queue.len() + items.len()) as int
            } else {
                capacity as int
            },
        ),
    decreases items.len(),
{
    if items.len() == 0 {
        assert((queue + items).take(queue.len() as int) == queue);
    } else {
        let rest = items.drop_last();
        lemma_overflow_drops_newest(queue, capacity, rest);
        let before = pushed_all(queue, capacity, rest);
        if queue.len() + rest.len() < capacity {
            assert(before == queue + rest) by {
                assert((queue + rest).take((queue.len() + rest.len()) as int) == queue + rest);
            }
            assert(before.push(items.last()) == queue + items);
            assert((queue + items).take((queue.len() + items.len()) as int) == queue + items);
        } else {
            assert(before == (queue + items).take(capacity as int));
        }
    }
}

/// A queue of at most `capacity` items over a ring of slots that is laid
/// out once. Pushing onto a full queue is refused and the queue is left as
/// it was: the newest item is the one that is lost.
pub struct BoundedQueue<T> {
    slots: Vec<T>,
    head: usize,
    len: usize,
}

impl<T> BoundedQueue<T> {
    /// The slot that holds item `i` of the queue.
    spec fn slot_of(&self, i: int) -> int {
        if self.head + i >= self.slots@.len() {
            self.head + i - self.slots@.len()
        } else {
            self.head + i
        }
    }

    /// The invariant of the ring.
    #[verifier::type_invariant]
    spec fn wf(&self) -> bool {
        &&& self.len <= self.slots@.len()
        &&& self.slots@.len() > 0 ==> self.head < self.slots@.len()
        &&& self.slots@.len() == 0 ==> self.head == 0
    }

    /// The queued items, oldest first.
    pub closed spec fn view(&self) -> Seq<T> {
        Seq::new(self.len as nat, |i: int| self.slots@[self.slot_of(i)])
    }

    /// The number of items the queue can hold.
    pub closed spec fn capacity(&self) -> nat {
        self.slots@.len()
    }

}

impl<T: Copy> BoundedQueue<T> {
    /// An empty queue for `capacity` items. The slots are laid out here,
    /// each holding `fill` until an item takes its place.
    pub fn new(capacity: usize, fill: T) -> (queue: Self)
        ensures
            queue@ == Seq::<T>::empty(),
            queue.capacity() == capacity,
    {
        let mut slots: Vec<T> = Vec::new();
        let mut i: usize = 0;
        while i < capacity
            invariant
                i <= capacity,
                slots@.len() == i,
            decreases capacity - i,
        {
            slots.push(fill);
            i = i + 1;
        }
        let queue = BoundedQueue { slots, head: 0, len: 0 };
        assert(queue@ =~= Seq::<T>::empty());
        queue
    }

    /// The number of queued items.
    pub fn len(&self) -> (n: usize)
        ensures
            n == self@.len(),
    {
        proof {
            use_type_invariant(self);
        }
        self.len
    }

    /// Whether nothing is queued.
    pub fn is_empty(&self) -> (empty: bool)
        ensures
            empty == (self@.len() == 0),
    {
        proof {
            use_type_invariant(self);
        }
        self.len == 0
    }

    /// Whether the queue holds as many items as it can.
    pub fn is_full(&self) -> (full: bool)
        ensures
            full == (self@.len() == self.capacity()),
    {
        proof {
            use_type_invariant(self);
        }
        self.len == self.slots.len()
    }

    /// The number of items the queue can hold.
    pub fn max_len(&self) -> (n: usize)
        ensures
            n == self.capacity(),
            self@.len() <= n,
    {
        proof {
            use_type_invariant(self);
        }
        self.slots.len()
    }

    /// The item at position `i`, counted from the oldest.
    pub fn get(&self, i: usize) -> (item: T)
        requires
            i < self@.len(),
        ensures
            item == self@[i as int],
    {
        proof {
            use_type_invariant(self);
        }
        let room: usize = self.slots.len() - i;
        let at: usize = if self.head >= room {
            self.head - room
        } else {
            self.head + i
        };
        self.slots[at]
    }

    /// Appends `item`, unless the queue is full: then `item` is handed back
    /// and the queue stays as it was.
    pub fn push(&mut self, item: T) -> (result: Result<(), T>)
        ensures
            final(self).capacity() == old(self).capacity(),
            final(self)@ == pushed(old(self)@, old(self).capacity(), item),
            result == if old(self)@.len() < old(self).capacity() {
                Ok::<(), T>(())
            } else {
                Err::<(), T>(item)
            },
    {
        proof {
            use_type_invariant(&*self);
        }
        let capacity: usize = self.slots.len();
        if self.len == capacity {
            return Err(item);
        }
        let room: usize = capacity - self.len;
        let at: usize = if self.head >= room {
            self.head - room
        } else {
            self.head + self.len
        };
        self.slots[at] = item;
        self.len = self.len + 1;
        assert(self@ =~= old(self)@.push(item));
        Ok(())
    }

    /// Takes the oldest item out, if there is one.
    pub fn pop(&mut self) -> (item: Option<T>)
        ensures
            final(self).capacity() == old(self).capacity(),
            old(self)@.len() == 0 ==> {
                &&& item is None
                &&& final(self)@ == old(self)@
            },
            old(self)@.len() > 0 ==> {
                &&& item == Some(old(self)@[0])
                &&& final(self)@ == old(self)@.subrange(1, old(self)@.len() as int)
            },
    {
        proof {
            use_type_invariant(&*self);
        }
        if self.len == 0 {
            return None;
        }
        let item: T = self.slots[self.head];
        let ghost before = *self;
        self.head = if self.head == self.slots.len() - 1 {
            0
        } else {
            self.head + 1
        };
        self.len = self.len - 1;
        assert(before@[0] == item);
        assert forall|i: int| 0 <= i < self.len implies self.slots@[self.slot_of(i)]
            == before.slots@[before.slot_of(i + 1)] by {}
        assert(self@ =~= before@.subrange(1, before@.len() as int));
        Some(item)
    }
}

} // verus!
