//! The heap allocator: a first-fit free list over one range of addresses.
//!
//! The allocator keeps books; it never reads or writes the memory it hands
//! out. Its state is the list of holes, the maximal runs of free bytes, in
//! ascending order.

use vstd::arithmetic::div_mod::{lemma_fundamental_div_mod, lemma_mod_multiples_basic};
use vstd::arithmetic::mul::lemma_mul_is_distributive_add;
use vstd::prelude::*;

verus! {

/// A run of free bytes: from `start` up to, but not including, `end`.
#[derive(Clone, Copy, Debug, PartialEq, Eq, Structural)]
pub struct Hole {
    pub start: u64,
    pub end: u64,
}

/// Whether the address `a` lies in the hole `h`.
pub open spec fn in_hole(h: Hole, a: int) -> bool {
    h.start <= a < h.end
}

/// Whether the address `a` is free.
pub open spec fn is_free(holes: Seq<Hole>, a: int) -> bool {
    exists|i: int| 0 <= i < holes.len() && #[trigger] in_hole(holes[i], a)
}

/// The free addresses.
pub open spec fn free_set(holes: Seq<Hole>) -> Set<int> {
    Set::new(|a: int| is_free(holes, a))
}

/// The addresses of the block of `size` bytes at `p`.
pub open spec fn block(p: int, size: int) -> Set<int> {
    Set::new(|a: int| p <= a < p + size)
}

/// Whether `holes` is a list of holes of the range from `base` to `top`:
/// every hole is not empty and lies in the range, the holes ascend, and
/// between any two of them lies at least one byte that is not free.
pub open spec fn holes_wf(holes: Seq<Hole>, base: int, top: int) -> bool {
    &&& forall|i: int|
        0 <= i < holes.len() ==> base <= (#[trigger] holes[i]).start < holes[i].end <= top
    &&& forall|i: int, j: int|
        0 <= i < j < holes.len() ==> (#[trigger] holes[i]).end < (#[trigger] holes[j]).start
}

/// The lowest multiple of `align` that is not below `start`.
pub open spec fn aligned_up(start: int, align: int) -> int {
    if start % align == 0 {
        start
    } else {
        start + align - start % align
    }
}

/// Whether a block of `size` bytes, aligned to `align`, fits into `h`.
pub open spec fn fits(h: Hole, size: u64, align: u64) -> bool {
    size > 0 && align > 0 && aligned_up(h.start as int, align as int) + size <= h.end
}

/// Whether hole `i` is the first one that a block of `size` bytes, aligned
/// to `align`, fits into.
pub open spec fn first_fit(holes: Seq<Hole>, i: int, size: u64, align: u64) -> bool {
    &&& 0 <= i < holes.len()
    &&& fits(holes[i], size, align)
    &&& forall|j: int| 0 <= j < i ==> !fits(#[trigger] holes[j], size, align)
}

/// The holes after the block of `size` bytes at `p` was taken out of hole
/// `i`: what is left of the hole before the block and after it takes the
/// hole's place.
pub open spec fn allocated(holes: Seq<Hole>, i: int, p: int, size: int) -> Seq<Hole> {
    let h = holes[i];
    let front = if h.start < p {
        seq![Hole { start: h.start, end: p as u64 }]
    } else {
        Seq::<Hole>::empty()
    };
    let back = if p + size < h.end {
        seq![Hole { start: (p + size) as u64, end: h.end }]
    } else {
        Seq::<Hole>::empty()
    };
    holes.take(i) + front + back + holes.skip(i + 1)
}

/// The holes after the bytes from `ptr` to `end` became free again, where
/// `k` holes lie below them: the bytes form a hole together with the holes
/// that they touch.
pub open spec fn freed(holes: Seq<Hole>, k: int, ptr: u64, end: u64) -> Seq<Hole> {
    let joins_prev = k > 0 && holes[k - 1].end == ptr;
    let joins_next = k < holes.len() && holes[k].start == end;
    let start = if joins_prev {
        holes[k - 1].start
    } else {
        ptr
    };
    let stop = if joins_next {
        holes[k].end
    } else {
        end
    };
    holes.take(
        if joins_prev {
            k - 1
        } else {
            k
        },
    ) + seq![Hole { start, end: stop }] + holes.skip(
        if joins_next {
            k + 1
        } else {
            k
        },
    )
}

/// Taking a block out of a hole leaves a list of holes in which exactly the
/// bytes of the block are no longer free.
pub proof fn lemma_allocated(holes: Seq<Hole>, base: int, top: int, i: int, p: int, size: int)
    requires
        holes_wf(holes, base, top),
        0 <= i < holes.len(),
        size > 0,
        holes[i].start <= p,
        p + size <= holes[i].end,
    ensures
        holes_wf(allocated(holes, i, p, size), base, top),
        forall|a: int|
            #[trigger] is_free(allocated(holes, i, p, size), a) <==> is_free(holes, a) && !(p <= a
                < p + size),
        block(p, size).subset_of(free_set(holes)),
        free_set(allocated(holes, i, p, size)) == free_set(holes).difference(block(p, size)),
{
    let h = holes[i];
    let after = allocated(holes, i, p, size);
    let front: Seq<Hole> = if h.start < p {
        seq![Hole { start: h.start, end: p as u64 }]
    } else {
        Seq::<Hole>::empty()
    };
    let back: Seq<Hole> = if p + size < h.end {
        seq![Hole { start: (p + size) as u64, end: h.end }]
    } else {
        Seq::<Hole>::empty()
    };
    let f = front.len() as int;
    let b = back.len() as int;
    assert(after.len() == holes.len() - 1 + f + b);
    assert forall|j: int| 0 <= j < after.len() implies (if j < i {
        after[j] == holes[j]
    } else if j < i + f {
        after[j] == front[0]
    } else if j < i + f + b {
        after[j] == back[0]
    } else {
        after[j] == holes[j - f - b + 1]
    }) by {}
    assert forall|j: int| 0 <= j < after.len() implies base <= (#[trigger] after[j]).start
        < after[j].end <= top by {
        if j < i {
            assert(after[j] == holes[j]);
        } else if j >= i + f + b {
            assert(after[j] == holes[j - f - b + 1]);
        }
    }
    assert forall|j: int, l: int| 0 <= j < l < after.len() implies (#[trigger] after[j]).end < (
    #[trigger] after[l]).start by {
        let hj = if j < i {
            holes[j]
        } else if j < i + f + b {
            h
        } else {
            holes[j - f - b + 1]
        };
        let hl = if l < i {
            holes[l]
        } else if l < i + f + b {
            h
        } else {
            holes[l - f - b + 1]
        };
        assert(after[j].end <= hj.end);
        assert(hl.start <= after[l].start);
    }
    assert forall|a: int| is_free(after, a) <==> is_free(holes, a) && !(p <= a < p + size) by {
        if is_free(after, a) {
            let j = choose|j: int| 0 <= j < after.len() && #[trigger] in_hole(after[j], a);
            if j < i {
                assert(in_hole(holes[j], a));
            } else if j < i + f + b {
                assert(in_hole(holes[i], a));
            } else {
                assert(in_hole(holes[j - f - b + 1], a));
                assert(holes[i].end < holes[j - f - b + 1].start);
            }
        }
        if is_free(holes, a) && !(p <= a < p + size) {
            let j = choose|j: int| 0 <= j < holes.len() && #[trigger] in_hole(holes[j], a);
            if j < i {
                assert(in_hole(after[j], a));
            } else if j == i {
                if a < p {
                    assert(in_hole(after[i], a));
                } else {
                    assert(in_hole(after[i + f], a));
                }
            } else {
                assert(in_hole(after[j + f + b - 1], a));
            }
        }
    }
    assert forall|a: int| block(p, size).contains(a) implies free_set(holes).contains(a) by {
        assert(in_hole(holes[i], a));
    }
    assert(free_set(after) =~= free_set(holes).difference(block(p, size)));
}

/// Giving bytes back that were not free leaves a list of holes in which
/// exactly these bytes are free in addition.
pub proof fn lemma_freed(holes: Seq<Hole>, base: int, top: int, k: int, ptr: u64, end: u64)
    requires
        holes_wf(holes, base, top),
        base <= ptr < end <= top,
        0 <= k <= holes.len(),
        forall|j: int| 0 <= j < k ==> (#[trigger] holes[j]).end <= ptr,
        forall|j: int| k <= j < holes.len() ==> end <= (#[trigger] holes[j]).start,
    ensures
        holes_wf(freed(holes, k, ptr, end), base, top),
        forall|a: int|
            #[trigger] is_free(freed(holes, k, ptr, end), a) <==> is_free(holes, a) || ptr <= a
                < end,
        free_set(freed(holes, k, ptr, end)) == free_set(holes).union(
            block(ptr as int, end - ptr),
        ),
{
    let after = freed(holes, k, ptr, end);
    let joins_prev = k > 0 && holes[k - 1].end == ptr;
    let joins_next = k < holes.len() && holes[k].start == end;
    let lo = if joins_prev {
        k - 1
    } else {
        k
    };
    let hi = if joins_next {
        k + 1
    } else {
        k
    };
    let merged = after[lo];
    assert(after.len() == lo + 1 + holes.len() - hi);
    assert forall|j: int| 0 <= j < after.len() implies (if j < lo {
        after[j] == holes[j]
    } else if j == lo {
        after[j] == merged
    } else {
        after[j] == holes[j - lo - 1 + hi]
    }) by {}
    assert forall|j: int| 0 <= j < after.len() implies base <= (#[trigger] after[j]).start
        < after[j].end <= top by {
        if j < lo {
            assert(after[j] == holes[j]);
        } else if j > lo {
            assert(after[j] == holes[j - lo - 1 + hi]);
        }
    }
    assert forall|j: int, l: int| 0 <= j < l < after.len() implies (#[trigger] after[j]).end < (
    #[trigger] after[l]).start by {
        if l < lo {
            assert(after[j] == holes[j] && after[l] == holes[l]);
        } else if l == lo {
            assert(after[j] == holes[j]);
            if joins_prev {
                assert(holes[j].end < holes[k - 1].start);
            } else {
                assert(holes[j].end <= ptr);
                if k > 0 {
                    assert(holes[k - 1].end <= ptr);
                }
            }
        } else if j == lo {
            assert(after[l] == holes[l - lo - 1 + hi]);
            if joins_next {
                assert(holes[k].end < holes[l - lo - 1 + hi].start);
            } else {
                assert(end <= holes[l - lo - 1 + hi].start);
            }
        } else if j < lo {
            assert(after[j] == holes[j] && after[l] == holes[l - lo - 1 + hi]);
        } else {
            assert(after[j] == holes[j - lo - 1 + hi] && after[l] == holes[l - lo - 1 + hi]);
        }
    }
    assert forall|a: int| is_free(after, a) <==> is_free(holes, a) || ptr <= a < end by {
        if is_free(after, a) {
            let j = choose|j: int| 0 <= j < after.len() && #[trigger] in_hole(after[j], a);
            if j < lo {
                assert(in_hole(holes[j], a));
            } else if j == lo {
                if a < ptr {
                    assert(in_hole(holes[k - 1], a));
                } else if a >= end {
                    assert(in_hole(holes[k], a));
                }
            } else {
                assert(in_hole(holes[j - lo - 1 + hi], a));
            }
        }
        if is_free(holes, a) {
            let j = choose|j: int| 0 <= j < holes.len() && #[trigger] in_hole(holes[j], a);
            if j < lo {
                assert(in_hole(after[j], a));
            } else if j < hi {
                assert(in_hole(after[lo], a));
            } else {
                assert(in_hole(after[j - hi + lo + 1], a));
            }
        }
        if ptr <= a < end {
            assert(in_hole(after[lo], a));
        }
    }
    assert(free_set(after) =~= free_set(holes).union(block(ptr as int, end - ptr)));
}

/// A block that was allocated and has not been given back.
pub struct Allocation {
    pub ptr: int,
    pub size: int,
}

/// Whether the blocks `x` and `y` share a byte.
pub open spec fn overlap(x: Allocation, y: Allocation) -> bool {
    x.ptr < y.ptr + y.size && y.ptr < x.ptr + x.size
}

/// Whether the books are sound: every live block lies in the range from
/// `base` to `top`, none of its bytes is free, and no two live blocks share
/// a byte.
pub open spec fn sound(free: Set<int>, live: Set<Allocation>, base: int, top: int) -> bool {
    &&& forall|x: Allocation| #[trigger]
        live.contains(x) ==> x.size > 0 && base <= x.ptr && x.ptr + x.size <= top
    &&& forall|x: Allocation, a: int|
        #![trigger live.contains(x), free.contains(a)]
        live.contains(x) && x.ptr <= a < x.ptr + x.size ==> !free.contains(a)
    &&& forall|x: Allocation, y: Allocation|
        #![trigger live.contains(x), live.contains(y)]
        live.contains(x) && live.contains(y) && x != y ==> !overlap(x, y)
}

/// Allocation keeps the books sound. If a block of free bytes inside the
/// range is taken out of the free set, as [`Heap::allocate`] does, it
/// overlaps no block that is live, and the books with the new block are
/// sound again.
pub proof fn lemma_allocate_sound(
    free: Set<int>,
    live: Set<Allocation>,
    base: int,
    top: int,
    p: int,
    size: int,
)
    requires
        sound(free, live, base, top),
        size > 0,
        base <= p,
        p + size <= top,
        block(p, size).subset_of(free),
    ensures
        forall|x: Allocation| live.contains(x) ==> !overlap(x, Allocation { ptr: p, size }),
        sound(free.difference(block(p, size)), live.insert(Allocation { ptr: p, size }), base, top),
{
    let new = Allocation { ptr: p, size };
    assert forall|x: Allocation| live.contains(x) implies !overlap(x, new) by {
        if overlap(x, new) {
            let a = if x.ptr > p {
                x.ptr
            } else {
                p
            };
            assert(block(p, size).contains(a));
            assert(free.contains(a));
        }
    }
    let free2 = free.difference(block(p, size));
    let live2 = live.insert(new);
    assert forall|x: Allocation, a: int|
        #![trigger live2.contains(x), free2.contains(a)]
        live2.contains(x) && x.ptr <= a < x.ptr + x.size implies !free2.contains(a) by {
        if x == new {
            assert(block(p, size).contains(a));
        } else {
            assert(live.contains(x));
            assert(!free.contains(a));
        }
    }
    assert forall|x: Allocation, y: Allocation|
        #![trigger live2.contains(x), live2.contains(y)]
        live2.contains(x) && live2.contains(y) && x != y implies !overlap(x, y) by {
        if x == new {
            assert(live.contains(y));
        } else if y == new {
            assert(live.contains(x));
        } else {
            assert(live.contains(x) && live.contains(y));
        }
    }
}

/// Deallocation keeps the books sound. A live block can always be given
/// back: it lies in the range and none of its bytes is free, which is what
/// [`Heap::deallocate`] asks. Once its bytes are free again, the books
/// without the block are sound.
pub proof fn lemma_deallocate_sound(
    free: Set<int>,
    live: Set<Allocation>,
    base: int,
    top: int,
    x: Allocation,
)
    requires
        sound(free, live, base, top),
        live.contains(x),
    ensures
        x.size > 0 && base <= x.ptr && x.ptr + x.size <= top,
        forall|a: int| x.ptr <= a < x.ptr + x.size ==> !free.contains(a),
        sound(free.union(block(x.ptr, x.size)), live.remove(x), base, top),
{
    assert forall|a: int| x.ptr <= a < x.ptr + x.size implies !free.contains(a) by {
        assert(live.contains(x));
    }
    let free2 = free.union(block(x.ptr, x.size));
    let live2 = live.remove(x);
    assert forall|y: Allocation, a: int|
        #![trigger live2.contains(y), free2.contains(a)]
        live2.contains(y) && y.ptr <= a < y.ptr + y.size implies !free2.contains(a) by {
        assert(live.contains(y) && live.contains(x) && y != x);
        assert(!overlap(y, x));
        assert(!free.contains(a));
    }
    assert forall|y: Allocation, z: Allocation|
        #![trigger live2.contains(y), live2.contains(z)]
        live2.contains(y) && live2.contains(z) && y != z implies !overlap(y, z) by {
        assert(live.contains(y) && live.contains(z));
    }
    assert forall|y: Allocation| #[trigger]
        live2.contains(y) implies y.size > 0 && base <= y.ptr && y.ptr + y.size <= top by {
        assert(live.contains(y));
    }
}

/// Why bytes could not be given back to the heap.
#[derive(Clone, Copy, Debug, PartialEq, Eq, Structural)]
pub enum FreeError {
    /// The block is empty, or does not lie in the heap's range.
    OutOfRange,
    /// Some byte of the block is free already.
    NotAllocated,
}

/// The heap allocator over the range of `size` bytes at `base`.
#[derive(Debug)]
pub struct Heap {
    base: u64,
    size: u64,
    holes: Vec<Hole>,
}

/// The lowest multiple of `align` that is not below `start`, if it is an
/// address.
fn align_up(start: u64, align: u64) -> (aligned: Option<u64>)
    requires
        align > 0,
    ensures
        aligned_up(start as int, align as int) % (align as int) == 0,
        aligned_up(start as int, align as int) >= start,
        match aligned {
            Some(p) => p == aligned_up(start as int, align as int),
            None => aligned_up(start as int, align as int) > u64::MAX,
        },
{
    let rem: u64 = start % align;
    proof {
        let s = start as int;
        let a = align as int;
        lemma_fundamental_div_mod(s, a);
        if rem != 0 {
            lemma_mul_is_distributive_add(a, s / a, 1);
            assert(s + a - s % a == a * (s / a + 1));
            lemma_mod_multiples_basic(s / a + 1, a);
            assert(a * (s / a + 1) == (s / a + 1) * a) by (nonlinear_arith);
        }
    }
    if rem == 0 {
        Some(start)
    } else {
        start.checked_add(align - rem)
    }
}

impl Heap {
    /// The holes, in ascending order.
    pub closed spec fn view(&self) -> Seq<Hole> {
        self.holes@
    }

    /// The address of the heap's first byte.
    pub closed spec fn base(&self) -> u64 {
        self.base
    }

    /// The size of the heap in bytes.
    pub closed spec fn size(&self) -> u64 {
        self.size
    }

    /// The address just above the heap's last byte.
    pub open spec fn top(&self) -> int {
        self.base() + self.size()
    }

    /// The invariant of the heap: its range ends within the address space,
    /// and its holes are a list of holes of its range.
    pub open spec fn wf(&self) -> bool {
        &&& self.top() <= u64::MAX
        &&& holes_wf(self@, self.base() as int, self.top())
    }

    /// The addresses of the heap that are free.
    pub open spec fn free(&self) -> Set<int> {
        free_set(self@)
    }

    /// The heap over the range of `size` bytes at `base`, all of it free.
    pub fn init(base: u64, size: u64) -> (heap: Heap)
        requires
            base + size <= u64::MAX,
        ensures
            heap.wf(),
            heap.base() == base,
            heap.size() == size,
            heap@ == if size > 0 {
                seq![Hole { start: base, end: (base + size) as u64 }]
            } else {
                Seq::<Hole>::empty()
            },
            heap.free() == block(base as int, size as int),
    {
        let mut holes: Vec<Hole> = Vec::new();
        if size > 0 {
            holes.push(Hole { start: base, end: base + size });
        }
        let heap = Heap { base, size, holes };
        assert(heap@ =~= if size > 0 {
            seq![Hole { start: base, end: (base + size) as u64 }]
        } else {
            Seq::<Hole>::empty()
        });
        assert forall|a: int| is_free(heap@, a) <==> base <= a < base + size by {
            if base <= a < base + size {
                assert(in_hole(heap@[0], a));
            }
        }
        assert(heap.free() =~= block(base as int, size as int));
        heap
    }

    /// The address of the heap's first byte.
    pub fn bottom(&self) -> (addr: u64)
        ensures
            addr == self.base(),
    {
        self.base
    }

    /// The size of the heap in bytes.
    pub fn len(&self) -> (size: u64)
        ensures
            size == self.size(),
    {
        self.size
    }

    /// The number of holes.
    pub fn hole_count(&self) -> (n: usize)
        ensures
            n == self@.len(),
    {
        self.holes.len()
    }

    /// Allocates `size` bytes at an address that is a multiple of `align`:
    /// the lowest such address in the first hole that has room. Returns
    /// nothing, and changes nothing, if `size` or `align` is zero or no hole
    /// has room.
    pub fn allocate(&mut self, size: u64, align: u64) -> (result: Option<u64>)
        requires
            old(self).wf(),
        ensures
            final(self).wf(),
            final(self).base() == old(self).base(),
            final(self).size() == old(self).size(),
            match result {
                Some(p) => {
                    &&& exists|i: int|
                        {
                            &&& #[trigger] first_fit(old(self)@, i, size, align)
                            &&& p == aligned_up(old(self)@[i].start as int, align as int)
                            &&& final(self)@ == allocated(old(self)@, i, p as int, size as int)
                        }
                    &&& p % align == 0
                    &&& old(self).base() <= p
                    &&& p + size <= old(self).top()
                    &&& block(p as int, size as int).subset_of(old(self).free())
                    &&& final(self).free() == old(self).free().difference(
                        block(p as int, size as int),
                    )
                },
                None => {
                    &&& forall|i: int|
                        0 <= i < old(self)@.len() ==> !fits(#[trigger] old(self)@[i], size, align)
                    &&& final(self)@ == old(self)@
                },
            },
    {
        if size == 0 || align == 0 {
            return None;
        }
        let mut i: usize = 0;
        while i < self.holes.len()
            invariant
                self.wf(),
                *self == *old(self),
                size > 0,
                align > 0,
                i <= self.holes@.len(),
                forall|j: int| 0 <= j < i ==> !fits(#[trigger] self.holes@[j], size, align),
            decreases self.holes@.len() - i,
        {
            let hole: Hole = self.holes[i];
            let fit: Option<u64> = match align_up(hole.start, align) {
                Some(p) => match p.checked_add(size) {
                    Some(stop) => if stop <= hole.end {
                        Some(p)
                    } else {
                        None
                    },
                    None => None,
                },
                None => None,
            };
            match fit {
                Some(p) => {
                    let stop: u64 = p + size;
                    let ghost before = self.holes@;
                    proof {
                        lemma_allocated(
                            before,
                            self.base as int,
                            self.base + self.size,
                            i as int,
                            p as int,
                            size as int,
                        );
                        assert(first_fit(before, i as int, size, align));
                    }
                    if hole.start < p && stop < hole.end {
                        self.holes[i] = Hole { start: stop, end: hole.end };
                        self.holes.insert(i, Hole { start: hole.start, end: p });
                    } else if hole.start < p {
                        self.holes[i] = Hole { start: hole.start, end: p };
                    } else if stop < hole.end {
                        self.holes[i] = Hole { start: stop, end: hole.end };
                    } else {
                        self.holes.remove(i);
                    }
                    proof {
                        let after = allocated(before, i as int, p as int, size as int);
                        assert(self.holes@ =~= after);

                    }
                    return Some(p);
                },
                None => {},
            }
            i = i + 1;
        }
        None
    }

    /// Gives the block of `size` bytes at `ptr` back to the heap. The block
    /// joins the holes that it touches. `align` is the alignment that the
    /// block was allocated with; the books do not need it.
    ///
    /// Fails, and changes nothing, if the block is empty or not within the
    /// heap's range, or if a byte of it is free already.
    pub fn deallocate(&mut self, ptr: u64, size: u64, align: u64) -> (result: Result<
        (),
        FreeError,
    >)
        requires
            old(self).wf(),
        ensures
            final(self).wf(),
            final(self).base() == old(self).base(),
            final(self).size() == old(self).size(),
            ({
                let inside = size > 0 && old(self).base() <= ptr && ptr + size <= old(self).top();
                let taken = forall|a: int| ptr <= a < ptr + size ==> !is_free(old(self)@, a);
                match result {
                    Ok(()) => {
                        &&& inside
                        &&& taken
                        &&& final(self).free() == old(self).free().union(
                            block(ptr as int, size as int),
                        )
                    },
                    Err(FreeError::OutOfRange) => !inside && final(self)@ == old(self)@,
                    Err(FreeError::NotAllocated) => inside && !taken && final(self)@ == old(
                        self,
                    )@,
                }
            }),
    {
        if size == 0 || ptr < self.base || self.size < size || ptr - self.base > self.size - size {
            return Err(FreeError::OutOfRange);
        }
        let end: u64 = ptr + size;
        let mut k: usize = 0;
        while k < self.holes.len() && self.holes[k].end <= ptr
            invariant
                self.wf(),
                *self == *old(self),
                k <= self.holes@.len(),
                forall|j: int| 0 <= j < k ==> (#[trigger] self.holes@[j]).end <= ptr,
            decreases self.holes@.len() - k,
        {
            k = k + 1;
        }
        let ghost before = self.holes@;
        if k < self.holes.len() && self.holes[k].start < end {
            proof {
                let h = before[k as int];
                let a = if h.start > ptr {
                    h.start as int
                } else {
                    ptr as int
                };
                assert(in_hole(h, a));
                assert(is_free(before, a));
            }
            return Err(FreeError::NotAllocated);
        }
        proof {
            assert forall|j: int| k <= j < before.len() implies end <= (
            #[trigger] before[j]).start by {
                if j > k {
                    assert(before[k as int].end < before[j].start);
                }
            }
            assert forall|a: int| ptr <= a < ptr + size implies !is_free(before, a) by {
                if is_free(before, a) {
                    let j = choose|j: int|
                        0 <= j < before.len() && #[trigger] in_hole(before[j], a);
                    if j < k {
                        assert(before[j].end <= ptr);
                    } else {
                        assert(end <= before[j].start);
                    }
                }
            }
            lemma_freed(before, self.base as int, self.base + self.size, k as int, ptr, end);
        }
        let joins_prev: bool = k > 0 && self.holes[k - 1].end == ptr;
        let joins_next: bool = k < self.holes.len() && self.holes[k].start == end;
        if joins_prev && joins_next {
            let next: Hole = self.holes.remove(k);
            let prev: Hole = self.holes[k - 1];
            self.holes[k - 1] = Hole { start: prev.start, end: next.end };
        } else if joins_prev {
            let prev: Hole = self.holes[k - 1];
            self.holes[k - 1] = Hole { start: prev.start, end };
        } else if joins_next {
            let next: Hole = self.holes[k];
            self.holes[k] = Hole { start: ptr, end: next.end };
        } else {
            self.holes.insert(k, Hole { start: ptr, end });
        }
        proof {
            let after = freed(before, k as int, ptr, end);
            assert(self.holes@ =~= after);

        }
        Ok(())
    }
}

} // verus!
