//! First-in first-out ring buffer of fixed capacity.
//!
//! The buffer never allocates after construction. Its capacity is a power of
//! two, so that an index wraps by masking, and one slot always stays free:
//! a buffer of capacity `n` holds at most `n - 1` items.

use vstd::arithmetic::div_mod::{lemma_mod_self_0, lemma_small_mod};
use vstd::arithmetic::power2::{lemma2_to64, lemma_pow2_pos, lemma_pow2_strictly_increases, pow2};
use vstd::bits::{lemma_usize_low_bits_mask_is_mod, low_bits_mask};
use vstd::prelude::*;

verus! {

/// `n` is 1, 2, 4, 8, ...
pub open spec fn is_power_of_two(n: int) -> bool {
    exists|k: nat| n == #[trigger] pow2(k)
}

/// Masking with `capacity - 1` is the remainder by `capacity`.
proof fn lemma_mask_is_mod(x: usize, capacity: usize)
    requires
        is_power_of_two(capacity as int),
    ensures
        capacity >= 1,
        x & ((capacity - 1) as usize) == x % capacity,
{
    let k = choose|k: nat| capacity as int == #[trigger] pow2(k);
    lemma_pow2_pos(k);
    lemma2_to64();
    if k >= usize::BITS {
        if k > usize::BITS {
            lemma_pow2_strictly_increases(usize::BITS as nat, k);
        }
        assert(false);
    }
    assert(low_bits_mask(k) == capacity - 1);
    lemma_usize_low_bits_mask_is_mod(x, k);
}

/// The slot that follows `index` in a ring of `capacity` slots.
pub open spec fn ring_next(index: int, capacity: int) -> int {
    if index + 1 == capacity {
        0
    } else {
        index + 1
    }
}

/// The slot `offset` places after `head` in a ring of `capacity` slots.
pub open spec fn ring_at(head: int, offset: int, capacity: int) -> int {
    if head + offset < capacity {
        head + offset
    } else {
        head + offset - capacity
    }
}

/// The number of slots from `head` up to `tail`, going round the ring.
pub open spec fn ring_distance(head: int, tail: int, capacity: int) -> int {
    if tail >= head {
        tail - head
    } else {
        tail + capacity - head
    }
}

/// A ring buffer. Items leave in the order in which they entered.
pub struct Fifo<T> where T: Sized + Copy {
    vec: Vec<T>,
    head: usize,
    tail: usize,
}

impl<T> Fifo<T> where T: Sized + Default + Copy {
    /// The number of slots, fixed at construction.
    pub closed spec fn capacity(&self) -> nat {
        self.vec@.len()
    }

    /// The slots form a ring of power-of-two size and both cursors lie in it.
    pub closed spec fn wf(&self) -> bool {
        &&& is_power_of_two(self.vec@.len() as int)
        &&& self.vec@.len() <= usize::MAX
        &&& self.head < self.vec@.len()
        &&& self.tail < self.vec@.len()
    }

    /// The queued items, oldest first.
    pub closed spec fn view(&self) -> Seq<T> {
        Seq::new(
            ring_distance(self.head as int, self.tail as int, self.vec@.len() as int) as nat,
            |i: int| self.vec@[ring_at(self.head as int, i, self.vec@.len() as int)],
        )
    }

    /// A buffer holds fewer items than it has slots.
    pub proof fn lemma_len_below_capacity(&self)
        requires
            self.wf(),
        ensures
            self@.len() < self.capacity(),
            is_power_of_two(self.capacity() as int),
    {
    }

    /// An empty buffer of `capacity` slots.
    pub fn new(capacity: usize) -> (r: Self)
        requires
            is_power_of_two(capacity as int),
        ensures
            r.wf(),
            r.capacity() == capacity,
            r@ == Seq::<T>::empty(),
    {
        proof {
            lemma_mask_is_mod(0, capacity);
        }
        let mut vec: Vec<T> = Vec::with_capacity(capacity);
        vec.resize(capacity, T::default());
        let r = Self { vec, head: 0, tail: 0 };
        assert(r@ =~= Seq::<T>::empty());
        r
    }

    /// The mask that wraps an index: the capacity less one.
    #[inline]
    pub fn mask(&self) -> (r: usize)
        requires
            self.wf(),
        ensures
            r == self.capacity() - 1,
    {
        self.vec.len() - 1
    }

    #[inline]
    pub fn is_empty(&self) -> (r: bool)
        requires
            self.wf(),
        ensures
            r == (self@.len() == 0),
    {
        self.head == self.tail
    }

    /// Appends `data`, or hands it back when no slot is free.
    pub fn enqueue(&mut self, data: T) -> (r: Result<(), T>)
        requires
            old(self).wf(),
        ensures
            final(self).wf(),
            final(self).capacity() == old(self).capacity(),
            old(self)@.len() + 1 < old(self).capacity() ==> r == Ok::<(), T>(()) && final(self)@
                == old(self)@.push(data),
            old(self)@.len() + 1 >= old(self).capacity() ==> r == Err::<(), T>(data)
                && final(self)@ == old(self)@,
    {
        let mask = self.mask();
        let old_tail = self.tail;
        let new_tail = (old_tail + 1) & mask;
        proof {
            let capacity = self.vec.len();
            lemma_mask_is_mod((old_tail + 1) as usize, capacity);
            if old_tail + 1 == capacity {
                lemma_mod_self_0(capacity as int);
            } else {
                lemma_small_mod((old_tail + 1) as nat, capacity as nat);
            }
            assert(new_tail == ring_next(old_tail as int, capacity as int));
        }
        if new_tail == self.head {
            Err(data)
        } else {
            self.vec[old_tail] = data;
            self.tail = new_tail;
            assert(final(self)@ =~= old(self)@.push(data));
            Ok(())
        }
    }

    /// Removes and returns the oldest item, if there is one.
    pub fn dequeue(&mut self) -> (r: Option<T>)
        requires
            old(self).wf(),
        ensures
            final(self).wf(),
            final(self).capacity() == old(self).capacity(),
            old(self)@.len() == 0 ==> r is None && final(self)@ == old(self)@,
            old(self)@.len() > 0 ==> r == Some(old(self)@[0])
                && final(self)@ == old(self)@.drop_first(),
    {
        if self.is_empty() {
            None
        } else {
            let mask = self.mask();
            let head = self.head;
            let r = self.vec[head];
            let new_head = (head + 1) & mask;
            proof {
                let capacity = self.vec.len();
                lemma_mask_is_mod((head + 1) as usize, capacity);
                if head + 1 == capacity {
                    lemma_mod_self_0(capacity as int);
                } else {
                    lemma_small_mod((head + 1) as nat, capacity as nat);
                }
                assert(new_head == ring_next(head as int, capacity as int));
            }
            self.head = new_head;
            assert(final(self)@ =~= old(self)@.drop_first());
            Some(r)
        }
    }
}

/// A ring buffer for data that crosses between thread context and interrupt
/// context: the kernel runs each operation with interrupts masked.
pub struct InterlockedFifo<T> where T: Sized + Copy {
    wrapped: Fifo<T>,
}

impl<T> InterlockedFifo<T> where T: Sized + Default + Copy {
    /// The number of slots, fixed at construction.
    pub closed spec fn capacity(&self) -> nat {
        self.wrapped.capacity()
    }

    pub closed spec fn wf(&self) -> bool {
        self.wrapped.wf()
    }

    /// The queued items, oldest first.
    pub closed spec fn view(&self) -> Seq<T> {
        self.wrapped@
    }

    /// A buffer holds fewer items than it has slots.
    pub proof fn lemma_len_below_capacity(&self)
        requires
            self.wf(),
        ensures
            self@.len() < self.capacity(),
            is_power_of_two(self.capacity() as int),
    {
        self.wrapped.lemma_len_below_capacity();
    }

    /// An empty buffer of `capacity` slots.
    pub fn new(capacity: usize) -> (r: Self)
        requires
            is_power_of_two(capacity as int),
        ensures
            r.wf(),
            r.capacity() == capacity,
            r@ == Seq::<T>::empty(),
    {
        Self { wrapped: Fifo::new(capacity) }
    }

    /// The mask that wraps an index: the capacity less one.
    #[inline]
    pub fn mask(&self) -> (r: usize)
        requires
            self.wf(),
        ensures
            r == self.capacity() - 1,
    {
        self.wrapped.mask()
    }

    #[inline]
    pub fn is_empty(&self) -> (r: bool)
        requires
            self.wf(),
        ensures
            r == (self@.len() == 0),
    {
        self.wrapped.is_empty()
    }

    /// Appends `data`, or hands it back when no slot is free.
    pub fn enqueue(&mut self, data: T) -> (r: Result<(), T>)
        requires
            old(self).wf(),
        ensures
            final(self).wf(),
            final(self).capacity() == old(self).capacity(),
            old(self)@.len() + 1 < old(self).capacity() ==> r == Ok::<(), T>(()) && final(self)@
                == old(self)@.push(data),
            old(self)@.len() + 1 >= old(self).capacity() ==> r == Err::<(), T>(data)
                && final(self)@ == old(self)@,
    {
        self.wrapped.enqueue(data)
    }

    /// Removes and returns the oldest item, if there is one.
    pub fn dequeue(&mut self) -> (r: Option<T>)
        requires
            old(self).wf(),
        ensures
            final(self).wf(),
            final(self).capacity() == old(self).capacity(),
            old(self)@.len() == 0 ==> r is None && final(self)@ == old(self)@,
            old(self)@.len() > 0 ==> r == Some(old(self)@[0])
                && final(self)@ == old(self)@.drop_first(),
    {
        self.wrapped.dequeue()
    }
}

/// What a buffer has done over a series of operations.
pub struct FifoTrace<T> {
    /// The items that are queued at the end, oldest first.
    pub queue: Seq<T>,
    /// The items that were taken in, in the order in which they came.
    pub accepted: Seq<T>,
    /// The items that were handed out, in the order in which they left.
    pub delivered: Seq<T>,
}

/// The trace of a buffer of `capacity` slots that holds `initial` and is
/// asked for `operations` in turn: `Some(item)` is an attempt to enqueue
/// `item`, `None` an attempt to dequeue.
pub open spec fn fifo_trace<T>(initial: Seq<T>, capacity: nat, operations: Seq<Option<T>>) -> FifoTrace<T>
    decreases operations.len(),
{
    if operations.len() == 0 {
        FifoTrace { queue: initial, accepted: Seq::empty(), delivered: Seq::empty() }
    } else {
        let before = fifo_trace(initial, capacity, operations.drop_last());
        match operations.last() {
            Some(item) => if before.queue.len() + 1 < capacity {
                FifoTrace {
                    queue: before.queue.push(item),
                    accepted: before.accepted.push(item),
                    delivered: before.delivered,
                }
            } else {
                before
            },
            None => if before.queue.len() > 0 {
                FifoTrace {
                    queue: before.queue.drop_first(),
                    accepted: before.accepted,
                    delivered: before.delivered.push(before.queue[0]),
                }
            } else {
                before
            },
        }
    }
}

/// First in, first out: however attempts to enqueue and to dequeue are
/// mixed, the items that left, followed by those that are still queued, are
/// the items that were there at first, followed by those that were taken in.
/// So an item that entered before another leaves before it.
pub proof fn law_first_in_first_out<T>(initial: Seq<T>, capacity: nat, operations: Seq<Option<T>>)
    ensures
        fifo_trace(initial, capacity, operations).delivered + fifo_trace(
            initial,
            capacity,
            operations,
        ).queue == initial + fifo_trace(initial, capacity, operations).accepted,
    decreases operations.len(),
{
    let after = fifo_trace(initial, capacity, operations);
    if operations.len() == 0 {
        assert(after.delivered + after.queue =~= initial + after.accepted);
    } else {
        let before = fifo_trace(initial, capacity, operations.drop_last());
        law_first_in_first_out(initial, capacity, operations.drop_last());
        assert(before.delivered + before.queue == initial + before.accepted);
        match operations.last() {
            Some(item) => {
                if before.queue.len() + 1 < capacity {
                    assert(after.delivered + after.queue =~= (before.delivered + before.queue).push(item));
                    assert(initial + after.accepted =~= (initial + before.accepted).push(item));
                }
            },
            None => {
                if before.queue.len() > 0 {
                    assert(after.delivered + after.queue =~= before.delivered + before.queue);
                }
            },
        }
    }
}

} // verus!
