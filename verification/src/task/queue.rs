//! Run queues: thread handles in the order in which they became runnable.

use crate::sync::fifo::{is_power_of_two, InterlockedFifo};
use crate::task::thread::ThreadHandle;
use vstd::prelude::*;

verus! {

/// A queue of runnable threads. The handle that entered first leaves first;
/// priority plays no part in the order.
pub struct ThreadQueue {
    fifo: InterlockedFifo<usize>,
}

impl View for ThreadQueue {
    type V = Seq<usize>;

    /// The numbers of the queued handles, oldest first.
    closed spec fn view(&self) -> Seq<usize> {
        self.fifo@
    }
}

impl ThreadQueue {
    /// The number of slots. One of them always stays free.
    pub closed spec fn capacity(&self) -> nat {
        self.fifo.capacity()
    }

    pub closed spec fn wf(&self) -> bool {
        &&& self.fifo.wf()
        &&& forall|i: int| 0 <= i < self.fifo@.len() ==> self.fifo@[i] != 0
    }

    /// A queue holds fewer handles than it has slots.
    pub proof fn lemma_len_below_capacity(&self)
        requires
            self.wf(),
        ensures
            self@.len() < self.capacity(),
    {
        self.fifo.lemma_len_below_capacity();
    }

    /// An empty queue of `capacity` slots.
    pub fn with_capacity(capacity: usize) -> (r: Self)
        requires
            is_power_of_two(capacity as int),
        ensures
            r.wf(),
            r.capacity() == capacity,
            r@ == Seq::<usize>::empty(),
    {
        Self { fifo: InterlockedFifo::new(capacity) }
    }

    /// The most handles that the queue can hold: one less than it has slots.
    #[inline]
    pub fn limit(&self) -> (r: usize)
        requires
            self.wf(),
        ensures
            r == self.capacity() - 1,
    {
        self.fifo.mask()
    }

    #[inline]
    pub fn is_empty(&self) -> (r: bool)
        requires
            self.wf(),
        ensures
            r == (self@.len() == 0),
    {
        self.fifo.is_empty()
    }

    /// Takes the oldest handle out, if there is one.
    pub fn dequeue(&mut self) -> (r: Option<ThreadHandle>)
        requires
            old(self).wf(),
        ensures
            final(self).wf(),
            final(self).capacity() == old(self).capacity(),
            old(self)@.len() == 0 ==> r is None && final(self)@ == old(self)@,
            old(self)@.len() > 0 ==> r is Some && r.unwrap()@ == old(self)@[0]
                && final(self)@ == old(self)@.drop_first(),
    {
        match self.fifo.dequeue() {
            Some(id) => ThreadHandle::new(id),
            None => None,
        }
    }

    /// Appends `data`. Fails, and changes nothing, when the queue is full.
    pub fn enqueue(&mut self, data: ThreadHandle) -> (r: Result<(), ()>)
        requires
            old(self).wf(),
        ensures
            final(self).wf(),
            final(self).capacity() == old(self).capacity(),
            old(self)@.len() + 1 < old(self).capacity() ==> r is Ok
                && final(self)@ == old(self)@.push(data@),
            old(self)@.len() + 1 >= old(self).capacity() ==> r is Err
                && final(self)@ == old(self)@,
    {
        match self.fifo.enqueue(data.as_usize()) {
            Ok(()) => Ok(()),
            Err(_) => Err(()),
        }
    }
}

} // verus!
