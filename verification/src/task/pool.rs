//! The thread registry: the one owner of every thread control block.

use crate::task::attributes::ThreadAttributes;
use crate::task::priority::Quantum;
use crate::task::thread::{RawThread, ThreadHandle, ThreadView};
use std::collections::BTreeMap;
use vstd::prelude::*;

verus! {

/// Owns the control block of every live thread, by handle. Whatever else
/// refers to a thread holds the handle and resolves it here.
pub struct ThreadPool {
    data: BTreeMap<usize, Box<RawThread>>,
}

impl View for ThreadPool {
    type V = Map<usize, ThreadView>;

    /// The live threads by the number of their handle.
    closed spec fn view(&self) -> Map<usize, ThreadView> {
        self.data@.map_values(|thread: Box<RawThread>| thread@)
    }
}

impl ThreadPool {
    /// Every control block is well formed and stands under its own handle.
    pub closed spec fn wf(&self) -> bool {
        forall|id: usize| #[trigger]
            self.data@.contains_key(id) ==> id != 0 && self.data@[id].wf() && self.data@[id]@.handle
                == id
    }

    /// A registry without threads.
    pub fn new() -> (r: Self)
        ensures
            r.wf(),
            r@ == Map::<usize, ThreadView>::empty(),
    {
        let r = Self { data: BTreeMap::new() };
        assert(r@ =~= Map::<usize, ThreadView>::empty());
        r
    }

    /// The number of live threads.
    pub fn len(&self) -> (r: usize)
        ensures
            r == self@.len(),
    {
        assert(self@.dom() =~= self.data@.dom());
        self.data.len()
    }

    /// Takes a newly made control block in, under its handle.
    pub fn add(&mut self, thread: Box<RawThread>)
        requires
            old(self).wf(),
            thread.wf(),
        ensures
            final(self).wf(),
            final(self)@ == old(self)@.insert(thread@.handle, thread@),
    {
        let handle = thread.handle();
        let id = handle.as_usize();
        let ghost view = thread@;
        self.data.insert(id, thread);
        assert(final(self)@ =~= old(self)@.insert(view.handle, view));
    }

    /// Removes the control block of `handle` and destroys it, with its stack.
    pub fn drop_thread(&mut self, handle: ThreadHandle)
        requires
            old(self).wf(),
        ensures
            final(self).wf(),
            final(self)@ == old(self)@.remove(handle@),
    {
        let id = handle.as_usize();
        self.data.remove(&id);
        assert(final(self)@ =~= old(self)@.remove(handle@));
    }

    /// Whether `key` refers to a live thread.
    pub fn contains(&self, key: &ThreadHandle) -> (r: bool)
        ensures
            r == self@.contains_key(key@),
    {
        let id = key.as_usize();
        self.data.contains_key(&id)
    }

    /// The control block that `key` refers to, if the thread is live.
    pub fn get(&self, key: &ThreadHandle) -> (r: Option<&RawThread>)
        requires
            self.wf(),
        ensures
            r is Some <==> self@.contains_key(key@),
            r matches Some(thread) ==> thread@ == self@[key@] && thread.wf(),
    {
        let id = key.as_usize();
        match self.data.get(&id) {
            Some(thread) => Some(&**thread),
            None => None,
        }
    }

    /// Replaces the attributes of the thread that `key` refers to.
    pub fn set_attribute(&mut self, key: &ThreadHandle, attribute: ThreadAttributes)
        requires
            old(self).wf(),
            old(self)@.contains_key(key@),
        ensures
            final(self).wf(),
            final(self)@ == old(self)@.insert(
                key@,
                old(self)@[key@].with_attribute(attribute@),
            ),
    {
        let id = key.as_usize();
        let mut thread = self.data.remove(&id).unwrap();
        thread.set_attribute(attribute);
        self.data.insert(id, thread);
        assert(final(self)@ =~= old(self)@.insert(
            key@,
            old(self)@[key@].with_attribute(attribute@),
        ));
    }

    /// Replaces the quantum of the thread that `key` refers to.
    pub fn set_quantum(&mut self, key: &ThreadHandle, quantum: Quantum)
        requires
            old(self).wf(),
            old(self)@.contains_key(key@),
        ensures
            final(self).wf(),
            final(self)@ == old(self)@.insert(key@, old(self)@[key@].with_quantum(quantum)),
    {
        let id = key.as_usize();
        let mut thread = self.data.remove(&id).unwrap();
        thread.set_quantum(quantum);
        self.data.insert(id, thread);
        assert(final(self)@ =~= old(self)@.insert(key@, old(self)@[key@].with_quantum(quantum)));
    }
}

impl Default for ThreadPool {
    fn default() -> (r: Self)
        ensures
            r.wf(),
            r@ == Map::<usize, ThreadView>::empty(),
    {
        ThreadPool::new()
    }
}

} // verus!
