//! Thread identity and the thread control block.

use crate::task::attributes::{Flags, ThreadAttributes};
use crate::task::priority::{Priority, Quantum};
use vstd::prelude::*;
use vstd::string::StringSliceAdditionalSpecFns;
use vstd::utf8::valid_utf8;

verus! {

/// The size of the buffer that holds a suspended thread's machine state.
pub const SIZE_OF_CONTEXT: usize = 512;

/// The size of the stack that a thread with an entry point owns.
pub const SIZE_OF_STACK: usize = 0x10000;

/// The size of the name field: one length byte and up to 31 bytes of name.
pub const THREAD_NAME_LENGTH: usize = 32;

/// Identifies a process: a tag that groups threads, nothing more.
#[derive(Debug, Copy, Clone, PartialEq, Eq, PartialOrd, Ord, Structural)]
pub struct ProcessId(pub usize);

impl ProcessId {
    /// The next process identifier: one more than the last that `counter`
    /// gave out, so never one given out before and never zero.
    pub fn raise(counter: &mut usize) -> (r: ProcessId)
        requires
            *old(counter) < usize::MAX,
        ensures
            *final(counter) == *old(counter) + 1,
            r.0 == *final(counter),
            r.0 != 0,
    {
        *counter = *counter + 1;
        ProcessId(*counter)
    }
}

/// Refers to a thread without owning it. A handle is never zero.
#[derive(Debug, Copy, Clone, PartialEq, Eq, PartialOrd, Ord, Structural)]
pub struct ThreadHandle(usize);

impl View for ThreadHandle {
    type V = usize;

    closed spec fn view(&self) -> usize {
        self.0
    }
}

impl ThreadHandle {
    #[verifier::type_invariant]
    spec fn nonzero(self) -> bool {
        self.0 != 0
    }

    /// Handles are equal where their numbers are.
    pub broadcast proof fn lemma_eq(a: ThreadHandle, b: ThreadHandle)
        ensures
            (#[trigger] a@ == #[trigger] b@) <==> a == b,
    {
    }

    /// The handle with the number `val`, unless that is zero.
    pub fn new(val: usize) -> (r: Option<Self>)
        ensures
            r is None <==> val == 0,
            r matches Some(handle) ==> handle@ == val,
    {
        if val == 0 {
            None
        } else {
            Some(ThreadHandle(val))
        }
    }

    /// The next thread handle: one more than the last that `counter` gave out.
    pub fn next(counter: &mut usize) -> (r: ThreadHandle)
        requires
            *old(counter) < usize::MAX,
        ensures
            *final(counter) == *old(counter) + 1,
            r@ == *final(counter),
    {
        *counter = *counter + 1;
        ThreadHandle(*counter)
    }

    #[inline]
    pub fn as_usize(&self) -> (r: usize)
        ensures
            r == self@,
            r != 0,
    {
        proof {
            use_type_invariant(self);
        }
        self.0
    }
}

/// The name that fits the name field: the first 31 bytes of `name`.
pub open spec fn truncated_name(name: Seq<u8>) -> Seq<u8> {
    if name.len() < THREAD_NAME_LENGTH {
        name
    } else {
        name.take(THREAD_NAME_LENGTH - 1)
    }
}

/// The name that a name field holds: as many bytes as its first byte says.
pub open spec fn stored_name(field: Seq<u8>) -> Seq<u8> {
    field.subrange(1, 1 + field[0])
}

/// What the scheduler knows of a thread, as a value of the model.
pub struct ThreadView {
    pub pid: ProcessId,
    pub handle: usize,
    pub attribute: Flags,
    pub priority: Priority,
    pub quantum: Quantum,
    /// The bytes of the name, already truncated.
    pub name: Seq<u8>,
    /// The address at which the thread starts, if it has an entry point.
    pub entry: Option<usize>,
    /// The argument that the entry point is called with.
    pub arg: usize,
}

impl ThreadView {
    /// A thread as it is right after creation.
    pub open spec fn fresh(
        handle: usize,
        pid: ProcessId,
        priority: Priority,
        name: Seq<u8>,
        entry: Option<usize>,
        arg: usize,
    ) -> ThreadView {
        ThreadView {
            pid,
            handle,
            attribute: Flags::none(),
            priority,
            quantum: Quantum::full(priority.ticks()),
            name: truncated_name(name),
            entry,
            arg,
        }
    }

    pub open spec fn with_attribute(self, attribute: Flags) -> ThreadView {
        ThreadView { attribute, ..self }
    }

    pub open spec fn with_quantum(self, quantum: Quantum) -> ThreadView {
        ThreadView { quantum, ..self }
    }
}

/// `core::str::from_utf8`: the string slice over `bytes` where they are valid
/// UTF-8, nothing where they are not.
#[verifier::external_body]
fn str_from_utf8(bytes: &[u8]) -> (r: Option<&str>)
    ensures
        r is Some <==> valid_utf8(bytes@),
        r matches Some(s) ==> s.spec_bytes() == bytes@,
{
    core::str::from_utf8(bytes).ok()
}

/// The thread control block: all that the kernel keeps of one thread.
pub struct RawThread {
    /// The machine state of the suspended thread. Only the architecture
    /// layer reads and writes it.
    context: [u8; SIZE_OF_CONTEXT],
    stack: Option<Vec<u8>>,
    entry: Option<usize>,
    arg: usize,
    pid: ProcessId,
    handle: ThreadHandle,
    attribute: ThreadAttributes,
    priority: Priority,
    quantum: Quantum,
    /// The length of the name in the first byte, then the name.
    name: [u8; THREAD_NAME_LENGTH],
}

impl View for RawThread {
    type V = ThreadView;

    closed spec fn view(&self) -> ThreadView {
        ThreadView {
            pid: self.pid,
            handle: self.handle@,
            attribute: self.attribute@,
            priority: self.priority,
            quantum: self.quantum,
            name: stored_name(self.name@),
            entry: self.entry,
            arg: self.arg,
        }
    }
}

impl RawThread {
    /// The name field holds its length, and the thread owns a stack exactly
    /// if it has an entry point.
    pub closed spec fn wf(&self) -> bool {
        &&& self.name@[0] < THREAD_NAME_LENGTH
        &&& self.entry is Some <==> self.stack is Some
        &&& self.stack matches Some(stack) ==> stack@.len() == SIZE_OF_STACK
    }

    /// The bytes of the stack, if the thread owns one.
    pub closed spec fn stack_bytes(&self) -> Option<Seq<u8>> {
        match self.stack {
            Some(stack) => Some(stack@),
            None => None,
        }
    }

    /// The bytes of the buffer for the machine state.
    pub closed spec fn context_bytes(&self) -> Seq<u8> {
        self.context@
    }

    /// A new thread with the next handle of `counter`, no attribute, and the
    /// full quantum of its priority. With an entry point it gets a stack of
    /// `SIZE_OF_STACK` zero bytes; without one it has none.
    pub fn new(
        counter: &mut usize,
        pid: ProcessId,
        priority: Priority,
        name: &str,
        start: Option<usize>,
        arg: usize,
    ) -> (r: Self)
        requires
            *old(counter) < usize::MAX,
        ensures
            *final(counter) == *old(counter) + 1,
            r.wf(),
            r@ == ThreadView::fresh(*final(counter), pid, priority, name.spec_bytes(), start, arg),
            r.context_bytes() == Seq::new(SIZE_OF_CONTEXT as nat, |i: int| 0u8),
            r.stack_bytes() == if start is Some {
                Some(Seq::new(SIZE_OF_STACK as nat, |i: int| 0u8))
            } else {
                None
            },
    {
        let handle = ThreadHandle::next(counter);

        let mut name_array = [0u8; THREAD_NAME_LENGTH];
        Self::set_name_array(&mut name_array, name);

        let mut thread = Self {
            context: [0u8; SIZE_OF_CONTEXT],
            stack: None,
            entry: start,
            arg,
            pid,
            handle,
            attribute: ThreadAttributes::empty(),
            priority,
            quantum: Quantum::from(priority),
            name: name_array,
        };
        if start.is_some() {
            let stack: Vec<u8> = vec![0u8; SIZE_OF_STACK];
            assert(stack@ =~= Seq::new(SIZE_OF_STACK as nat, |i: int| 0u8));
            thread.stack = Some(stack);
        }
        assert(thread.context@ =~= Seq::new(SIZE_OF_CONTEXT as nat, |i: int| 0u8));
        thread
    }

    /// Writes `name` into a name field: its length, at most 31, into the
    /// first byte and that many of its bytes behind it. The bytes after them
    /// stay as they were.
    pub fn set_name_array(array: &mut [u8; THREAD_NAME_LENGTH], name: &str)
        ensures
            final(array)@[0] == truncated_name(name.spec_bytes()).len(),
            stored_name(final(array)@) == truncated_name(name.spec_bytes()),
            forall|j: int|
                truncated_name(name.spec_bytes()).len() < j < THREAD_NAME_LENGTH
                    ==> final(array)@[j] == old(array)@[j],
    {
        let bytes = name.as_bytes();
        let mut i: usize = 1;
        while i < THREAD_NAME_LENGTH && i - 1 < bytes.len()
            invariant
                1 <= i <= THREAD_NAME_LENGTH,
                i - 1 <= bytes@.len(),
                bytes@ == name.spec_bytes(),
                array@.subrange(1, i as int) == bytes@.take(i - 1),
                forall|j: int| i <= j < THREAD_NAME_LENGTH ==> array@[j] == old(array)@[j],
            decreases THREAD_NAME_LENGTH - i,
        {
            array[i] = bytes[i - 1];
            i += 1;
            assert(array@.subrange(1, i as int) =~= bytes@.take(i - 1));
        }
        let ghost filled = array@;
        array[0] = (i - 1) as u8;
        proof {
            assert(array@.subrange(1, i as int) =~= filled.subrange(1, i as int));
            assert(truncated_name(bytes@) =~= bytes@.take(i - 1));
        }
    }

    #[inline]
    pub fn handle(&self) -> (r: ThreadHandle)
        ensures
            r@ == self@.handle,
    {
        self.handle
    }

    #[inline]
    pub fn pid(&self) -> (r: ProcessId)
        ensures
            r == self@.pid,
    {
        self.pid
    }

    #[inline]
    pub fn priority(&self) -> (r: Priority)
        ensures
            r == self@.priority,
    {
        self.priority
    }

    #[inline]
    pub fn attribute(&self) -> (r: ThreadAttributes)
        ensures
            r@ == self@.attribute,
    {
        self.attribute
    }

    #[inline]
    pub fn quantum(&self) -> (r: Quantum)
        ensures
            r == self@.quantum,
    {
        self.quantum
    }

    #[inline]
    pub fn entry(&self) -> (r: Option<usize>)
        ensures
            r == self@.entry,
    {
        self.entry
    }

    #[inline]
    pub fn arg(&self) -> (r: usize)
        ensures
            r == self@.arg,
    {
        self.arg
    }

    /// The buffer for the machine state, for the architecture layer.
    #[inline]
    pub fn context(&self) -> (r: &[u8; SIZE_OF_CONTEXT])
        ensures
            r@ == self.context_bytes(),
    {
        &self.context
    }

    /// The stack, if the thread owns one: a thread with an entry point does.
    #[inline]
    pub fn stack(&self) -> (r: Option<&Vec<u8>>)
        requires
            self.wf(),
        ensures
            r is Some <==> self@.entry is Some,
            r matches Some(stack) ==> Some(stack@) == self.stack_bytes() && stack@.len()
                == SIZE_OF_STACK,
    {
        self.stack.as_ref()
    }

    /// Replaces the attributes.
    pub fn set_attribute(&mut self, attribute: ThreadAttributes)
        ensures
            final(self)@ == old(self)@.with_attribute(attribute@),
            final(self).wf() == old(self).wf(),
            final(self).stack_bytes() == old(self).stack_bytes(),
            final(self).context_bytes() == old(self).context_bytes(),
    {
        self.attribute = attribute;
    }

    /// Replaces the quantum.
    pub fn set_quantum(&mut self, quantum: Quantum)
        ensures
            final(self)@ == old(self)@.with_quantum(quantum),
            final(self).wf() == old(self).wf(),
            final(self).stack_bytes() == old(self).stack_bytes(),
            final(self).context_bytes() == old(self).context_bytes(),
    {
        self.quantum = quantum;
    }

    /// The name as text: nothing where the name is empty or, cut at 31
    /// bytes, is no valid UTF-8.
    pub fn name(&self) -> (r: Option<&str>)
        requires
            self.wf(),
        ensures
            r is Some <==> self@.name.len() > 0 && valid_utf8(self@.name),
            r matches Some(s) ==> s.spec_bytes() == self@.name,
    {
        let len = self.name[0] as usize;
        if len == 0 {
            None
        } else {
            let field = self.name.as_slice();
            let bytes = vstd::slice::slice_subrange(field, 1, 1 + len);
            str_from_utf8(bytes)
        }
    }
}

} // verus!
