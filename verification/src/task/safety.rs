//! Every operation of the scheduler keeps its invariant.

use crate::task::attributes::Flags;
use crate::task::model::{insert_position, sorted_by_deadline, SchedulerView};
use crate::task::priority::Priority;
use crate::task::thread::ThreadView;
use crate::task::timer::TimerEvent;
use vstd::prelude::*;

verus! {

proof fn lemma_push_no_duplicates(queue: Seq<usize>, thread: usize)
    requires
        queue.no_duplicates(),
        !queue.contains(thread),
    ensures
        queue.push(thread).no_duplicates(),
        forall|other: usize|
            queue.push(thread).contains(other) <==> other == thread || queue.contains(other),
{
    assert forall|other: usize| queue.push(thread).contains(other) <==> other == thread
        || queue.contains(other) by {
        if queue.push(thread).contains(other) {
            let i = choose|i: int| 0 <= i < queue.push(thread).len() && queue.push(thread)[i] == other;
            if i < queue.len() {
                assert(queue[i] == other);
            }
        }
        if queue.contains(other) {
            let i = choose|i: int| 0 <= i < queue.len() && queue[i] == other;
            assert(queue.push(thread)[i] == other);
        }
        if other == thread {
            assert(queue.push(thread)[queue.len() as int] == other);
        }
    }
    assert forall|i: int, j: int|
        0 <= i < queue.push(thread).len() && 0 <= j < queue.push(thread).len() && i != j implies queue.push(
        thread,
    )[i] != queue.push(thread)[j] by {
        if i < queue.len() && j < queue.len() {
        } else if i < queue.len() {
            assert(queue.contains(queue[i]));
        } else if j < queue.len() {
            assert(queue.contains(queue[j]));
        }
    }
}

proof fn lemma_drop_first_no_duplicates(queue: Seq<usize>)
    requires
        queue.no_duplicates(),
        queue.len() > 0,
    ensures
        queue.drop_first().no_duplicates(),
        !queue.drop_first().contains(queue[0]),
        forall|other: usize|
            queue.drop_first().contains(other) <==> other != queue[0] && queue.contains(other),
{
    let rest = queue.drop_first();
    assert forall|i: int, j: int| 0 <= i < rest.len() && 0 <= j < rest.len() && i != j implies rest[i]
        != rest[j] by {
        assert(rest[i] == queue[i + 1]);
        assert(rest[j] == queue[j + 1]);
    }
    assert forall|other: usize| rest.contains(other) <==> other != queue[0] && queue.contains(other) by {
        if rest.contains(other) {
            let i = choose|i: int| 0 <= i < rest.len() && rest[i] == other;
            assert(queue[i + 1] == other);
        }
        if other != queue[0] && queue.contains(other) {
            let i = choose|i: int| 0 <= i < queue.len() && queue[i] == other;
            assert(rest[i - 1] == other);
        }
    }
}

impl SchedulerView {
    /// The scheduler starts in a state that meets the invariant.
    pub proof fn lemma_initial_wf(urgent_capacity: nat, ready_capacity: nat, timer_capacity: nat)
        requires
            urgent_capacity >= 1,
            ready_capacity >= 1,
        ensures
            SchedulerView::initial(urgent_capacity, ready_capacity, timer_capacity).wf(),
    {
        let s = SchedulerView::initial(urgent_capacity, ready_capacity, timer_capacity);
        assert(s.threads.dom() =~= Set::<usize>::empty().insert(2));
    }

    /// Bringing the scheduler online keeps the invariant.
    pub proof fn lemma_enabled_wf(self)
        requires
            self.wf(),
        ensures
            self.enabled_now().wf(),
    {
        let s = self.enabled_now();
        assert forall|thread: usize| #[trigger] s.live(thread) implies s.thread_wf(thread) by {
            assert(self.live(thread));
            assert(self.thread_wf(thread));
        }
        assert(s.queues_wf()) by {
            assert forall|i: int| 0 <= i < s.urgent.len() implies s.queue_member(
                #[trigger] s.urgent[i],
            ) by {
                assert(self.queue_member(self.urgent[i]));
            }
            assert forall|i: int| 0 <= i < s.ready.len() implies s.queue_member(
                #[trigger] s.ready[i],
            ) by {
                assert(self.queue_member(self.ready[i]));
            }
        }
        assert(s.timers_wf()) by {
            assert forall|i: int| 0 <= i < s.timers.len() implies s.resolvable(
                #[trigger] s.timers[i],
            ) by {
                assert(self.resolvable(self.timers[i]));
            }
        }
    }

    /// A thread in a run queue is marked `QUEUED`, so a thread that is not
    /// marked so stands in neither queue.
    proof fn lemma_not_queued_not_in_queue(self, thread: usize)
        requires
            self.queues_wf(),
            !self.queue_member(thread),
        ensures
            !self.in_run_queue(thread),
    {
        if self.urgent.contains(thread) {
            let i = choose|i: int| 0 <= i < self.urgent.len() && self.urgent[i] == thread;
            assert(self.queue_member(self.urgent[i]));
        }
        if self.ready.contains(thread) {
            let i = choose|i: int| 0 <= i < self.ready.len() && self.ready[i] == thread;
            assert(self.queue_member(self.ready[i]));
        }
    }

    /// Waking a live thread keeps the invariant.
    pub proof fn lemma_woken_wf(self, thread: usize, urgent: bool)
        requires
            self.wf(),
            self.live(thread),
        ensures
            self.woken(thread, urgent).wf(),
            self.woken(thread, urgent).threads.dom() == self.threads.dom(),
            self.woken(thread, urgent).timers == self.timers,
            self.woken(thread, urgent).retired == self.retired,
    {
        let s = self.woken(thread, urgent);
        let flags = self.flags(thread);
        assert(self.thread_wf(thread));
        if self.priority(thread) == Priority::Idle {
        } else {
            assert(s.threads.dom() =~= self.threads.dom());
            if flags.zombie || flags.queued {
                // The wake-up is latched.
                assert(s == self.with_flags(thread, Flags { awake: true, ..flags }));
                assert forall|other: usize| #[trigger] s.live(other) implies s.thread_wf(other) by {
                    assert(self.live(other));
                    assert(self.thread_wf(other));
                }
                assert(s.queues_wf()) by {
                    assert forall|i: int| 0 <= i < s.urgent.len() implies s.queue_member(
                        #[trigger] s.urgent[i],
                    ) by {
                        assert(self.queue_member(self.urgent[i]));
                    }
                    assert forall|i: int| 0 <= i < s.ready.len() implies s.queue_member(
                        #[trigger] s.ready[i],
                    ) by {
                        assert(self.queue_member(self.ready[i]));
                    }
                }
                assert(s.timers_wf()) by {
                    assert forall|i: int| 0 <= i < s.timers.len() implies s.resolvable(
                        #[trigger] s.timers[i],
                    ) by {
                        assert(self.resolvable(self.timers[i]));
                    }
                }
            } else {
                // The thread was asleep and becomes Ready.
                self.lemma_not_queued_not_in_queue(thread);
                let marked = self.with_flags(
                    thread,
                    Flags { queued: true, awake: false, asleep: false, zombie: false },
                );
                assert(s.threads =~= marked.threads);
                assert(s == marked.enqueued(thread, urgent));
                if urgent {
                    lemma_push_no_duplicates(self.urgent, thread);
                } else {
                    lemma_push_no_duplicates(self.ready, thread);
                }
                assert(s.in_run_queue(thread));
                assert forall|other: usize| #[trigger] s.live(other) implies s.thread_wf(other) by {
                    assert(self.live(other));
                    assert(self.thread_wf(other));
                    if other != thread && self.in_run_queue(other) {
                        assert(s.in_run_queue(other));
                    }
                }
                assert(s.queues_wf()) by {
                    assert forall|i: int| 0 <= i < s.urgent.len() implies s.queue_member(
                        #[trigger] s.urgent[i],
                    ) by {
                        if i < self.urgent.len() {
                            assert(self.queue_member(self.urgent[i]));
                        }
                    }
                    assert forall|i: int| 0 <= i < s.ready.len() implies s.queue_member(
                        #[trigger] s.ready[i],
                    ) by {
                        if i < self.ready.len() {
                            assert(self.queue_member(self.ready[i]));
                        }
                    }
                    assert forall|i: int, j: int|
                        0 <= i < s.urgent.len() && 0 <= j < s.ready.len() implies #[trigger] s.urgent[i]
                        != #[trigger] s.ready[j] by {
                        if i < self.urgent.len() && j < self.ready.len() {
                        } else if i < self.urgent.len() {
                            assert(self.urgent.contains(self.urgent[i]));
                        } else if j < self.ready.len() {
                            assert(self.ready.contains(self.ready[j]));
                        }
                    }
                }
                assert(s.timers_wf()) by {
                    assert forall|i: int| 0 <= i < s.timers.len() implies s.resolvable(
                        #[trigger] s.timers[i],
                    ) by {
                        assert(self.resolvable(self.timers[i]));
                    }
                }
            }
        }
    }

    /// Run queues stay well formed where every thread that met the terms of
    /// a queue member still meets them.
    proof fn lemma_queues_kept(self, next: SchedulerView)
        requires
            self.queues_wf(),
            next.urgent == self.urgent,
            next.ready == self.ready,
            forall|thread: usize| #[trigger] self.queue_member(thread) ==> next.queue_member(thread),
        ensures
            next.queues_wf(),
    {
        assert forall|i: int| 0 <= i < next.urgent.len() implies next.queue_member(
            #[trigger] next.urgent[i],
        ) by {
            assert(self.queue_member(self.urgent[i]));
        }
        assert forall|i: int| 0 <= i < next.ready.len() implies next.queue_member(
            #[trigger] next.ready[i],
        ) by {
            assert(self.queue_member(self.ready[i]));
        }
    }

    /// The pending events stay well formed where every thread that was live
    /// and no zombie still is.
    proof fn lemma_timers_kept(self, next: SchedulerView)
        requires
            self.timers_wf(),
            next.timers == self.timers,
            next.timer_capacity == self.timer_capacity,
            forall|thread: usize|
                self.live(thread) && !self.flags(thread).zombie ==> #[trigger] next.live(thread)
                    && !next.flags(thread).zombie,
        ensures
            next.timers_wf(),
    {
        assert forall|i: int| 0 <= i < next.timers.len() implies next.resolvable(
            #[trigger] next.timers[i],
        ) by {
            assert(self.resolvable(self.timers[i]));
        }
    }

    /// The run queues hold at most the live threads but the idle thread.
    pub proof fn lemma_queue_room(self)
        requires
            self.wf(),
        ensures
            self.urgent.len() + self.ready.len() + 1 <= self.threads.len(),
            self.urgent.len() < self.urgent_capacity,
            self.ready.len() < self.ready_capacity,
    {
        let queued = self.urgent + self.ready;
        vstd::seq_lib::lemma_no_dup_in_concat(self.urgent, self.ready);
        queued.unique_seq_to_set();
        let others = self.threads.dom().remove(self.idle);
        assert forall|thread: usize| queued.to_set().contains(thread) implies others.contains(thread) by {
            let i = choose|i: int| 0 <= i < queued.len() && queued[i] == thread;
            if i < self.urgent.len() {
                assert(self.queue_member(self.urgent[i]));
            } else {
                assert(self.queue_member(self.ready[i - self.urgent.len()]));
            }
        }
        vstd::set_lib::lemma_len_subset(queued.to_set(), others);
    }

    /// Choosing the next thread keeps the invariant, if no retirement is owed.
    pub proof fn lemma_switched_wf(self)
        requires
            self.wf(),
            !self.switch_pending(),
        ensures
            self.switched().wf(),
            self.switches() ==> self.switched().retired == Some(self.current)
                && self.switched().live(self.chosen()),
            !self.switches() ==> self.switched() == self,
            self.priority(self.current) != Priority::Idle ==> self.switches(),
            self.switched().threads == self.threads,
            self.switched().timers == self.timers,
    {
        let s = self.switched();
        let next = self.chosen();
        assert(self.thread_wf(self.current));
        assert(self.thread_wf(self.idle));
        if self.urgent.len() > 0 {
            assert(self.queue_member(self.urgent[0]));
            lemma_drop_first_no_duplicates(self.urgent);
        } else if self.ready.len() > 0 {
            assert(self.queue_member(self.ready[0]));
            lemma_drop_first_no_duplicates(self.ready);
        } else {
        }
        if self.switches() {
            assert forall|thread: usize| #[trigger] s.live(thread) implies s.thread_wf(thread) by {
                assert(self.live(thread));
                assert(self.thread_wf(thread));
                if thread != next && self.in_run_queue(thread) {
                    assert(s.in_run_queue(thread));
                }
            }
            assert(s.queues_wf()) by {
                assert forall|i: int| 0 <= i < s.urgent.len() implies s.queue_member(
                    #[trigger] s.urgent[i],
                ) by {
                    if self.urgent.len() > 0 {
                        assert(self.queue_member(self.urgent[i + 1]));
                        assert(s.urgent.contains(s.urgent[i]));
                    }
                }
                assert forall|i: int| 0 <= i < s.ready.len() implies s.queue_member(
                    #[trigger] s.ready[i],
                ) by {
                    if self.urgent.len() > 0 {
                        assert(self.queue_member(self.ready[i]));
                    } else {
                        assert(self.queue_member(self.ready[i + 1]));
                        assert(s.ready.contains(s.ready[i]));
                    }
                }
                assert forall|i: int, j: int|
                    0 <= i < s.urgent.len() && 0 <= j < s.ready.len() implies #[trigger] s.urgent[i]
                    != #[trigger] s.ready[j] by {
                    if self.urgent.len() > 0 {
                        assert(s.urgent[i] == self.urgent[i + 1]);
                    }
                }
            }
            self.lemma_timers_kept(s);
        } else {
            assert(self.urgent.len() == 0 && self.ready.len() == 0);
        }
    }

    /// Changing the attributes of the thread that awaits retirement keeps
    /// the invariant, as long as it stays marked `QUEUED` and is not made a
    /// zombie while a timer event still names it.
    proof fn lemma_retired_flags_wf(self, flags: Flags)
        requires
            self.wf(),
            self.retired is Some,
            self.priority(self.retired.unwrap()) != Priority::Idle,
            flags.queued,
            flags.zombie ==> self.flags(self.retired.unwrap()).zombie || !self.has_timer_for(
                self.retired.unwrap(),
            ),
        ensures
            self.with_flags(self.retired.unwrap(), flags).wf(),
    {
        let thread = self.retired.unwrap();
        let s = self.with_flags(thread, flags);
        assert(s.threads.dom() =~= self.threads.dom());
        assert forall|other: usize| #[trigger] s.live(other) implies s.thread_wf(other) by {
            assert(self.live(other));
            assert(self.thread_wf(other));
        }
        self.lemma_queues_kept(s);
        assert(s.timers_wf()) by {
            assert forall|i: int| 0 <= i < s.timers.len() implies s.resolvable(
                #[trigger] s.timers[i],
            ) by {
                assert(self.resolvable(self.timers[i]));
                if self.timers[i].target() == Some(thread) {
                    assert(self.has_timer_for(thread));
                }
            }
        }
    }

    /// Going to sleep keeps the invariant, if no retirement is owed.
    pub proof fn lemma_slept_wf(self)
        requires
            self.wf(),
            !self.switch_pending(),
        ensures
            self.slept().wf(),
            self.slept().timers == self.timers,
            self.slept().switch_pending() <==> self.switches(),
    {
        self.lemma_switched_wf();
        if self.priority(self.current) != Priority::Idle {
            let flags = Flags { asleep: true, ..self.flags(self.current) };
            assert(self.thread_wf(self.current));
            assert(self.with_flags(self.current, flags).switched() == self.switched().with_flags(
                self.current,
                flags,
            ));
            self.switched().lemma_retired_flags_wf(flags);
        }
    }

    /// The exit of the running thread keeps the invariant, if no retirement
    /// is owed and no timer event names the thread.
    pub proof fn lemma_exited_wf(self)
        requires
            self.wf(),
            !self.switch_pending(),
            !self.has_timer_for(self.current),
        ensures
            self.exited().wf(),
            self.exited().timers == self.timers,
            self.exited().switch_pending() <==> self.switches(),
    {
        self.lemma_switched_wf();
        if self.priority(self.current) != Priority::Idle {
            let flags = Flags { zombie: true, ..self.flags(self.current) };
            assert(self.thread_wf(self.current));
            assert(self.with_flags(self.current, flags).switched() == self.switched().with_flags(
                self.current,
                flags,
            ));
            assert(self.switched().has_timer_for(self.current) == self.has_timer_for(self.current));
            self.switched().lemma_retired_flags_wf(flags);
        }
    }

    /// A tick of the clock keeps the invariant, if no retirement is owed.
    pub proof fn lemma_ticked_wf(self)
        requires
            self.wf(),
            !self.switch_pending(),
        ensures
            self.ticked().wf(),
            self.ticked().timers == self.timers,
    {
        if self.priority(self.current) != Priority::Realtime {
            let thread = self.threads[self.current];
            let counted = SchedulerView {
                threads: self.threads.insert(self.current, thread.with_quantum(thread.quantum.consumed())),
                ..self
            };
            assert(counted.threads.dom() =~= self.threads.dom());
            assert forall|other: usize| #[trigger] counted.live(other) implies counted.thread_wf(other) by {
                assert(self.live(other));
                assert(self.thread_wf(other));
            }
            self.lemma_queues_kept(counted);
            self.lemma_timers_kept(counted);
            counted.lemma_switched_wf();
        }
    }

    /// Doing the owed retirement keeps the invariant, and leaves none owed.
    pub proof fn lemma_settled_wf(self)
        requires
            self.wf(),
        ensures
            self.settled().wf(),
            !self.settled().switch_pending(),
            self.settled().timers == self.timers,
            self.settled().current == self.current,
    {
        if let Some(thread) = self.retired {
            let s = self.settled();
            let base = SchedulerView { retired: None, ..self };
            let flags = self.flags(thread);
            assert(self.thread_wf(thread));
            assert(self.thread_wf(self.idle));
            assert(!self.queue_member(thread));
            self.lemma_not_queued_not_in_queue(thread);
            if self.priority(thread) == Priority::Idle {
                assert forall|other: usize| #[trigger] s.live(other) implies s.thread_wf(other) by {
                    assert(self.live(other));
                    assert(self.thread_wf(other));
                }
                self.lemma_queues_kept(s);
                self.lemma_timers_kept(s);
            } else if flags.zombie {
                assert(s.threads.dom() =~= self.threads.dom().remove(thread));
                assert forall|other: usize| #[trigger] s.live(other) implies s.thread_wf(other) by {
                    assert(self.live(other));
                    assert(self.thread_wf(other));
                }
                self.lemma_queues_kept(s);
                self.lemma_timers_kept(s);
            } else if flags.awake || !flags.asleep {
                let marked = if flags.awake {
                    base.with_flags(thread, Flags { awake: false, asleep: false, ..flags })
                } else {
                    base
                };
                assert(s == marked.enqueued(thread, false));
                assert(s.threads.dom() =~= self.threads.dom());
                lemma_push_no_duplicates(self.ready, thread);
                assert(s.in_run_queue(thread));
                assert forall|other: usize| #[trigger] s.live(other) implies s.thread_wf(other) by {
                    assert(self.live(other));
                    assert(self.thread_wf(other));
                    if other != thread && self.in_run_queue(other) {
                        assert(s.in_run_queue(other));
                    }
                }
                assert(s.queues_wf()) by {
                    assert forall|i: int| 0 <= i < s.urgent.len() implies s.queue_member(
                        #[trigger] s.urgent[i],
                    ) by {
                        assert(self.queue_member(self.urgent[i]));
                    }
                    assert forall|i: int| 0 <= i < s.ready.len() implies s.queue_member(
                        #[trigger] s.ready[i],
                    ) by {
                        if i < self.ready.len() {
                            assert(self.queue_member(self.ready[i]));
                        }
                    }
                    assert forall|i: int, j: int|
                        0 <= i < s.urgent.len() && 0 <= j < s.ready.len() implies #[trigger] s.urgent[i]
                        != #[trigger] s.ready[j] by {
                        if j >= self.ready.len() {
                            assert(self.urgent.contains(self.urgent[i]));
                        }
                    }
                }
                self.lemma_timers_kept(s);
            } else {
                assert(s.threads.dom() =~= self.threads.dom());
                assert forall|other: usize| #[trigger] s.live(other) implies s.thread_wf(other) by {
                    assert(self.live(other));
                    assert(self.thread_wf(other));
                }
                self.lemma_queues_kept(s);
                self.lemma_timers_kept(s);
            }
        }
    }

    /// Coming back from a switch keeps the invariant, and leaves no
    /// retirement owed.
    pub proof fn lemma_resumed_wf(self)
        requires
            self.wf(),
        ensures
            self.resumed().wf(),
            !self.resumed().switch_pending(),
            self.resumed().timers == self.timers,
            self.resumed().current == self.current,
    {
        let flags = self.flags(self.current);
        let cleared = self.with_flags(self.current, Flags { awake: false, asleep: false, ..flags });
        assert(cleared.threads.dom() =~= self.threads.dom());
        assert(self.thread_wf(self.current));
        assert forall|other: usize| #[trigger] cleared.live(other) implies cleared.thread_wf(other) by {
            assert(self.live(other));
            assert(self.thread_wf(other));
        }
        self.lemma_queues_kept(cleared);
        self.lemma_timers_kept(cleared);
        cleared.lemma_settled_wf();
    }

    /// Spawning a thread keeps the invariant, and the new thread is live.
    pub proof fn lemma_spawned_wf(
        self,
        raise_pid: bool,
        priority: Priority,
        name: Seq<u8>,
        entry: usize,
        arg: usize,
    )
        requires
            self.wf(),
            self.can_spawn(),
        ensures
            self.spawned(raise_pid, priority, name, entry, arg).wf(),
            !self.live((self.last_thread + 1) as usize),
            self.spawned(raise_pid, priority, name, entry, arg).live((self.last_thread + 1) as usize),
            self.spawned(raise_pid, priority, name, entry, arg).timers == self.timers,
            self.spawned(raise_pid, priority, name, entry, arg).retired == self.retired,
    {
        let thread = (self.last_thread + 1) as usize;
        let s = self.spawned(raise_pid, priority, name, entry, arg);
        if self.live(thread) {
            assert(self.thread_wf(thread));
        }
        assert(self.thread_wf(self.current));
        let made = SchedulerView {
            threads: self.threads.insert(
                thread,
                ThreadView::fresh(thread, self.pid_for(raise_pid), priority, name, Some(entry), arg),
            ),
            last_thread: thread,
            last_process: if raise_pid {
                (self.last_process + 1) as usize
            } else {
                self.last_process
            },
            ..self
        };
        assert(s == made.added(thread, false));
        assert(made.threads.dom() =~= self.threads.dom().insert(thread));
        assert(s.threads.dom() =~= self.threads.dom().insert(thread));
        assert(!self.queue_member(thread));
        self.lemma_not_queued_not_in_queue(thread);
        if priority != Priority::Idle {
            lemma_push_no_duplicates(self.ready, thread);
            assert(s.in_run_queue(thread));
        }
        assert forall|other: usize| #[trigger] s.live(other) implies s.thread_wf(other) by {
            if other != thread {
                assert(self.live(other));
                assert(self.thread_wf(other));
                if self.in_run_queue(other) {
                    assert(s.in_run_queue(other));
                }
            }
        }
        assert(s.queues_wf()) by {
            assert forall|i: int| 0 <= i < s.urgent.len() implies s.queue_member(
                #[trigger] s.urgent[i],
            ) by {
                assert(self.queue_member(self.urgent[i]));
            }
            assert forall|i: int| 0 <= i < s.ready.len() implies s.queue_member(
                #[trigger] s.ready[i],
            ) by {
                if i < self.ready.len() {
                    assert(self.queue_member(self.ready[i]));
                }
            }
            assert forall|i: int, j: int|
                0 <= i < s.urgent.len() && 0 <= j < s.ready.len() implies #[trigger] s.urgent[i]
                != #[trigger] s.ready[j] by {
                if j >= self.ready.len() {
                    assert(self.urgent.contains(self.urgent[i]));
                }
            }
        }
        self.lemma_timers_kept(s);
    }

    /// Taking in a timer event keeps the invariant, if there is room for it
    /// and the thread that it names can be woken.
    pub proof fn lemma_scheduled_wf(self, event: TimerEvent)
        requires
            self.wf(),
            self.resolvable(event),
            self.timers.len() < self.timer_capacity,
        ensures
            self.scheduled(event).wf(),
    {
        let s = self.scheduled(event);
        let position = insert_position(self.timers, event);
        lemma_insert_position(self.timers, event);
        assert forall|thread: usize| #[trigger] s.live(thread) implies s.thread_wf(thread) by {
            assert(self.live(thread));
            assert(self.thread_wf(thread));
        }
        self.lemma_queues_kept(s);
        assert forall|i: int| 0 <= i < s.timers.len() implies s.resolvable(#[trigger] s.timers[i]) by {
            if i < position {
                assert(self.resolvable(self.timers[i]));
            } else if i > position {
                assert(self.resolvable(self.timers[i - 1]));
            }
        }
    }

    /// Firing an event whose thread can be woken keeps the invariant.
    pub proof fn lemma_fired_wf(self, event: TimerEvent)
        requires
            self.wf(),
            self.resolvable(event),
        ensures
            self.fired(event).wf(),
            self.fired(event).timers == self.timers,
            self.fired(event).retired == self.retired,
            self.fired(event).threads.dom() == self.threads.dom(),
    {
        if let Some(thread) = event.target() {
            self.lemma_woken_wf(thread, false);
        }
    }

    /// Dropping the soonest pending event keeps the invariant.
    pub proof fn lemma_dropped_wf(self)
        requires
            self.wf(),
            self.timers.len() > 0,
        ensures
            (SchedulerView { timers: self.timers.drop_first(), ..self }).wf(),
            self.resolvable(self.timers[0]),
    {
        let s = SchedulerView { timers: self.timers.drop_first(), ..self };
        assert forall|thread: usize| #[trigger] s.live(thread) implies s.thread_wf(thread) by {
            assert(self.live(thread));
            assert(self.thread_wf(thread));
        }
        self.lemma_queues_kept(s);
        assert forall|i: int| 0 <= i < s.timers.len() implies s.resolvable(#[trigger] s.timers[i]) by {
            assert(self.resolvable(self.timers[i + 1]));
        }
        assert forall|i: int, j: int| 0 <= i < j < s.timers.len() implies #[trigger] s.timers[i].deadline()
            <= #[trigger] s.timers[j].deadline() by {
            assert(self.timers[i + 1].deadline() <= self.timers[j + 1].deadline());
        }
        assert(self.resolvable(self.timers[0]));
    }

    /// Firing the soonest pending events keeps the invariant. The events
    /// behind them stay pending, in their order.
    pub proof fn lemma_drained_wf(self, count: nat)
        requires
            self.wf(),
            count <= self.timers.len(),
        ensures
            self.drained(count).wf(),
            self.drained(count).timers == self.timers.skip(count as int),
            self.drained(count).retired == self.retired,
            self.drained(count).threads.dom() == self.threads.dom(),
        decreases count,
    {
        if count == 0 {
            assert(self.timers.skip(0) =~= self.timers);
        } else {
            let dropped = SchedulerView { timers: self.timers.drop_first(), ..self };
            self.lemma_dropped_wf();
            assert(forall|thread: usize| dropped.live(thread) == self.live(thread));
            assert(dropped.resolvable(self.timers[0]));
            dropped.lemma_fired_wf(self.timers[0]);
            let fired = dropped.fired(self.timers[0]);
            fired.lemma_drained_wf((count - 1) as nat);
            assert(self.timers.drop_first().skip(count - 1) =~= self.timers.skip(count as int));
        }
    }

    /// One more event fired is the events before it fired, then that one.
    pub proof fn lemma_drained_step(self, count: nat)
        requires
            count < self.timers.len(),
            self.wf(),
        ensures
            self.drained(count + 1) == (SchedulerView {
                timers: self.drained(count).timers.drop_first(),
                ..self.drained(count)
            }).fired(self.timers[count as int]),
            self.drained(count).timers.len() > 0,
            self.drained(count).timers[0] == self.timers[count as int],
        decreases count,
    {
        self.lemma_drained_wf(count);
        if count == 0 {
            let dropped = SchedulerView { timers: self.timers.drop_first(), ..self };
            assert(self.drained(1) == dropped.fired(self.timers[0]).drained(0));
        } else {
            let dropped = SchedulerView { timers: self.timers.drop_first(), ..self };
            self.lemma_dropped_wf();
            assert(forall|thread: usize| dropped.live(thread) == self.live(thread));
            assert(dropped.resolvable(self.timers[0]));
            dropped.lemma_fired_wf(self.timers[0]);
            let fired = dropped.fired(self.timers[0]);
            fired.lemma_drained_step((count - 1) as nat);
            assert(self.drained(count + 1) == fired.drained(count));
            assert(self.drained(count) == fired.drained((count - 1) as nat));
        }
    }

    /// Noting the soonest pending deadline keeps the invariant.
    pub proof fn lemma_marked_wf(self)
        requires
            self.wf(),
        ensures
            self.marked().wf(),
    {
        let s = self.marked();
        assert forall|thread: usize| #[trigger] s.live(thread) implies s.thread_wf(thread) by {
            assert(self.live(thread));
            assert(self.thread_wf(thread));
        }
        self.lemma_queues_kept(s);
        self.lemma_timers_kept(s);
    }
}

/// In a list sorted by deadline, the place of a new event lies behind every
/// event that is due no later than it and before every event that is due
/// later; with the event there, the list is still sorted.
pub proof fn lemma_insert_position(timers: Seq<TimerEvent>, event: TimerEvent)
    requires
        sorted_by_deadline(timers),
    ensures
        0 <= insert_position(timers, event) <= timers.len(),
        forall|i: int|
            0 <= i < insert_position(timers, event) ==> (#[trigger] timers[i]).deadline()
                <= event.deadline(),
        forall|i: int|
            insert_position(timers, event) <= i < timers.len() ==> (#[trigger] timers[i]).deadline()
                > event.deadline(),
        sorted_by_deadline(timers.insert(insert_position(timers, event), event)),
    decreases timers.len(),
{
    let position = insert_position(timers, event);
    if timers.len() == 0 || timers.last().deadline() <= event.deadline() {
        assert forall|i: int| 0 <= i < position implies (#[trigger] timers[i]).deadline()
            <= event.deadline() by {
            if i < timers.len() - 1 {
                assert(timers[i].deadline() <= timers[timers.len() - 1].deadline());
            }
        }
    } else {
        let front = timers.drop_last();
        assert forall|i: int, j: int| 0 <= i < j < front.len() implies #[trigger] front[i].deadline()
            <= #[trigger] front[j].deadline() by {
            assert(timers[i].deadline() <= timers[j].deadline());
        }
        lemma_insert_position(front, event);
        assert forall|i: int| 0 <= i < position implies (#[trigger] timers[i]).deadline()
            <= event.deadline() by {
            assert(front[i].deadline() <= event.deadline());
        }
        assert forall|i: int| position <= i < timers.len() implies (#[trigger] timers[i]).deadline()
            > event.deadline() by {
            if i < front.len() {
                assert(front[i].deadline() > event.deadline());
            }
        }
    }
    let inserted = timers.insert(position, event);
    assert forall|i: int, j: int| 0 <= i < j < inserted.len() implies #[trigger] inserted[i].deadline()
        <= #[trigger] inserted[j].deadline() by {
        if j < position {
            assert(timers[i].deadline() <= timers[j].deadline());
        } else if j == position {
            assert(timers[i].deadline() <= event.deadline());
        } else if i < position {
            assert(timers[i].deadline() <= timers[j - 1].deadline());
        } else if i == position {
            assert(timers[j - 1].deadline() > event.deadline());
        } else {
            assert(timers[i - 1].deadline() <= timers[j - 1].deadline());
        }
    }
}

} // verus!
