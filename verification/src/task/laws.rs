//! What holds of the scheduler whatever its callers do.

use crate::task::attributes::Flags;
use crate::task::model::{insert_position, sorted_by_deadline, SchedulerView, ThreadState};
use crate::task::priority::{Priority, Quantum};
use crate::task::safety::lemma_insert_position;
use crate::task::timer::{TimerEvent, TimerSource};
use vstd::prelude::*;

verus! {

/// An operation of the scheduler, with its arguments.
pub enum Operation {
    Spawn { raise_pid: bool, priority: Priority, name: Seq<u8>, entry: usize, arg: usize },
    Wake { thread: usize },
    WakeUrgent { thread: usize },
    Sleep,
    Yield,
    Exit,
    Tick,
    /// The running thread comes back from a switch.
    Resume,
    /// The running thread starts for the first time.
    SetUp,
    Schedule { event: TimerEvent },
    /// The `count` soonest timer events fire.
    Fire { count: nat },
    Enable,
}

impl SchedulerView {
    /// Whether the scheduler's contract lets `operation` be asked for in
    /// this state.
    pub open spec fn permits(self, operation: Operation) -> bool {
        match operation {
            Operation::Spawn { .. } => self.can_spawn(),
            Operation::Wake { thread } => self.live(thread),
            Operation::WakeUrgent { thread } => self.live(thread),
            Operation::Sleep => !self.switch_pending(),
            Operation::Yield => !self.switch_pending(),
            Operation::Exit => !self.switch_pending() && !self.has_timer_for(self.current),
            Operation::Tick => !self.switch_pending(),
            Operation::Resume => self.switch_pending(),
            Operation::SetUp => true,
            Operation::Schedule { event } => self.resolvable(event),
            Operation::Fire { count } => count <= self.timers.len(),
            Operation::Enable => true,
        }
    }

    /// The state after `operation`.
    pub open spec fn after(self, operation: Operation) -> SchedulerView {
        match operation {
            Operation::Spawn { raise_pid, priority, name, entry, arg } => self.spawned(
                raise_pid,
                priority,
                name,
                entry,
                arg,
            ),
            Operation::Wake { thread } => self.woken(thread, false),
            Operation::WakeUrgent { thread } => self.woken(thread, true),
            Operation::Sleep => self.slept(),
            Operation::Yield => self.switched(),
            Operation::Exit => self.exited(),
            Operation::Tick => self.ticked(),
            Operation::Resume => self.resumed(),
            Operation::SetUp => self.settled(),
            Operation::Schedule { event } => if self.timers.len() < self.timer_capacity {
                self.scheduled(event)
            } else {
                self
            },
            Operation::Fire { count } => self.drained(count).marked(),
            Operation::Enable => self.enabled_now(),
        }
    }

    /// Whether each of `operations`, in turn, is permitted in the state
    /// that the ones before it lead to.
    pub open spec fn permits_all(self, operations: Seq<Operation>) -> bool
        decreases operations.len(),
    {
        if operations.len() == 0 {
            true
        } else {
            self.permits(operations[0]) && self.after(operations[0]).permits_all(operations.drop_first())
        }
    }

    /// The state after `operations`, in turn.
    pub open spec fn after_all(self, operations: Seq<Operation>) -> SchedulerView
        decreases operations.len(),
    {
        if operations.len() == 0 {
            self
        } else {
            self.after(operations[0]).after_all(operations.drop_first())
        }
    }

    /// Every permitted operation keeps the invariant.
    pub proof fn law_operation_keeps_invariant(self, operation: Operation)
        requires
            self.wf(),
            self.permits(operation),
        ensures
            self.after(operation).wf(),
    {
        match operation {
            Operation::Spawn { raise_pid, priority, name, entry, arg } => {
                self.lemma_spawned_wf(raise_pid, priority, name, entry, arg);
            },
            Operation::Wake { thread } => {
                self.lemma_woken_wf(thread, false);
            },
            Operation::WakeUrgent { thread } => {
                self.lemma_woken_wf(thread, true);
            },
            Operation::Sleep => {
                self.lemma_slept_wf();
            },
            Operation::Yield => {
                self.lemma_switched_wf();
            },
            Operation::Exit => {
                self.lemma_exited_wf();
            },
            Operation::Tick => {
                self.lemma_ticked_wf();
            },
            Operation::Resume => {
                self.lemma_resumed_wf();
            },
            Operation::SetUp => {
                self.lemma_settled_wf();
            },
            Operation::Schedule { event } => {
                if self.timers.len() < self.timer_capacity {
                    self.lemma_scheduled_wf(event);
                }
            },
            Operation::Fire { count } => {
                self.lemma_drained_wf(count);
                self.drained(count).lemma_marked_wf();
            },
            Operation::Enable => {
                self.lemma_enabled_wf();
            },
        }
    }

    /// Whatever operations are asked for, in whatever order, as long as each
    /// is permitted when its turn comes, the invariant holds at the end.
    pub proof fn law_invariant_always(self, operations: Seq<Operation>)
        requires
            self.wf(),
            self.permits_all(operations),
        ensures
            self.after_all(operations).wf(),
        decreases operations.len(),
    {
        if operations.len() > 0 {
            self.law_operation_keeps_invariant(operations[0]);
            self.after(operations[0]).law_invariant_always(operations.drop_first());
        }
    }

    /// No live thread is marked `QUEUED` and `ASLEEP` at once, but for the
    /// thread that has been switched away from and awaits its retirement.
    pub proof fn law_never_queued_and_asleep(self, thread: usize)
        requires
            self.wf(),
            self.live(thread),
            self.retired != Some(thread),
        ensures
            !(self.flags(thread).queued && self.flags(thread).asleep),
    {
        assert(self.thread_wf(thread));
        if self.flags(thread).queued && thread != self.current && self.priority(thread) != Priority::Idle {
            if self.urgent.contains(thread) {
                let i = choose|i: int| 0 <= i < self.urgent.len() && self.urgent[i] == thread;
                assert(self.queue_member(self.urgent[i]));
            } else {
                let i = choose|i: int| 0 <= i < self.ready.len() && self.ready[i] == thread;
                assert(self.queue_member(self.ready[i]));
            }
        }
    }

    /// With no retirement owed, the state of a live thread tells where the
    /// scheduler holds it. The idle thread and its like carry no attribute
    /// and stand in no queue. The running thread stands in no queue. A Ready
    /// thread stands in a run queue, and only such threads do. A thread that
    /// is Asleep is marked `ASLEEP`, with no wake-up latched. No thread is a
    /// zombie.
    pub proof fn law_state_tells_place(self, thread: usize)
        requires
            self.wf(),
            !self.switch_pending(),
            self.live(thread),
        ensures
            self.state_of(thread) != ThreadState::Zombie,
            self.state_of(thread) == ThreadState::Idle <==> self.priority(thread) == Priority::Idle,
            self.state_of(thread) == ThreadState::Idle ==> self.flags(thread) == Flags::none(),
            self.state_of(thread) == ThreadState::Running <==> thread == self.current && thread
                != self.idle,
            self.state_of(thread) == ThreadState::Ready <==> self.in_run_queue(thread),
            self.state_of(thread) == ThreadState::Ready ==> self.flags(thread).queued && !self.flags(
                thread,
            ).asleep,
            self.state_of(thread) == ThreadState::Asleep ==> self.flags(thread).asleep && !self.flags(
                thread,
            ).queued && !self.flags(thread).awake,
    {
        assert(self.thread_wf(thread));
        assert(self.thread_wf(self.idle));
        self.law_never_queued_and_asleep(thread);
        if self.in_run_queue(thread) {
            if self.urgent.contains(thread) {
                let i = choose|i: int| 0 <= i < self.urgent.len() && self.urgent[i] == thread;
                assert(self.queue_member(self.urgent[i]));
            } else {
                let i = choose|i: int| 0 <= i < self.ready.len() && self.ready[i] == thread;
                assert(self.queue_member(self.ready[i]));
            }
        }
    }

    /// An operation takes from the ready queue at most its oldest handle and
    /// adds handles only behind those that are in it: what stays keeps its
    /// order, so a handle that entered before another leaves no later.
    pub proof fn law_ready_queue_is_fifo(self, operation: Operation)
        requires
            self.wf(),
            self.permits(operation),
        ensures
            self.after(operation).ready.len() >= self.ready.len() - 1,
            self.after(operation).ready.take(self.ready.len() as int) == self.ready || (self.ready.len() > 0
                && self.after(operation).ready.take(self.ready.len() - 1) == self.ready.drop_first()),
    {
        let next = self.after(operation);
        match operation {
            Operation::Spawn { raise_pid, priority, name, entry, arg } => {
                assert(next.ready.take(self.ready.len() as int) =~= self.ready);
            },
            Operation::Wake { thread } => {
                assert(next.ready.take(self.ready.len() as int) =~= self.ready);
            },
            Operation::WakeUrgent { thread } => {
                assert(next.ready.take(self.ready.len() as int) =~= self.ready);
            },
            Operation::Sleep => {
                self.lemma_ready_after_switch(self.slept());
            },
            Operation::Yield => {
                self.lemma_ready_after_switch(self.switched());
            },
            Operation::Exit => {
                self.lemma_ready_after_switch(self.exited());
            },
            Operation::Tick => {
                if self.tick_preempts() {
                    self.lemma_ready_after_switch(self.ticked());
                } else {
                    assert(next.ready.take(self.ready.len() as int) =~= self.ready);
                }
            },
            Operation::Resume => {
                assert(next.ready.take(self.ready.len() as int) =~= self.ready);
            },
            Operation::SetUp => {
                assert(next.ready.take(self.ready.len() as int) =~= self.ready);
            },
            Operation::Schedule { event } => {
                assert(next.ready.take(self.ready.len() as int) =~= self.ready);
            },
            Operation::Fire { count } => {
                self.lemma_drained_ready(count);
                assert(self.drained(count).ready.take(self.ready.len() as int) =~= self.ready);
                assert(next.ready == self.drained(count).ready);
            },
            Operation::Enable => {
                assert(next.ready.take(self.ready.len() as int) =~= self.ready);
            },
        }
    }

    proof fn lemma_ready_after_switch(self, next: SchedulerView)
        requires
            next.ready == self.dequeued().ready,
        ensures
            next.ready.take(self.ready.len() as int) == self.ready || (self.ready.len() > 0
                && next.ready.take(self.ready.len() - 1) == self.ready.drop_first()),
            next.ready.len() >= self.ready.len() - 1,
    {
        if self.urgent.len() == 0 && self.ready.len() > 0 {
            assert(next.ready.take(self.ready.len() - 1) =~= self.ready.drop_first());
        } else {
            assert(next.ready.take(self.ready.len() as int) =~= self.ready);
        }
    }

    proof fn lemma_drained_ready(self, count: nat)
        ensures
            self.drained(count).ready.len() >= self.ready.len(),
            forall|i: int| 0 <= i < self.ready.len() ==> self.drained(count).ready[i] == self.ready[i],
        decreases count,
    {
        if count == 0 || self.timers.len() == 0 {
        } else {
            let dropped = SchedulerView { timers: self.timers.drop_first(), ..self };
            let fired = dropped.fired(self.timers[0]);
            let woken = self.timers[0].target();
            assert(fired.ready == self.ready || fired.ready == self.ready.push(woken.unwrap()));
            fired.lemma_drained_ready((count - 1) as nat);
            assert forall|i: int| 0 <= i < self.ready.len() implies self.drained(count).ready[i]
                == self.ready[i] by {
                assert(fired.ready[i] == self.ready[i]);
            }
        }
    }

    /// A wake-up for the running thread is not lost. If the thread goes to
    /// sleep after it, then once the thread has been retired, by the thread
    /// that comes back from the switch or by one that starts, it is Ready:
    /// in the ready queue, marked `QUEUED` and not `ASLEEP`.
    pub proof fn law_wake_before_sleep_is_kept(self, urgent: bool)
        requires
            self.wf(),
            !self.switch_pending(),
            self.priority(self.current) != Priority::Idle,
        ensures
            self.woken(self.current, urgent).slept().resumed().state_of(self.current) == ThreadState::Ready,
            self.woken(self.current, urgent).slept().resumed().ready.contains(self.current),
            self.woken(self.current, urgent).slept().settled().state_of(self.current) == ThreadState::Ready,
            self.woken(self.current, urgent).slept().settled().ready.contains(self.current),
    {
        let thread = self.current;
        assert(self.thread_wf(thread));
        let woken = self.woken(thread, urgent);
        self.lemma_woken_wf(thread, urgent);
        assert(woken == self.with_flags(thread, Flags { awake: true, ..self.flags(thread) }));
        woken.lemma_switched_wf();
        woken.lemma_slept_wf();
        let slept = woken.slept();
        assert(slept.retired == Some(thread));
        assert(slept.flags(thread).awake && !slept.flags(thread).zombie);
        let resumed = slept.resumed();
        let settled = slept.settled();
        assert(slept.thread_wf(slept.current));
        assert(resumed.ready.last() == thread);
        assert(settled.ready.last() == thread);
    }

    /// A thread leaves the registry only as a zombie, at its retirement, and
    /// never while it is the running thread. No operation loses a thread in
    /// any other way.
    pub proof fn law_only_zombies_are_destroyed(self, operation: Operation, thread: usize)
        requires
            self.wf(),
            self.permits(operation),
            self.live(thread),
            !self.after(operation).live(thread),
        ensures
            operation is Resume || operation is SetUp,
            self.retired == Some(thread),
            self.flags(thread).zombie,
            thread != self.current,
            thread != self.idle,
    {
        match operation {
            Operation::Spawn { raise_pid, priority, name, entry, arg } => {
                self.lemma_spawned_wf(raise_pid, priority, name, entry, arg);
                assert(self.after(operation).threads.dom().contains(thread));
            },
            Operation::Wake { thread: woken } => {
                self.lemma_woken_wf(woken, false);
            },
            Operation::WakeUrgent { thread: woken } => {
                self.lemma_woken_wf(woken, true);
            },
            Operation::Sleep => {
                assert(self.slept().threads.dom() =~= self.threads.dom());
            },
            Operation::Yield => {},
            Operation::Exit => {
                assert(self.exited().threads.dom() =~= self.threads.dom());
            },
            Operation::Tick => {
                assert(self.ticked().threads.dom() =~= self.threads.dom());
            },
            Operation::Resume => {
                let flags = self.flags(self.current);
                let cleared = self.with_flags(
                    self.current,
                    Flags { awake: false, asleep: false, ..flags },
                );
                assert(cleared.threads.dom() =~= self.threads.dom());
                assert(self.thread_wf(thread));
                assert(self.thread_wf(self.idle));
                let gone = self.retired.unwrap();
                assert(cleared.settled().threads.dom().contains(thread) || thread == gone);
            },
            Operation::SetUp => {
                assert(self.thread_wf(thread));
                assert(self.thread_wf(self.idle));
                if let Some(gone) = self.retired {
                    assert(self.settled().threads.dom().contains(thread) || thread == gone);
                }
            },
            Operation::Schedule { event } => {},
            Operation::Fire { count } => {
                self.lemma_drained_wf(count);
            },
            Operation::Enable => {},
        }
    }

    /// Thread and process numbers only rise, so a handle that was given out
    /// once is never given out again; the handle of a spawned thread is new.
    pub proof fn law_numbers_only_rise(self, operation: Operation)
        requires
            self.wf(),
            self.permits(operation),
        ensures
            self.after(operation).last_thread >= self.last_thread,
            self.after(operation).last_process >= self.last_process,
            operation is Spawn ==> self.after(operation).last_thread == self.last_thread + 1
                && !self.live(self.after(operation).last_thread)
                && self.after(operation).live(self.after(operation).last_thread),
            !(operation is Spawn) ==> self.after(operation).last_thread == self.last_thread,
    {
        match operation {
            Operation::Spawn { raise_pid, priority, name, entry, arg } => {
                self.lemma_spawned_wf(raise_pid, priority, name, entry, arg);
            },
            Operation::Fire { count } => {
                self.lemma_drained_numbers(count);
            },
            _ => {},
        }
    }

    proof fn lemma_drained_numbers(self, count: nat)
        ensures
            self.drained(count).last_thread == self.last_thread,
            self.drained(count).last_process == self.last_process,
        decreases count,
    {
        if count == 0 || self.timers.len() == 0 {
        } else {
            let dropped = SchedulerView { timers: self.timers.drop_first(), ..self };
            dropped.fired(self.timers[0]).lemma_drained_numbers((count - 1) as nat);
        }
    }

    /// The idle thread stands in no run queue, and it is chosen to run
    /// exactly if both run queues are empty.
    pub proof fn law_idle_is_the_fallback(self)
        requires
            self.wf(),
        ensures
            !self.in_run_queue(self.idle),
            self.chosen() == self.idle <==> self.urgent.len() == 0 && self.ready.len() == 0,
            forall|thread: usize|
                self.live(thread) && self.priority(thread) == Priority::Idle
                    ==> !#[trigger] self.in_run_queue(thread),
    {
        assert forall|thread: usize|
            self.live(thread) && self.priority(thread) == Priority::Idle
            implies !#[trigger] self.in_run_queue(thread) by {
            if self.urgent.contains(thread) {
                let i = choose|i: int| 0 <= i < self.urgent.len() && self.urgent[i] == thread;
                assert(self.queue_member(self.urgent[i]));
            }
            if self.ready.contains(thread) {
                let i = choose|i: int| 0 <= i < self.ready.len() && self.ready[i] == thread;
                assert(self.queue_member(self.ready[i]));
            }
        }
        if self.urgent.len() > 0 {
            assert(self.queue_member(self.urgent[0]));
        } else if self.ready.len() > 0 {
            assert(self.queue_member(self.ready[0]));
        }
    }

    /// A spawned thread starts with the full quantum of its priority.
    pub proof fn law_spawned_with_full_quantum(
        self,
        raise_pid: bool,
        priority: Priority,
        name: Seq<u8>,
        entry: usize,
        arg: usize,
    )
        requires
            self.wf(),
            self.can_spawn(),
        ensures
            self.spawned(raise_pid, priority, name, entry, arg).threads[(self.last_thread
                + 1) as usize].quantum == Quantum::full(priority.ticks()),
            priority.ticks() >= 1,
    {
    }

    /// The clock never preempts a `Realtime` thread: a tick changes nothing.
    pub proof fn law_realtime_is_not_preempted(self)
        requires
            self.priority(self.current) == Priority::Realtime,
        ensures
            self.ticked() == self,
            !self.tick_preempts(),
    {
    }

    /// The pending timer events stand in the order of their deadlines, so
    /// the events that fire in one pass fire in that order, and none that
    /// stays pending is due before one that fired.
    pub proof fn law_timers_fire_by_deadline<S: TimerSource>(
        self,
        next: SchedulerView,
        fired: Seq<TimerEvent>,
        source: &S,
    )
        requires
            self.wf(),
            self.drains_to(next, fired, source),
        ensures
            sorted_by_deadline(self.timers),
            sorted_by_deadline(fired),
            forall|i: int, j: int|
                0 <= i < fired.len() && 0 <= j < next.timers.len() ==> (#[trigger] fired[i]).deadline() <= (
                #[trigger] next.timers[j]).deadline(),
    {
        self.lemma_drained_wf(fired.len());
        assert forall|i: int, j: int| 0 <= i < j < fired.len() implies (#[trigger] fired[i]).deadline() <= (
        #[trigger] fired[j]).deadline() by {
            assert(self.timers[i].deadline() <= self.timers[j].deadline());
        }
        assert forall|i: int, j: int| 0 <= i < fired.len() && 0 <= j < next.timers.len() implies (
        #[trigger] fired[i]).deadline() <= (#[trigger] next.timers[j]).deadline() by {
            assert(next.timers[j] == self.timers[j + fired.len()]);
            assert(self.timers[i].deadline() <= self.timers[j + fired.len()].deadline());
        }
    }
}

/// In a list sorted by deadline there is one place for a new event: the
/// place behind every event that is due no later and before every event
/// that is due later.
pub proof fn law_insert_position_is_unique(timers: Seq<TimerEvent>, event: TimerEvent, position: int)
    requires
        0 <= position <= timers.len(),
        forall|i: int| 0 <= i < position ==> (#[trigger] timers[i]).deadline() <= event.deadline(),
        forall|i: int|
            position <= i < timers.len() ==> (#[trigger] timers[i]).deadline() > event.deadline(),
    ensures
        insert_position(timers, event) == position,
    decreases timers.len(),
{
    if timers.len() == 0 || timers.last().deadline() <= event.deadline() {
        if position < timers.len() {
            assert(timers[timers.len() - 1].deadline() > event.deadline());
        }
    } else {
        assert(position < timers.len()) by {
            if position == timers.len() {
                assert(timers[timers.len() - 1].deadline() <= event.deadline());
            }
        }
        let front = timers.drop_last();
        assert forall|i: int| 0 <= i < position implies (#[trigger] front[i]).deadline()
            <= event.deadline() by {
            assert(timers[i].deadline() <= event.deadline());
        }
        assert forall|i: int| position <= i < front.len() implies (#[trigger] front[i]).deadline()
            > event.deadline() by {
            assert(timers[i].deadline() > event.deadline());
        }
        law_insert_position_is_unique(front, event, position);
    }
}

/// Events with different deadlines end up in the same order whichever of
/// them is scheduled first.
pub proof fn law_schedule_order_is_irrelevant(state: SchedulerView, first: TimerEvent, second: TimerEvent)
    requires
        sorted_by_deadline(state.timers),
        first.deadline() < second.deadline(),
    ensures
        state.scheduled(first).scheduled(second).timers == state.scheduled(second).scheduled(first).timers,
{
    let timers = state.timers;
    lemma_insert_position(timers, first);
    lemma_insert_position(timers, second);
    let first_at = insert_position(timers, first);
    let second_at = insert_position(timers, second);
    assert(first_at <= second_at) by {
        if second_at < first_at {
            assert(timers[second_at].deadline() <= first.deadline());
            assert(timers[second_at].deadline() > second.deadline());
        }
    }
    let with_first = timers.insert(first_at, first);
    let with_second = timers.insert(second_at, second);
    assert forall|i: int| 0 <= i < second_at + 1 implies (#[trigger] with_first[i]).deadline()
        <= second.deadline() by {
        if i < first_at {
            assert(timers[i].deadline() <= first.deadline());
        } else if i > first_at {
            assert(timers[i - 1].deadline() <= second.deadline());
        }
    }
    assert forall|i: int| second_at + 1 <= i < with_first.len() implies (
    #[trigger] with_first[i]).deadline() > second.deadline() by {
        assert(timers[i - 1].deadline() > second.deadline());
    }
    law_insert_position_is_unique(with_first, second, second_at + 1);
    assert forall|i: int| 0 <= i < first_at implies (#[trigger] with_second[i]).deadline()
        <= first.deadline() by {
        assert(timers[i].deadline() <= first.deadline());
    }
    assert forall|i: int| first_at <= i < with_second.len() implies (#[trigger] with_second[i]).deadline()
        > first.deadline() by {
        if i < second_at {
            assert(timers[i].deadline() > first.deadline());
        } else if i > second_at {
            assert(timers[i - 1].deadline() > first.deadline());
        }
    }
    law_insert_position_is_unique(with_second, first, first_at);
    assert(with_first.insert(second_at + 1, second) =~= with_second.insert(first_at, first));
}

/// An event that is scheduled goes behind every pending event with the same
/// deadline: of events that are due together, the one scheduled first fires
/// first.
pub proof fn law_equal_deadlines_keep_order(state: SchedulerView, event: TimerEvent, i: int)
    requires
        sorted_by_deadline(state.timers),
        0 <= i < state.timers.len(),
        state.timers[i].deadline() == event.deadline(),
    ensures
        i < insert_position(state.timers, event),
        state.scheduled(event).timers[i] == state.timers[i],
        state.scheduled(event).timers[insert_position(state.timers, event)] == event,
{
    lemma_insert_position(state.timers, event);
}

/// The deadlines rise along the list: no two events are due together.
pub open spec fn rising_deadlines(events: Seq<TimerEvent>) -> bool {
    forall|i: int, j: int|
        0 <= i < j < events.len() ==> (#[trigger] events[i]).deadline() < (#[trigger] events[j]).deadline()
}

impl SchedulerView {
    /// The state after `events` have been scheduled, one after the other.
    pub open spec fn scheduled_all(self, events: Seq<TimerEvent>) -> SchedulerView
        decreases events.len(),
    {
        if events.len() == 0 {
            self
        } else {
            self.scheduled(events[0]).scheduled_all(events.drop_first())
        }
    }

    /// Scheduling events keeps the list sorted and adds just these events to
    /// it: none is lost, none comes twice.
    pub proof fn law_scheduled_events_are_pending(self, events: Seq<TimerEvent>)
        requires
            sorted_by_deadline(self.timers),
        ensures
            sorted_by_deadline(self.scheduled_all(events).timers),
            self.scheduled_all(events).timers.to_multiset() == self.timers.to_multiset().add(
                events.to_multiset(),
            ),
        decreases events.len(),
    {
        broadcast use vstd::multiset::group_multiset_axioms;

        if events.len() == 0 {
            vstd::seq_lib::to_multiset_len(events);
            vstd::multiset::lemma_multiset_empty_len(events.to_multiset());
            assert(self.timers.to_multiset().add(events.to_multiset()) =~= self.timers.to_multiset());
        } else {
            let first = self.scheduled(events[0]);
            vstd::seq_lib::to_multiset_insert(events.drop_first(), 0, events[0]);
            assert(events.drop_first().insert(0, events[0]) =~= events);
            lemma_insert_position(self.timers, events[0]);
            vstd::seq_lib::to_multiset_insert(
                self.timers,
                insert_position(self.timers, events[0]),
                events[0],
            );
            first.law_scheduled_events_are_pending(events.drop_first());
            assert(self.scheduled_all(events).timers.to_multiset() =~= self.timers.to_multiset().add(
                events.to_multiset(),
            ));
        }
    }
}

/// A list that is sorted by deadline and holds the same events as a list
/// with rising deadlines is that list.
pub proof fn law_order_by_deadline_is_unique(sorted: Seq<TimerEvent>, rising: Seq<TimerEvent>)
    requires
        sorted_by_deadline(sorted),
        rising_deadlines(rising),
        sorted.to_multiset() == rising.to_multiset(),
    ensures
        sorted == rising,
    decreases rising.len(),
{
    broadcast use vstd::multiset::group_multiset_axioms;

    vstd::seq_lib::to_multiset_len(sorted);
    vstd::seq_lib::to_multiset_len(rising);
    if rising.len() == 0 {
        assert(sorted =~= rising);
    } else {
        vstd::seq_lib::to_multiset_contains(sorted, rising[0]);
        vstd::seq_lib::to_multiset_contains(rising, rising[0]);
        vstd::seq_lib::to_multiset_contains(sorted, sorted[0]);
        vstd::seq_lib::to_multiset_contains(rising, sorted[0]);
        assert(rising.contains(rising[0]));
        assert(sorted.contains(sorted[0]));
        let k = choose|k: int| 0 <= k < sorted.len() && sorted[k] == rising[0];
        let m = choose|m: int| 0 <= m < rising.len() && rising[m] == sorted[0];
        if k > 0 {
            assert(sorted[0].deadline() <= sorted[k].deadline());
        }
        if m > 0 {
            assert(rising[0].deadline() < rising[m].deadline());
        }
        assert(sorted[0] == rising[0]);
        let sorted_rest = sorted.remove(0);
        let rising_rest = rising.remove(0);
        vstd::seq_lib::to_multiset_remove(sorted, 0);
        vstd::seq_lib::to_multiset_remove(rising, 0);
        assert forall|i: int, j: int| 0 <= i < j < sorted_rest.len() implies (
        #[trigger] sorted_rest[i]).deadline() <= (#[trigger] sorted_rest[j]).deadline() by {
            assert(sorted[i + 1].deadline() <= sorted[j + 1].deadline());
        }
        assert forall|i: int, j: int| 0 <= i < j < rising_rest.len() implies (
        #[trigger] rising_rest[i]).deadline() < (#[trigger] rising_rest[j]).deadline() by {
            assert(rising[i + 1].deadline() < rising[j + 1].deadline());
        }
        law_order_by_deadline_is_unique(sorted_rest, rising_rest);
        assert(sorted =~= seq![sorted[0]] + sorted_rest);
        assert(rising =~= seq![rising[0]] + rising_rest);
    }
}

/// Events that are due at different times fire in the order of their
/// deadlines, in whatever order they were scheduled: scheduled into an empty
/// list, one after the other in any order, they stand in the list by
/// deadline, and the list fires from its front.
pub proof fn law_insertion_order_is_irrelevant(
    state: SchedulerView,
    events: Seq<TimerEvent>,
    by_deadline: Seq<TimerEvent>,
)
    requires
        state.timers.len() == 0,
        rising_deadlines(by_deadline),
        events.to_multiset() == by_deadline.to_multiset(),
    ensures
        state.scheduled_all(events).timers == by_deadline,
{
    broadcast use vstd::multiset::group_multiset_axioms;

    state.law_scheduled_events_are_pending(events);
    assert(state.timers.to_multiset() =~= vstd::multiset::Multiset::<TimerEvent>::empty()) by {
        vstd::seq_lib::to_multiset_len(state.timers);
        vstd::multiset::lemma_multiset_empty_len(state.timers.to_multiset());
    }
    assert(state.timers.to_multiset().add(events.to_multiset()) =~= events.to_multiset());
    law_order_by_deadline_is_unique(state.scheduled_all(events).timers, by_deadline);
}

} // verus!
