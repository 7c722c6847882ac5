//! The scheduler as a state machine over plain values.
//!
//! A `SchedulerView` is what the scheduler knows at one moment. Each
//! operation of the scheduler is a function from one such state to the next,
//! and `wf` is what holds of every state that the operations can reach.

use crate::task::attributes::Flags;
use crate::task::priority::Priority;
use crate::task::thread::{ProcessId, ThreadView};
use crate::task::timer::{TimeSpec, TimerEvent, TimerSource};
use vstd::prelude::*;
use vstd::string::StringSliceAdditionalSpecFns;

verus! {

/// The state in which a live thread is.
#[derive(Debug, Copy, Clone, PartialEq, Eq, Structural)]
pub enum ThreadState {
    /// The one thread that runs when no other can.
    Idle,
    /// The thread that the processor executes.
    Running,
    /// In a run queue, waiting for its turn.
    Ready,
    /// Blocked until it is woken.
    Asleep,
    /// Finished; the registry destroys it at its retirement.
    Zombie,
}

/// The scheduler's state. Threads are named by the number of their handle.
pub struct SchedulerView {
    /// The registry: every live thread.
    pub threads: Map<usize, ThreadView>,
    /// Runnable threads that were woken from interrupt context, oldest first.
    pub urgent: Seq<usize>,
    /// The other runnable threads, oldest first.
    pub ready: Seq<usize>,
    /// The number of slots of the urgent queue.
    pub urgent_capacity: nat,
    /// The number of slots of the ready queue.
    pub ready_capacity: nat,
    /// The pending timer events, soonest first.
    pub timers: Seq<TimerEvent>,
    /// The most events that can be pending at once.
    pub timer_capacity: nat,
    /// The deadline that the hardware alarm is to be set to; zero for none.
    pub next_timer: TimeSpec,
    /// The thread that runs when both run queues are empty.
    pub idle: usize,
    /// The thread that is running.
    pub current: usize,
    /// The thread that ran before `current`, until it has been retired.
    pub retired: Option<usize>,
    /// The last thread number given out.
    pub last_thread: usize,
    /// The last process number given out.
    pub last_process: usize,
    /// Whether the scheduler has been brought online.
    pub enabled: bool,
}

/// Where `event` goes in a list that is sorted by deadline: behind every
/// event that is due no later, before every event that is due later.
pub open spec fn insert_position(timers: Seq<TimerEvent>, event: TimerEvent) -> int
    decreases timers.len(),
{
    if timers.len() == 0 || timers.last().deadline() <= event.deadline() {
        timers.len() as int
    } else {
        insert_position(timers.drop_last(), event)
    }
}

/// The deadlines never decrease along the list.
pub open spec fn sorted_by_deadline(timers: Seq<TimerEvent>) -> bool {
    forall|i: int, j: int|
        0 <= i < j < timers.len() ==> #[trigger] timers[i].deadline() <= #[trigger] timers[j].deadline()
}

impl SchedulerView {
    pub open spec fn live(self, thread: usize) -> bool {
        self.threads.contains_key(thread)
    }

    pub open spec fn flags(self, thread: usize) -> Flags {
        self.threads[thread].attribute
    }

    pub open spec fn priority(self, thread: usize) -> Priority {
        self.threads[thread].priority
    }

    /// Whether `thread` stands in one of the two run queues.
    pub open spec fn in_run_queue(self, thread: usize) -> bool {
        self.urgent.contains(thread) || self.ready.contains(thread)
    }

    /// Whether a retirement is owed: a switch has begun and the thread that
    /// was switched away from has not been dealt with yet.
    pub open spec fn switch_pending(self) -> bool {
        self.retired is Some
    }

    /// The state of `thread`, read from where the scheduler holds it and from
    /// its attributes.
    pub open spec fn state_of(self, thread: usize) -> ThreadState {
        if self.priority(thread) == Priority::Idle {
            ThreadState::Idle
        } else if thread == self.current {
            ThreadState::Running
        } else if self.flags(thread).zombie {
            ThreadState::Zombie
        } else if self.flags(thread).queued {
            ThreadState::Ready
        } else {
            ThreadState::Asleep
        }
    }

    // ------------------------------------------------------------------
    // Construction

    /// The state right after the scheduler was made: the idle thread alone,
    /// running, and nothing queued or pending. The counters of thread and
    /// process numbers start at 1 and give out the number that follows, so
    /// the idle thread, which is made first, is thread 2. It belongs to
    /// process 0, a number that the counter never gives out.
    pub open spec fn initial(
        urgent_capacity: nat,
        ready_capacity: nat,
        timer_capacity: nat,
    ) -> SchedulerView {
        SchedulerView {
            threads: Map::<usize, ThreadView>::empty().insert(
                2,
                ThreadView::fresh(2, ProcessId(0), Priority::Idle, "Idle".spec_bytes(), None, 0),
            ),
            urgent: Seq::empty(),
            ready: Seq::empty(),
            urgent_capacity,
            ready_capacity,
            timers: Seq::empty(),
            timer_capacity,
            next_timer: 0,
            idle: 2,
            current: 2,
            retired: None,
            last_thread: 2,
            last_process: 1,
            enabled: false,
        }
    }

    pub open spec fn enabled_now(self) -> SchedulerView {
        SchedulerView { enabled: true, ..self }
    }

    // ------------------------------------------------------------------
    // Attributes and queues

    pub open spec fn with_flags(self, thread: usize, flags: Flags) -> SchedulerView {
        SchedulerView {
            threads: self.threads.insert(thread, self.threads[thread].with_attribute(flags)),
            ..self
        }
    }

    pub open spec fn enqueued(self, thread: usize, urgent: bool) -> SchedulerView {
        if urgent {
            SchedulerView { urgent: self.urgent.push(thread), ..self }
        } else {
            SchedulerView { ready: self.ready.push(thread), ..self }
        }
    }

    /// `thread` is made runnable, unless it is an idle thread, a zombie or
    /// runnable already: it is marked `QUEUED` and appended to a run queue,
    /// and a latched wake-up is used up together with `ASLEEP`.
    pub open spec fn added(self, thread: usize, urgent: bool) -> SchedulerView {
        let flags = self.flags(thread);
        if self.priority(thread) == Priority::Idle || flags.zombie || flags.queued {
            self
        } else if flags.awake {
            self.with_flags(thread, Flags { queued: true, awake: false, asleep: false, ..flags }).enqueued(
                thread,
                urgent,
            )
        } else {
            self.with_flags(thread, Flags { queued: true, ..flags }).enqueued(thread, urgent)
        }
    }

    /// `thread` is woken: where it can be queued at once it becomes Ready,
    /// else the wake-up is latched in `AWAKE`. An idle thread takes no
    /// attribute, so on it a wake-up does nothing.
    pub open spec fn woken(self, thread: usize, urgent: bool) -> SchedulerView {
        if self.priority(thread) == Priority::Idle {
            self
        } else {
            self.with_flags(thread, Flags { awake: true, ..self.flags(thread) }).added(thread, urgent)
        }
    }

    // ------------------------------------------------------------------
    // Selection and the switch

    /// The thread to run next: the oldest of the urgent queue; with that
    /// queue empty the oldest of the ready queue; with both empty the idle
    /// thread.
    pub open spec fn chosen(self) -> usize {
        if self.urgent.len() > 0 {
            self.urgent[0]
        } else if self.ready.len() > 0 {
            self.ready[0]
        } else {
            self.idle
        }
    }

    /// The run queues without the thread that `chosen` took from them.
    pub open spec fn dequeued(self) -> SchedulerView {
        if self.urgent.len() > 0 {
            SchedulerView { urgent: self.urgent.drop_first(), ..self }
        } else if self.ready.len() > 0 {
            SchedulerView { ready: self.ready.drop_first(), ..self }
        } else {
            self
        }
    }

    /// Whether a switch is due: the chosen thread is not the running one.
    pub open spec fn switches(self) -> bool {
        self.chosen() != self.current
    }

    /// The state once the next thread has been chosen. Where it differs from
    /// the running one, it becomes the running one, and the thread that ran
    /// awaits its retirement.
    pub open spec fn switched(self) -> SchedulerView {
        if self.switches() {
            SchedulerView { retired: Some(self.current), current: self.chosen(), ..self.dequeued() }
        } else {
            self.dequeued()
        }
    }

    /// Retirement of `thread`, which has just been switched away from. An
    /// idle thread stays out of the queues. A zombie is destroyed. A thread
    /// with a latched wake-up becomes Ready, whether it wanted to sleep or
    /// not. A thread that wanted to sleep is Asleep. Any other is Ready.
    pub open spec fn retire(self, thread: usize) -> SchedulerView {
        let flags = self.flags(thread);
        if self.priority(thread) == Priority::Idle {
            self
        } else if flags.zombie {
            SchedulerView { threads: self.threads.remove(thread), ..self }
        } else if flags.awake {
            self.with_flags(thread, Flags { awake: false, asleep: false, ..flags }).enqueued(thread, false)
        } else if flags.asleep {
            self.with_flags(thread, Flags { queued: false, ..flags })
        } else {
            self.enqueued(thread, false)
        }
    }

    /// The owed retirement, if one is owed, is done.
    pub open spec fn settled(self) -> SchedulerView {
        match self.retired {
            Some(thread) => SchedulerView { retired: None, ..self }.retire(thread),
            None => self,
        }
    }

    /// What the running thread does when it comes back from a switch: it
    /// drops `AWAKE` and `ASLEEP` and retires the thread that ran before it.
    pub open spec fn resumed(self) -> SchedulerView {
        let flags = self.flags(self.current);
        self.with_flags(self.current, Flags { awake: false, asleep: false, ..flags }).settled()
    }

    // ------------------------------------------------------------------
    // Operations of the running thread

    /// The running thread marks itself `ASLEEP`, unless it is the idle
    /// thread, and the next thread is chosen.
    pub open spec fn slept(self) -> SchedulerView {
        if self.priority(self.current) == Priority::Idle {
            self.switched()
        } else {
            self.with_flags(self.current, Flags { asleep: true, ..self.flags(self.current) }).switched()
        }
    }

    /// The running thread marks itself `ZOMBIE`, unless it is the idle
    /// thread, and the next thread is chosen.
    pub open spec fn exited(self) -> SchedulerView {
        if self.priority(self.current) == Priority::Idle {
            self.switched()
        } else {
            self.with_flags(self.current, Flags { zombie: true, ..self.flags(self.current) }).switched()
        }
    }

    /// Whether a tick of the clock preempts the running thread: it is not
    /// `Realtime` and this tick is the last of its quantum.
    pub open spec fn tick_preempts(self) -> bool {
        self.priority(self.current) != Priority::Realtime && self.threads[self.current].quantum.exhausted()
    }

    /// A tick of the clock. A `Realtime` thread is left alone. Any other
    /// loses a tick of its quantum; with the last one the quantum is made
    /// full again and the next thread is chosen.
    pub open spec fn ticked(self) -> SchedulerView {
        if self.priority(self.current) == Priority::Realtime {
            self
        } else {
            let thread = self.threads[self.current];
            let counted = SchedulerView {
                threads: self.threads.insert(self.current, thread.with_quantum(thread.quantum.consumed())),
                ..self
            };
            if thread.quantum.exhausted() {
                counted.switched()
            } else {
                counted
            }
        }
    }

    // ------------------------------------------------------------------
    // Spawning

    /// The process that the running thread belongs to, once the scheduler
    /// is online.
    pub open spec fn current_pid(self) -> Option<ProcessId> {
        if self.enabled {
            Some(self.threads[self.current].pid)
        } else {
            None
        }
    }

    /// The process that a new thread belongs to: a new one if `raise_pid`,
    /// else that of the running thread, else process 0.
    pub open spec fn pid_for(self, raise_pid: bool) -> ProcessId {
        if raise_pid {
            ProcessId((self.last_process + 1) as usize)
        } else {
            match self.current_pid() {
                Some(pid) => pid,
                None => ProcessId(0),
            }
        }
    }

    /// Whether a thread can be spawned: the run queues have room for one
    /// more thread and the numbers have not run out.
    pub open spec fn can_spawn(self) -> bool {
        &&& self.threads.len() < self.urgent_capacity
        &&& self.threads.len() < self.ready_capacity
        &&& self.last_thread < usize::MAX
        &&& self.last_process < usize::MAX
    }

    /// A thread is spawned: it gets the next thread number, enters the
    /// registry as new, and is made Ready unless its priority is `Idle`.
    pub open spec fn spawned(
        self,
        raise_pid: bool,
        priority: Priority,
        name: Seq<u8>,
        entry: usize,
        arg: usize,
    ) -> SchedulerView {
        let thread = (self.last_thread + 1) as usize;
        SchedulerView {
            threads: self.threads.insert(
                thread,
                ThreadView::fresh(thread, self.pid_for(raise_pid), priority, name, Some(entry), arg),
            ),
            last_thread: thread,
            last_process: if raise_pid {
                (self.last_process + 1) as usize
            } else {
                self.last_process
            },
            ..self
        }.added(thread, false)
    }

    // ------------------------------------------------------------------
    // Timers

    /// Whether `event` can be taken in without harm: the thread that it
    /// wakes, if it wakes one, is live and no zombie.
    pub open spec fn resolvable(self, event: TimerEvent) -> bool {
        event.target() matches Some(thread) ==> self.live(thread) && !self.flags(thread).zombie
    }

    /// Whether a timer event targets `thread`.
    pub open spec fn has_timer_for(self, thread: usize) -> bool {
        exists|i: int| 0 <= i < self.timers.len() && #[trigger] self.timers[i].target() == Some(thread)
    }

    /// `event` is pending, at its place by deadline.
    pub open spec fn scheduled(self, event: TimerEvent) -> SchedulerView {
        SchedulerView { timers: self.timers.insert(insert_position(self.timers, event), event), ..self }
    }

    /// `event` fires: the thread that it names is woken. An event for a
    /// window changes nothing here; the window system is told of it.
    pub open spec fn fired(self, event: TimerEvent) -> SchedulerView {
        match event.target() {
            Some(thread) => self.woken(thread, false),
            None => self,
        }
    }

    /// The `count` soonest events fire, soonest first, and are pending no
    /// more.
    pub open spec fn drained(self, count: nat) -> SchedulerView
        decreases count,
    {
        if count == 0 || self.timers.len() == 0 {
            self
        } else {
            SchedulerView { timers: self.timers.drop_first(), ..self }.fired(self.timers[0]).drained(
                (count - 1) as nat,
            )
        }
    }

    /// The soonest pending deadline, if any, becomes the next one to wake at.
    pub open spec fn marked(self) -> SchedulerView {
        if self.timers.len() > 0 {
            SchedulerView { next_timer: self.timers[0].deadline(), ..self }
        } else {
            self
        }
    }

    /// A pass over the pending events of `self` fired `fired`, by the clock
    /// `source`, and `next` is the state after it. The events that fired are
    /// the soonest ones, in the order of the list, and each of them had
    /// elapsed when the clock was asked. The soonest event that is left, if
    /// any, had not.
    pub open spec fn drains_to<S: TimerSource>(
        self,
        next: SchedulerView,
        fired: Seq<TimerEvent>,
        source: &S,
    ) -> bool {
        &&& fired.len() <= self.timers.len()
        &&& fired == self.timers.take(fired.len() as int)
        &&& forall|i: int|
            0 <= i < fired.len() ==> (#[trigger] fired[i]).spec_timer().lies_ahead(source, false)
        &&& next == self.drained(fired.len()).marked()
        &&& next.timers.len() > 0 ==> next.timers[0].spec_timer().lies_ahead(source, true)
    }

    /// A periodic interrupt took the state from `self` to `next` and fired
    /// `fired`: a pass over the timer events, by the clock `source`, then a
    /// tick of the clock for the running thread.
    pub open spec fn rescheduled<S: TimerSource>(
        self,
        next: SchedulerView,
        fired: Seq<TimerEvent>,
        source: &S,
    ) -> bool {
        &&& self.drains_to(self.drained(fired.len()).marked(), fired, source)
        &&& next == self.drained(fired.len()).marked().ticked()
    }

    // ------------------------------------------------------------------
    // What holds of every reachable state

    /// What holds of a thread in a run queue: it is live, no idle thread,
    /// neither running nor awaiting retirement, marked `QUEUED`, and neither
    /// asleep nor a zombie.
    pub open spec fn queue_member(self, thread: usize) -> bool {
        &&& self.live(thread)
        &&& self.priority(thread) != Priority::Idle
        &&& thread != self.current
        &&& self.retired != Some(thread)
        &&& self.flags(thread).queued
        &&& !self.flags(thread).asleep
        &&& !self.flags(thread).zombie
    }

    /// What holds of a live thread, by the place that it is in.
    pub open spec fn thread_wf(self, thread: usize) -> bool {
        let flags = self.flags(thread);
        &&& self.threads[thread].handle == thread
        &&& 0 < thread <= self.last_thread
        &&& self.threads[thread].pid.0 <= self.last_process
        &&& if self.priority(thread) == Priority::Idle {
            flags == Flags::none() && (thread == self.current ==> thread == self.idle)
        } else if thread == self.current {
            flags.queued && !flags.asleep && !flags.zombie
        } else if self.retired == Some(thread) {
            flags.queued
        } else if flags.queued {
            self.in_run_queue(thread)
        } else {
            flags.asleep && !flags.awake && !flags.zombie
        }
    }

    pub open spec fn queues_wf(self) -> bool {
        &&& forall|i: int| 0 <= i < self.urgent.len() ==> self.queue_member(#[trigger] self.urgent[i])
        &&& forall|i: int| 0 <= i < self.ready.len() ==> self.queue_member(#[trigger] self.ready[i])
        &&& self.urgent.no_duplicates()
        &&& self.ready.no_duplicates()
        &&& forall|i: int, j: int|
            0 <= i < self.urgent.len() && 0 <= j < self.ready.len() ==> #[trigger] self.urgent[i]
                != #[trigger] self.ready[j]
    }

    pub open spec fn timers_wf(self) -> bool {
        &&& sorted_by_deadline(self.timers)
        &&& self.timers.len() <= self.timer_capacity
        &&& forall|i: int| 0 <= i < self.timers.len() ==> self.resolvable(#[trigger] self.timers[i])
    }

    /// The invariant of the scheduler.
    pub open spec fn wf(self) -> bool {
        &&& self.threads.dom().finite()
        &&& self.threads.len() <= self.urgent_capacity
        &&& self.threads.len() <= self.ready_capacity
        &&& self.live(self.idle)
        &&& self.priority(self.idle) == Priority::Idle
        &&& self.live(self.current)
        &&& self.retired matches Some(thread) ==> self.live(thread) && thread != self.current
        &&& forall|thread: usize| #[trigger] self.live(thread) ==> self.thread_wf(thread)
        &&& self.queues_wf()
        &&& self.timers_wf()
    }
}

} // verus!
