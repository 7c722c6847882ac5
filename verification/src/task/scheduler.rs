//! The scheduler: which thread runs, and where the others wait.
//!
//! The scheduler decides and keeps the books; it never touches a register.
//! Every operation that may change the running thread returns the switch
//! that is due, as a `ContextSwitch`. The caller performs it with interrupts
//! masked, and the thread that then runs calls `resume`, or, where it runs
//! for the first time, `sch_setup_new_thread`.

use crate::sync::fifo::is_power_of_two;
use crate::task::attributes::ThreadAttributes;
use crate::task::model::{insert_position, SchedulerView, ThreadState};
use crate::task::pool::ThreadPool;
use crate::task::priority::Priority;
use crate::task::queue::ThreadQueue;
use crate::task::thread::{ProcessId, RawThread, ThreadHandle};
use crate::task::timer::{
    duration_micros, Timer, TimerEvent, TimerSource, TimerType, WindowHandle,
};
use core::time::Duration;
use vstd::arithmetic::power2::{lemma2_to64, pow2};
use vstd::prelude::*;
use vstd::string::StringSliceAdditionalSpecFns;

verus! {

broadcast use ThreadHandle::lemma_eq;

/// The number of slots of the urgent queue of a started scheduler.
pub const SIZE_OF_URGENT_QUEUE: usize = 128;

/// The number of slots of the ready queue of a started scheduler.
pub const SIZE_OF_MAIN_QUEUE: usize = 256;

/// The most timer events that can be pending at once.
pub const SIZE_OF_TIMER_QUEUE: usize = 100;

/// A switch that is due: the processor leaves `from` and goes on with `to`.
#[derive(Debug, Copy, Clone)]
pub struct ContextSwitch {
    pub from: ThreadHandle,
    pub to: ThreadHandle,
}

/// The scheduler of one processor.
pub struct Scheduler {
    urgent: ThreadQueue,
    ready: ThreadQueue,
    pool: ThreadPool,
    timer_events: Vec<TimerEvent>,
    next_timer: Timer,
    idle: ThreadHandle,
    current: ThreadHandle,
    retired: Option<ThreadHandle>,
    last_thread: usize,
    last_process: usize,
    enabled: bool,
}

impl View for Scheduler {
    type V = SchedulerView;

    closed spec fn view(&self) -> SchedulerView {
        SchedulerView {
            threads: self.pool@,
            urgent: self.urgent@,
            ready: self.ready@,
            urgent_capacity: self.urgent.capacity(),
            ready_capacity: self.ready.capacity(),
            timers: self.timer_events@,
            timer_capacity: SIZE_OF_TIMER_QUEUE as nat,
            next_timer: self.next_timer@,
            idle: self.idle@,
            current: self.current@,
            retired: match self.retired {
                Some(thread) => Some(thread@),
                None => None,
            },
            last_thread: self.last_thread,
            last_process: self.last_process,
            enabled: self.enabled,
        }
    }
}

impl SchedulerView {
    /// Both run queues keep their free slot.
    pub open spec fn fits(self) -> bool {
        self.urgent.len() < self.urgent_capacity && self.ready.len() < self.ready_capacity
    }
}

impl Scheduler {
    /// The queues and the registry are each well formed.
    closed spec fn parts_wf(&self) -> bool {
        &&& self.urgent.wf()
        &&& self.ready.wf()
        &&& self.pool.wf()
    }

    /// The scheduler is in a state that its operations can reach.
    pub closed spec fn wf(&self) -> bool {
        self.parts_wf() && self@.wf()
    }

    /// A well-formed scheduler is in a state that meets the invariant.
    pub proof fn lemma_wf(&self)
        requires
            self.wf(),
        ensures
            self@.wf(),
    {
    }

    /// A scheduler that is not online yet: the idle thread alone, running,
    /// and run queues of the given numbers of slots.
    pub fn with_capacity(urgent_capacity: usize, ready_capacity: usize) -> (r: Scheduler)
        requires
            is_power_of_two(urgent_capacity as int),
            is_power_of_two(ready_capacity as int),
        ensures
            r.wf(),
            r@ == SchedulerView::initial(
                urgent_capacity as nat,
                ready_capacity as nat,
                SIZE_OF_TIMER_QUEUE as nat,
            ),
    {
        let urgent = ThreadQueue::with_capacity(urgent_capacity);
        let ready = ThreadQueue::with_capacity(ready_capacity);
        let mut pool = ThreadPool::default();
        let mut last_thread: usize = 1;
        let idle = RawThread::new(&mut last_thread, ProcessId(0), Priority::Idle, "Idle", None, 0);
        let handle = idle.handle();
        pool.add(Box::new(idle));
        let r = Scheduler {
            urgent,
            ready,
            pool,
            timer_events: Vec::with_capacity(SIZE_OF_TIMER_QUEUE),
            next_timer: Timer::just(),
            idle: handle,
            current: handle,
            retired: None,
            last_thread,
            last_process: 1,
            enabled: false,
        };
        proof {
            let initial = SchedulerView::initial(
                urgent_capacity as nat,
                ready_capacity as nat,
                SIZE_OF_TIMER_QUEUE as nat,
            );
            r.urgent.lemma_len_below_capacity();
            r.ready.lemma_len_below_capacity();
            assert(r@.threads =~= initial.threads);
            assert(r@.timers =~= initial.timers);
            assert(r@ == initial);
            SchedulerView::lemma_initial_wf(
                urgent_capacity as nat,
                ready_capacity as nat,
                SIZE_OF_TIMER_QUEUE as nat,
            );
        }
        r
    }

    /// Brings the scheduler online.
    pub fn enable(&mut self)
        requires
            old(self).wf(),
        ensures
            final(self).wf(),
            final(self)@ == old(self)@.enabled_now(),
    {
        proof {
            self@.lemma_enabled_wf();
        }
        self.enabled = true;
    }

    /// Whether a switch has begun and the thread that was switched away
    /// from still awaits its retirement.
    pub fn switch_pending(&self) -> (r: bool)
        ensures
            r == self@.switch_pending(),
    {
        self.retired.is_some()
    }

    /// Whether the scheduler is online.
    pub fn is_enabled(&self) -> (r: bool)
        ensures
            r == self@.enabled,
    {
        self.enabled
    }

    /// The process of the running thread; nothing while the scheduler is
    /// not online.
    pub fn current_pid(&self) -> (r: Option<ProcessId>)
        requires
            self.wf(),
        ensures
            r == self@.current_pid(),
    {
        if self.is_enabled() {
            match self.pool.get(&self.current) {
                Some(thread) => Some(thread.pid()),
                None => None,
            }
        } else {
            None
        }
    }

    /// The running thread; nothing while the scheduler is not online.
    pub fn current_thread(&self) -> (r: Option<ThreadHandle>)
        ensures
            r is Some <==> self@.enabled,
            r matches Some(thread) ==> thread@ == self@.current,
    {
        if self.is_enabled() {
            Some(self.current)
        } else {
            None
        }
    }

    /// The control block of `handle`, if the thread is live.
    pub fn thread(&self, handle: ThreadHandle) -> (r: Option<&RawThread>)
        requires
            self.wf(),
        ensures
            r is Some <==> self@.live(handle@),
            r matches Some(thread) ==> thread@ == self@.threads[handle@] && thread.wf(),
    {
        self.pool.get(&handle)
    }

    /// The state of `handle`, if the thread is live.
    pub fn state(&self, handle: ThreadHandle) -> (r: Option<ThreadState>)
        requires
            self.wf(),
        ensures
            r is Some <==> self@.live(handle@),
            r matches Some(state) ==> state == self@.state_of(handle@),
    {
        match self.pool.get(&handle) {
            Some(thread) => {
                let attribute = thread.attribute();
                if thread.priority() == Priority::Idle {
                    Some(ThreadState::Idle)
                } else if handle == self.current {
                    Some(ThreadState::Running)
                } else if attribute.contains(ThreadAttributes::zombie()) {
                    Some(ThreadState::Zombie)
                } else if attribute.contains(ThreadAttributes::queued()) {
                    Some(ThreadState::Ready)
                } else {
                    Some(ThreadState::Asleep)
                }
            },
            None => None,
        }
    }

    /// Makes `handle` runnable, as `SchedulerView::added` says.
    fn add(&mut self, handle: ThreadHandle, urgent: bool)
        requires
            old(self).parts_wf(),
            old(self)@.live(handle@),
            old(self)@.added(handle@, urgent).fits(),
        ensures
            final(self).parts_wf(),
            final(self)@ == old(self)@.added(handle@, urgent),
    {
        let thread = self.pool.get(&handle).unwrap();
        let priority = thread.priority();
        let mut attribute = thread.attribute();
        if priority == Priority::Idle || attribute.contains(ThreadAttributes::zombie()) {
            return ;
        }
        if !attribute.test_and_set(ThreadAttributes::queued()) {
            if attribute.test_and_clear(ThreadAttributes::awake()) {
                attribute.remove(ThreadAttributes::asleep());
            }
            self.pool.set_attribute(&handle, attribute);
            if urgent {
                self.urgent.enqueue(handle).unwrap();
            } else {
                self.ready.enqueue(handle).unwrap();
            }
        }
    }

    /// Wakes `handle`. A thread that is asleep becomes Ready, at the back of
    /// the ready queue. For any other the wake-up is latched, so that the
    /// thread's next attempt to sleep ends at once. On an idle thread a
    /// wake-up does nothing. `handle` must refer to a live thread.
    pub fn wake(&mut self, handle: ThreadHandle)
        requires
            old(self).wf(),
            old(self)@.live(handle@),
        ensures
            final(self).wf(),
            final(self)@ == old(self)@.woken(handle@, false),
    {
        self.wake_to(handle, false);
    }

    /// Wakes `handle` from interrupt context: as `wake`, but a thread that
    /// becomes Ready goes to the urgent queue, which is served first.
    pub fn wake_urgent(&mut self, handle: ThreadHandle)
        requires
            old(self).wf(),
            old(self)@.live(handle@),
        ensures
            final(self).wf(),
            final(self)@ == old(self)@.woken(handle@, true),
    {
        self.wake_to(handle, true);
    }

    fn wake_to(&mut self, handle: ThreadHandle, urgent: bool)
        requires
            old(self).wf(),
            old(self)@.live(handle@),
        ensures
            final(self).wf(),
            final(self)@ == old(self)@.woken(handle@, urgent),
    {
        proof {
            self@.lemma_woken_wf(handle@, urgent);
            self@.woken(handle@, urgent).lemma_queue_room();
        }
        let thread = self.pool.get(&handle).unwrap();
        if thread.priority() == Priority::Idle {
            return ;
        }
        let mut attribute = thread.attribute();
        attribute.insert(ThreadAttributes::awake());
        self.pool.set_attribute(&handle, attribute);
        self.add(handle, urgent);
    }

    /// Takes the next runnable thread out of the run queues: the oldest of
    /// the urgent queue, else the oldest of the ready queue, else nothing.
    fn next(&mut self) -> (r: Option<ThreadHandle>)
        requires
            old(self).parts_wf(),
        ensures
            final(self).parts_wf(),
            final(self)@ == old(self)@.dequeued(),
            r is Some <==> old(self)@.urgent.len() > 0 || old(self)@.ready.len() > 0,
            r matches Some(thread) ==> thread@ == old(self)@.chosen(),
    {
        if let Some(next) = self.urgent.dequeue() {
            return Some(next);
        }
        if let Some(next) = self.ready.dequeue() {
            return Some(next);
        }
        None
    }

    /// Chooses the thread to run next and makes it the running one. Where it
    /// is another than the one that ran, the result is the switch to
    /// perform, and the thread that ran awaits its retirement. No earlier
    /// retirement may still be owed: the thread that runs after a switch
    /// retires its predecessor before it asks for the next switch.
    pub fn switch_context(&mut self) -> (r: Option<ContextSwitch>)
        requires
            old(self).wf(),
            !old(self)@.switch_pending(),
        ensures
            final(self).wf(),
            final(self)@ == old(self)@.switched(),
            r is Some <==> old(self)@.switches(),
            r matches Some(switch) ==> switch.from@ == old(self)@.current && switch.to@ == old(
                self,
            )@.chosen(),
    {
        proof {
            self@.lemma_switched_wf();
        }
        self.switch_unchecked()
    }

    /// The steps of `switch_context`, for a state that need not meet the
    /// whole invariant.
    fn switch_unchecked(&mut self) -> (r: Option<ContextSwitch>)
        requires
            old(self).parts_wf(),
        ensures
            final(self).parts_wf(),
            final(self)@ == old(self)@.switched(),
            r is Some <==> old(self)@.switches(),
            r matches Some(switch) ==> switch.from@ == old(self)@.current && switch.to@ == old(
                self,
            )@.chosen(),
    {
        let current = self.current;
        let next = match self.next() {
            Some(next) => next,
            None => self.idle,
        };
        if current != next {
            self.retired = Some(current);
            self.current = next;
            Some(ContextSwitch { from: current, to: next })
        } else {
            None
        }
    }

    /// Retires `handle`, as `SchedulerView::retire` says.
    fn retire(&mut self, handle: ThreadHandle)
        requires
            old(self).parts_wf(),
            old(self)@.live(handle@),
            old(self)@.retire(handle@).fits(),
        ensures
            final(self).parts_wf(),
            final(self)@ == old(self)@.retire(handle@),
    {
        let thread = self.pool.get(&handle).unwrap();
        let priority = thread.priority();
        let mut attribute = thread.attribute();
        if priority == Priority::Idle {
            return ;
        } else if attribute.contains(ThreadAttributes::zombie()) {
            self.pool.drop_thread(handle);
        } else if attribute.test_and_clear(ThreadAttributes::awake()) {
            attribute.remove(ThreadAttributes::asleep());
            self.pool.set_attribute(&handle, attribute);
            self.ready.enqueue(handle).unwrap();
        } else if attribute.contains(ThreadAttributes::asleep()) {
            attribute.remove(ThreadAttributes::queued());
            self.pool.set_attribute(&handle, attribute);
        } else {
            self.ready.enqueue(handle).unwrap();
        }
    }

    /// To be called by the running thread when it comes back from a switch,
    /// before anything else: drops its `AWAKE` and `ASLEEP` and retires the
    /// thread that ran before it.
    pub fn resume(&mut self)
        requires
            old(self).wf(),
            old(self)@.switch_pending(),
        ensures
            final(self).wf(),
            final(self)@ == old(self)@.resumed(),
    {
        proof {
            self@.lemma_resumed_wf();
            self@.resumed().lemma_queue_room();
        }
        let current = self.current;
        let mut attribute = self.pool.get(&current).unwrap().attribute();
        attribute.remove(ThreadAttributes::awake());
        attribute.remove(ThreadAttributes::asleep());
        self.pool.set_attribute(&current, attribute);
        let retired = self.retired.unwrap();
        self.retired = None;
        self.retire(retired);
    }

    /// Does the retirement that is owed, if one is.
    fn settle(&mut self)
        requires
            old(self).wf(),
        ensures
            final(self).wf(),
            final(self)@ == old(self)@.settled(),
    {
        proof {
            self@.lemma_settled_wf();
            self@.settled().lemma_queue_room();
        }
        if let Some(retired) = self.retired {
            self.retired = None;
            self.retire(retired);
        }
    }

    /// Puts the running thread to sleep: it marks itself `ASLEEP` and the
    /// next thread is chosen. At its retirement the thread becomes Asleep,
    /// or Ready if a wake-up was latched for it.
    pub fn sleep(&mut self) -> (r: Option<ContextSwitch>)
        requires
            old(self).wf(),
            !old(self)@.switch_pending(),
        ensures
            final(self).wf(),
            final(self)@ == old(self)@.slept(),
            r is Some <==> old(self)@.switches(),
            r matches Some(switch) ==> switch.from@ == old(self)@.current && switch.to@ == old(
                self,
            )@.chosen(),
    {
        proof {
            self@.lemma_slept_wf();
        }
        let current = self.current;
        let thread = self.pool.get(&current).unwrap();
        if thread.priority() != Priority::Idle {
            let mut attribute = thread.attribute();
            attribute.insert(ThreadAttributes::asleep());
            self.pool.set_attribute(&current, attribute);
        }
        self.switch_unchecked()
    }

    /// Gives the processor up: the next thread is chosen, and the running
    /// thread is Ready again at its retirement.
    pub fn yield_thread(&mut self) -> (r: Option<ContextSwitch>)
        requires
            old(self).wf(),
            !old(self)@.switch_pending(),
        ensures
            final(self).wf(),
            final(self)@ == old(self)@.switched(),
            r is Some <==> old(self)@.switches(),
            r matches Some(switch) ==> switch.from@ == old(self)@.current && switch.to@ == old(
                self,
            )@.chosen(),
    {
        self.switch_context()
    }

    /// Ends the running thread: it marks itself `ZOMBIE` and the next thread
    /// is chosen. At its retirement the registry destroys it. No timer event
    /// may still name the thread: it would fire for a thread that is gone.
    pub fn exit(&mut self) -> (r: Option<ContextSwitch>)
        requires
            old(self).wf(),
            !old(self)@.switch_pending(),
            !old(self)@.has_timer_for(old(self)@.current),
        ensures
            final(self).wf(),
            final(self)@ == old(self)@.exited(),
            r is Some <==> old(self)@.switches(),
            r matches Some(switch) ==> switch.from@ == old(self)@.current && switch.to@ == old(
                self,
            )@.chosen(),
    {
        proof {
            self@.lemma_exited_wf();
        }
        let current = self.current;
        let thread = self.pool.get(&current).unwrap();
        if thread.priority() != Priority::Idle {
            let mut attribute = thread.attribute();
            attribute.insert(ThreadAttributes::zombie());
            self.pool.set_attribute(&current, attribute);
        }
        self.switch_unchecked()
    }

    /// A tick of the clock for the running thread. A `Realtime` thread is
    /// left alone. Any other loses a tick of its quantum; with the last one
    /// the quantum is full again and the next thread is chosen.
    pub fn tick(&mut self) -> (r: Option<ContextSwitch>)
        requires
            old(self).wf(),
            !old(self)@.switch_pending(),
        ensures
            final(self).wf(),
            final(self)@ == old(self)@.ticked(),
            r is Some <==> old(self)@.tick_preempts() && old(self)@.switches(),
            r matches Some(switch) ==> switch.from@ == old(self)@.current && switch.to@ == old(
                self,
            )@.chosen(),
    {
        proof {
            self@.lemma_ticked_wf();
        }
        let current = self.current;
        let thread = self.pool.get(&current).unwrap();
        if thread.priority() != Priority::Realtime {
            let mut quantum = thread.quantum();
            let exhausted = quantum.consume();
            self.pool.set_quantum(&current, quantum);
            if exhausted {
                return self.switch_unchecked();
            }
        }
        None
    }

    /// Whether a thread can be spawned now: the run queues have room for
    /// one more thread, and the thread and process numbers have not run out.
    pub fn can_spawn(&self) -> (r: bool)
        requires
            self.wf(),
        ensures
            r == self@.can_spawn(),
    {
        let threads = self.pool.len();
        threads <= self.urgent.limit() && threads <= self.ready.limit() && self.last_thread
            < usize::MAX && self.last_process < usize::MAX
    }

    /// Spawns a thread that starts at the address `start` with the argument
    /// `args`. It belongs to a new process if `options.raise_pid`, else to
    /// the process of the running thread. The thread is Ready at the back of
    /// the ready queue, unless its priority is `Idle`: such a thread is only
    /// registered. The result is the handle of the new thread. There must be
    /// room for the thread, as `can_spawn` tells: the run queues are sized
    /// for the threads that may be runnable at once.
    pub fn spawn_f(
        &mut self,
        start: usize,
        args: usize,
        name: &str,
        options: SpawnOption,
    ) -> (r: Option<ThreadHandle>)
        requires
            old(self).wf(),
            old(self)@.can_spawn(),
        ensures
            final(self).wf(),
            final(self)@ == old(self)@.spawned(
                options.raise_pid,
                options.priority,
                name.spec_bytes(),
                start,
                args,
            ),
            r is Some,
            r.unwrap()@ == old(self)@.last_thread + 1,
    {
        proof {
            self@.lemma_spawned_wf(options.raise_pid, options.priority, name.spec_bytes(), start, args);
            self@.spawned(
                options.raise_pid,
                options.priority,
                name.spec_bytes(),
                start,
                args,
            ).lemma_queue_room();
        }
        let pid = if options.raise_pid {
            ProcessId::raise(&mut self.last_process)
        } else {
            match self.current_pid() {
                Some(pid) => pid,
                None => ProcessId(0),
            }
        };
        let thread = RawThread::new(
            &mut self.last_thread,
            pid,
            options.priority,
            name,
            Some(start),
            args,
        );
        let handle = thread.handle();
        self.pool.add(Box::new(thread));
        self.add(handle, false);
        Some(handle)
    }

    /// A scheduler that is online: run queues of `SIZE_OF_URGENT_QUEUE` and
    /// `SIZE_OF_MAIN_QUEUE` slots, the idle thread running, and a first
    /// thread named "System", of normal priority and in a process of its
    /// own, Ready to start at `f` with `args`.
    pub fn start(f: usize, args: usize) -> (r: Scheduler)
        ensures
            r.wf(),
            r@ == SchedulerView::initial(
                SIZE_OF_URGENT_QUEUE as nat,
                SIZE_OF_MAIN_QUEUE as nat,
                SIZE_OF_TIMER_QUEUE as nat,
            ).spawned(true, Priority::Normal, "System".spec_bytes(), f, args).enabled_now(),
    {
        proof {
            lemma2_to64();
            assert(pow2(7) == SIZE_OF_URGENT_QUEUE);
            assert(pow2(8) == SIZE_OF_MAIN_QUEUE);
        }
        let mut scheduler = Scheduler::with_capacity(SIZE_OF_URGENT_QUEUE, SIZE_OF_MAIN_QUEUE);
        proof {
            assert(scheduler@.threads.dom() =~= Set::<usize>::empty().insert(2));
        }
        SpawnOption::with_priority(Priority::Normal).spawn(&mut scheduler, f, args, "System");
        scheduler.enable();
        scheduler
    }

    /// The deadline that the hardware alarm is to be set to: the soonest
    /// pending deadline as of the last pass over the timer events.
    pub fn next_timer(&self) -> (r: Timer)
        ensures
            r@ == self@.next_timer,
    {
        self.next_timer
    }

    /// The number of pending timer events.
    pub fn pending_timers(&self) -> (r: usize)
        ensures
            r == self@.timers.len(),
    {
        self.timer_events.len()
    }

    /// Whether a pending timer event wakes `handle`.
    pub fn has_timer_for(&self, handle: ThreadHandle) -> (r: bool)
        ensures
            r == self@.has_timer_for(handle@),
    {
        let mut i: usize = 0;
        while i < self.timer_events.len()
            invariant
                i <= self.timer_events@.len(),
                forall|j: int| 0 <= j < i ==> self.timer_events@[j].target() != Some(handle@),
            decreases self.timer_events@.len() - i,
        {
            match self.timer_events[i].timer_type() {
                TimerType::OneShot(thread) => {
                    if thread == handle {
                        return true;
                    }
                },
                TimerType::Window(_, _) => {},
            }
            i += 1;
        }
        false
    }

    /// Whether `event` can be scheduled without harm: the thread that it
    /// wakes, if it wakes one, is live and no zombie.
    pub fn can_schedule(&self, event: &TimerEvent) -> (r: bool)
        requires
            self.wf(),
        ensures
            r == self@.resolvable(*event),
    {
        match event.timer_type() {
            TimerType::OneShot(thread) => {
                match self.pool.get(&thread) {
                    Some(thread) => !thread.attribute().contains(ThreadAttributes::zombie()),
                    None => false,
                }
            },
            TimerType::Window(_, _) => true,
        }
    }

    /// Takes `event` in, at its place by deadline: behind every pending
    /// event that is due no later. Then the events that are due fire, as in
    /// `process_timer_event`; the result holds them. With
    /// `SIZE_OF_TIMER_QUEUE` events pending there is no room: the event comes
    /// back and nothing changes. The thread that the event wakes must be
    /// live and no zombie, as `can_schedule` tells.
    pub fn schedule_timer<S: TimerSource>(
        &mut self,
        event: TimerEvent,
        source: &S,
    ) -> (r: Result<Vec<TimerEvent>, TimerEvent>)
        requires
            old(self).wf(),
            old(self)@.resolvable(event),
        ensures
            final(self).wf(),
            old(self)@.timers.len() >= SIZE_OF_TIMER_QUEUE ==> r == Err::<Vec<TimerEvent>, TimerEvent>(
                event,
            ) && final(self)@ == old(self)@,
            old(self)@.timers.len() < SIZE_OF_TIMER_QUEUE ==> r is Ok && old(self)@.scheduled(
                event,
            ).drains_to(final(self)@, r.unwrap()@, source),
    {
        if self.timer_events.len() >= SIZE_OF_TIMER_QUEUE {
            return Err(event);
        }
        let deadline = event.timer().deadline();
        let mut position = self.timer_events.len();
        assert(self.timer_events@.take(position as int) =~= self.timer_events@);
        while position > 0 && self.timer_events[position - 1].timer().deadline() > deadline
            invariant
                position <= self.timer_events@.len(),
                deadline == event.deadline(),
                insert_position(self.timer_events@, event) == insert_position(
                    self.timer_events@.take(position as int),
                    event,
                ),
            decreases position,
        {
            proof {
                let front = self.timer_events@.take(position as int);
                assert(front.last() == self.timer_events@[position - 1]);
                assert(front.drop_last() =~= self.timer_events@.take(position - 1));
            }
            position -= 1;
        }
        proof {
            let front = self.timer_events@.take(position as int);
            if position > 0 {
                assert(front.last() == self.timer_events@[position - 1]);
            }
            self@.lemma_scheduled_wf(event);
        }
        self.timer_events.insert(position, event);
        Ok(self.process_timer_event(source))
    }

    /// Takes the soonest pending timer event out and fires it. The result
    /// is that event.
    pub fn fire_first(&mut self) -> (r: TimerEvent)
        requires
            old(self).wf(),
            old(self)@.timers.len() > 0,
        ensures
            final(self).wf(),
            r == old(self)@.timers[0],
            final(self)@ == old(self)@.drained(1),
    {
        proof {
            self@.lemma_drained_step(0);
            self@.lemma_dropped_wf();
        }
        let event = self.timer_events.remove(0);
        assert(self.timer_events@ =~= old(self)@.timers.drop_first());
        event.fire(self);
        event
    }

    /// A pass over the pending timer events: as long as the soonest of them
    /// is due, by the clock `source`, it is taken out and fires. Then the
    /// soonest deadline that is left, if any, becomes the next one to wake
    /// at. The result holds the events that fired, in the order in which
    /// they did; the caller tells the window system of those that are for a
    /// window.
    pub fn process_timer_event<S: TimerSource>(&mut self, source: &S) -> (r: Vec<TimerEvent>)
        requires
            old(self).wf(),
        ensures
            final(self).wf(),
            old(self)@.drains_to(final(self)@, r@, source),
    {
        let mut fired: Vec<TimerEvent> = Vec::new();
        let mut due = true;
        while due
            invariant
                self.wf(),
                fired@.len() <= old(self)@.timers.len(),
                fired@ == old(self)@.timers.take(fired@.len() as int),
                forall|i: int|
                    0 <= i < fired@.len() ==> (#[trigger] fired@[i]).spec_timer().lies_ahead(source, false),
                self@ == old(self)@.drained(fired@.len()),
                self@.timers == old(self)@.timers.skip(fired@.len() as int),
                old(self).wf(),
                !due ==> self@.timers.len() == 0 || self@.timers[0].spec_timer().lies_ahead(source, true),
            decreases self@.timers.len() + (if due { 1int } else { 0 }),
        {
            if self.timer_events.len() == 0 {
                due = false;
            } else if self.timer_events[0].until(source) {
                due = false;
            } else {
                proof {
                    old(self)@.lemma_drained_step(fired@.len());
                    self@.lemma_drained_step(0);
                }
                let event = self.fire_first();
                proof {
                    assert(old(self)@.timers.take(fired@.len() as int + 1) =~= fired@.push(event));
                    old(self)@.lemma_drained_wf((fired@.len() + 1) as nat);
                }
                fired.push(event);
            }
        }
        proof {
            self@.lemma_marked_wf();
        }
        if self.timer_events.len() > 0 {
            self.next_timer = self.timer_events[0].timer();
        }
        fired
    }

    /// What a periodic interrupt asks of the scheduler, once it is online:
    /// a pass over the timer events, then a tick of the clock for the
    /// running thread. The result holds the events that fired and the switch
    /// that is due, if any.
    pub fn reschedule<S: TimerSource>(
        &mut self,
        source: &S,
    ) -> (r: (Vec<TimerEvent>, Option<ContextSwitch>))
        requires
            old(self).wf(),
            !old(self)@.switch_pending(),
        ensures
            final(self).wf(),
            !old(self)@.enabled ==> final(self)@ == old(self)@ && r.0@.len() == 0 && r.1 is None,
            old(self)@.enabled ==> old(self)@.rescheduled(final(self)@, r.0@, source),
            old(self)@.enabled ==> (r.1 is Some <==> final(self)@.switch_pending()),
            r.1 matches Some(switch) ==> switch.to@ == final(self)@.current
                && Some(switch.from@) == final(self)@.retired,
    {
        if self.is_enabled() {
            let fired = self.process_timer_event(source);
            proof {
                old(self)@.lemma_drained_wf(fired@.len());
                old(self)@.drained(fired@.len()).marked().lemma_switched_wf();
                self@.lemma_ticked_wf();
            }
            let switch = self.tick();
            (fired, switch)
        } else {
            (Vec::new(), None)
        }
    }
}

/// To be called by a thread that runs for the first time, before anything
/// else: retires the thread that ran before it, if that is still owed.
pub fn sch_setup_new_thread(scheduler: &mut Scheduler)
    requires
        old(scheduler).wf(),
    ensures
        final(scheduler).wf(),
        final(scheduler)@ == old(scheduler)@.settled(),
{
    scheduler.settle();
}

/// How a thread is to be spawned.
pub struct SpawnOption {
    pub priority: Priority,
    /// Whether the thread starts a process of its own.
    pub raise_pid: bool,
}

impl SpawnOption {
    /// Normal priority, in the process of the spawning thread.
    #[inline]
    pub fn new() -> (r: Self)
        ensures
            r.priority == Priority::Normal,
            !r.raise_pid,
    {
        Self { priority: Priority::Normal, raise_pid: false }
    }

    /// The given priority, in the process of the spawning thread.
    #[inline]
    pub fn with_priority(priority: Priority) -> (r: Self)
        ensures
            r.priority == priority,
            !r.raise_pid,
    {
        Self { priority, raise_pid: false }
    }

    /// Spawns a thread in the process that these options name.
    #[inline]
    pub fn spawn_f(
        self,
        scheduler: &mut Scheduler,
        start: usize,
        args: usize,
        name: &str,
    ) -> (r: Option<ThreadHandle>)
        requires
            old(scheduler).wf(),
            old(scheduler)@.can_spawn(),
        ensures
            final(scheduler).wf(),
            final(scheduler)@ == old(scheduler)@.spawned(
                self.raise_pid,
                self.priority,
                name.spec_bytes(),
                start,
                args,
            ),
            r is Some,
            r.unwrap()@ == old(scheduler)@.last_thread + 1,
    {
        scheduler.spawn_f(start, args, name, self)
    }

    /// Spawns a thread in a process of its own.
    #[inline]
    pub fn spawn(
        self,
        scheduler: &mut Scheduler,
        start: usize,
        args: usize,
        name: &str,
    ) -> (r: Option<ThreadHandle>)
        requires
            old(scheduler).wf(),
            old(scheduler)@.can_spawn(),
        ensures
            final(scheduler).wf(),
            final(scheduler)@ == old(scheduler)@.spawned(
                true,
                self.priority,
                name.spec_bytes(),
                start,
                args,
            ),
            r is Some,
            r.unwrap()@ == old(scheduler)@.last_thread + 1,
    {
        let mut options = self;
        options.raise_pid = true;
        scheduler.spawn_f(start, args, name, options)
    }
}

impl TimerEvent {
    /// The event that wakes the running thread once `timer` has elapsed.
    pub fn one_shot(timer: Timer, scheduler: &Scheduler) -> (r: Self)
        requires
            scheduler@.enabled,
        ensures
            r.spec_timer() == timer,
            r.target() == Some(scheduler@.current),
    {
        TimerEvent::wake_up(scheduler.current_thread().unwrap(), timer)
    }

    /// Fires the event. One for a thread wakes that thread. One for a window
    /// changes nothing here: the result names the window and its timer, for
    /// the caller to tell the window system.
    pub fn fire(self, scheduler: &mut Scheduler) -> (r: Option<(WindowHandle, usize)>)
        requires
            old(scheduler).wf(),
            self.target() matches Some(thread) ==> old(scheduler)@.live(thread),
        ensures
            final(scheduler).wf(),
            final(scheduler)@ == old(scheduler)@.fired(self),
            r == match self.spec_timer_type() {
                TimerType::OneShot(_) => None,
                TimerType::Window(window, timer_id) => Some((window, timer_id)),
            },
    {
        match self.timer_type() {
            TimerType::OneShot(thread) => {
                thread.wake(scheduler);
                None
            },
            TimerType::Window(window, timer_id) => Some((window, timer_id)),
        }
    }
}

impl ThreadHandle {
    /// The name of the thread, if it is live and has a name that is valid
    /// UTF-8.
    #[inline]
    pub fn name<'a>(&self, scheduler: &'a Scheduler) -> (r: Option<&'a str>)
        requires
            scheduler.wf(),
        ensures
            r is Some <==> scheduler@.live(self@) && scheduler@.threads[self@].name.len() > 0
                && vstd::utf8::valid_utf8(scheduler@.threads[self@].name),
            r matches Some(name) ==> name.spec_bytes() == scheduler@.threads[self@].name,
    {
        match scheduler.thread(*self) {
            Some(thread) => thread.name(),
            None => None,
        }
    }

    /// Wakes the thread, as `Scheduler::wake` does.
    #[inline]
    pub fn wake(&self, scheduler: &mut Scheduler)
        requires
            old(scheduler).wf(),
            old(scheduler)@.live(self@),
        ensures
            final(scheduler).wf(),
            final(scheduler)@ == old(scheduler)@.woken(self@, false),
    {
        scheduler.wake(*self);
    }
}

/// How an attempt to sleep until a deadline went.
#[derive(Debug)]
pub enum SleepStep {
    /// The deadline had passed: nothing was done, and the sleep is over.
    Elapsed,
    /// The wake-up is pending and the thread has gone to sleep. `fired`
    /// holds the timer events that fired on the way. The sleep is over when
    /// the thread runs again.
    Asleep { fired: Vec<TimerEvent>, switch: Option<ContextSwitch> },
    /// There was no room for the wake-up, so the thread has given the
    /// processor up. When it runs again it tries once more, with `event`.
    Retry { event: TimerEvent, switch: Option<ContextSwitch> },
}

impl SchedulerView {
    /// An attempt of the running thread to sleep until `event` wakes it took
    /// the state from `self` to `next` and ended as `step` says, by the
    /// clock `source`. With the deadline elapsed, nothing changed. Else,
    /// with room for the event, it was scheduled, a pass over the timer
    /// events followed, and the thread went to sleep; without room, the
    /// thread gave the processor up.
    pub open spec fn sleeps_to<S: TimerSource>(
        self,
        next: SchedulerView,
        event: TimerEvent,
        step: SleepStep,
        source: &S,
    ) -> bool {
        match step {
            SleepStep::Elapsed => {
                &&& event.spec_timer().lies_ahead(source, false)
                &&& next == self
            },
            SleepStep::Asleep { fired, switch } => {
                let passed = self.scheduled(event).drained(fired@.len()).marked();
                &&& event.spec_timer().lies_ahead(source, true)
                &&& self.timers.len() < self.timer_capacity
                &&& self.scheduled(event).drains_to(passed, fired@, source)
                &&& next == passed.slept()
                &&& switch is Some <==> next.switch_pending()
                &&& switch matches Some(switch) ==> switch.to@ == next.current && Some(switch.from@)
                    == next.retired
            },
            SleepStep::Retry { event: again, switch } => {
                &&& event.spec_timer().lies_ahead(source, true)
                &&& self.timers.len() >= self.timer_capacity
                &&& again == event
                &&& next == self.switched()
                &&& switch is Some <==> next.switch_pending()
                &&& switch matches Some(switch) ==> switch.to@ == next.current && Some(switch.from@)
                    == next.retired
            },
        }
    }

    /// The running thread's attempt to sleep for `duration` took the state
    /// from `self` to `next` and ended as `step` says: an attempt to sleep
    /// until an event wakes the running thread, at the deadline that the
    /// clock `source` gave for `duration`.
    pub open spec fn sleeps_for<S: TimerSource>(
        self,
        next: SchedulerView,
        duration: Duration,
        step: SleepStep,
        source: &S,
    ) -> bool {
        exists|event: TimerEvent|
            event.target() == Some(self.current) && call_ensures(
                S::create,
                (source, duration),
                event.deadline(),
            ) && #[trigger] self.sleeps_to(next, event, step, source)
    }
}

impl Timer {
    /// One attempt of the running thread to sleep until `event` wakes it.
    /// With the deadline passed, nothing is done. Else the event is
    /// scheduled and the thread goes to sleep; or, where there is no room
    /// for the event, the thread gives the processor up, to try again when
    /// it runs next. An event without a deadline has always passed.
    pub fn sleep_until<S: TimerSource>(
        event: TimerEvent,
        scheduler: &mut Scheduler,
        source: &S,
    ) -> (r: SleepStep)
        requires
            old(scheduler).wf(),
            !old(scheduler)@.switch_pending(),
            old(scheduler)@.resolvable(event),
        ensures
            final(scheduler).wf(),
            old(scheduler)@.sleeps_to(final(scheduler)@, event, r, source),
    {
        if !event.until(source) {
            return SleepStep::Elapsed;
        }
        proof {
            scheduler.lemma_wf();
        }
        match scheduler.schedule_timer(event, source) {
            Ok(fired) => {
                proof {
                    scheduler.lemma_wf();
                    let scheduled = old(scheduler)@.scheduled(event);
                    old(scheduler)@.lemma_scheduled_wf(event);
                    scheduled.lemma_drained_wf(fired@.len());
                    scheduled.drained(fired@.len()).marked().lemma_slept_wf();
                }
                let switch = scheduler.sleep();
                SleepStep::Asleep { fired, switch }
            },
            Err(event) => {
                proof {
                    old(scheduler)@.lemma_switched_wf();
                }
                let switch = scheduler.yield_thread();
                SleepStep::Retry { event, switch }
            },
        }
    }

    /// The running thread sleeps for `duration`, by the clock `source`: the
    /// first attempt of `sleep_until`, with the event that wakes the running
    /// thread when `duration` has passed. The scheduler must be online.
    pub fn sleep<S: TimerSource>(
        duration: Duration,
        scheduler: &mut Scheduler,
        source: &S,
    ) -> (r: SleepStep)
        requires
            old(scheduler).wf(),
            old(scheduler)@.enabled,
            !old(scheduler)@.switch_pending(),
        ensures
            final(scheduler).wf(),
            old(scheduler)@.sleeps_for(final(scheduler)@, duration, r, source),
    {
        let timer = Timer::new(duration, source);
        let event = TimerEvent::one_shot(timer, scheduler);
        proof {
            scheduler.lemma_wf();
            assert(scheduler@.thread_wf(scheduler@.current));
        }
        Timer::sleep_until(event, scheduler, source)
    }

    /// The running thread sleeps for `us` microseconds.
    #[inline]
    pub fn usleep<S: TimerSource>(us: u64, scheduler: &mut Scheduler, source: &S) -> (r: SleepStep)
        requires
            old(scheduler).wf(),
            old(scheduler)@.enabled,
            !old(scheduler)@.switch_pending(),
        ensures
            final(scheduler).wf(),
            exists|duration: Duration|
                duration_micros(duration) == us && #[trigger] old(scheduler)@.sleeps_for(
                    final(scheduler)@,
                    duration,
                    r,
                    source,
                ),
    {
        let duration = Duration::from_micros(us);
        Self::sleep(duration, scheduler, source)
    }

    /// The running thread sleeps for `ms` milliseconds.
    #[inline]
    pub fn msleep<S: TimerSource>(ms: u64, scheduler: &mut Scheduler, source: &S) -> (r: SleepStep)
        requires
            old(scheduler).wf(),
            old(scheduler)@.enabled,
            !old(scheduler)@.switch_pending(),
        ensures
            final(scheduler).wf(),
            exists|duration: Duration|
                duration_micros(duration) == ms * 1000 && #[trigger] old(scheduler)@.sleeps_for(
                    final(scheduler)@,
                    duration,
                    r,
                    source,
                ),
    {
        let duration = Duration::from_millis(ms);
        Self::sleep(duration, scheduler, source)
    }
}

} // verus!
