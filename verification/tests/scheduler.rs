use kernel::task::attributes::ThreadAttributes;
use kernel::task::model::ThreadState;
use kernel::task::priority::{Priority, Quantum};
use kernel::task::scheduler::{
    sch_setup_new_thread, ContextSwitch, Scheduler, SpawnOption, SIZE_OF_MAIN_QUEUE,
    SIZE_OF_TIMER_QUEUE, SIZE_OF_URGENT_QUEUE,
};
use kernel::task::thread::{ProcessId, ThreadHandle};

fn handle(number: usize) -> ThreadHandle {
    ThreadHandle::new(number).unwrap()
}

fn spawn(scheduler: &mut Scheduler, priority: Priority, name: &str) -> ThreadHandle {
    assert!(scheduler.can_spawn());
    SpawnOption::with_priority(priority).spawn_f(scheduler, 0x4000, 0, name).unwrap()
}

fn letter(scheduler: &Scheduler, thread: ThreadHandle) -> char {
    scheduler.thread(thread).unwrap().attribute().to_char()
}

/// Performs the switch that `switch` asks for, in the books: the thread
/// that now runs retires the one that ran before. A thread in `started`
/// comes back from a switch of its own; any other runs for the first time.
fn land(scheduler: &mut Scheduler, switch: Option<ContextSwitch>, started: &mut Vec<ThreadHandle>) {
    if let Some(switch) = switch {
        if started.contains(&switch.to) {
            scheduler.resume();
        } else {
            started.push(switch.to);
            sch_setup_new_thread(scheduler);
        }
    }
}

fn assert_switch(switch: Option<ContextSwitch>, from: ThreadHandle, to: ThreadHandle) {
    let switch = switch.unwrap();
    assert_eq!(switch.from, from);
    assert_eq!(switch.to, to);
}

#[test]
fn a_new_scheduler_holds_the_idle_thread_alone() {
    let scheduler = Scheduler::with_capacity(4, 4);
    let idle = handle(2);
    assert!(!scheduler.is_enabled());
    assert_eq!(scheduler.current_thread(), None);
    assert_eq!(scheduler.current_pid(), None);
    assert_eq!(scheduler.state(idle), Some(ThreadState::Idle));
    let thread = scheduler.thread(idle).unwrap();
    assert_eq!(thread.name(), Some("Idle"));
    assert_eq!(thread.pid(), ProcessId(0));
    assert_eq!(thread.priority(), Priority::Idle);
    assert!(thread.attribute().is_empty());
    assert!(thread.stack().is_none());
    assert!(scheduler.thread(handle(1)).is_none());
    assert!(scheduler.thread(handle(3)).is_none());
    assert_eq!(scheduler.pending_timers(), 0);
    assert!(scheduler.next_timer().is_just());
    assert!(scheduler.can_spawn());
}

#[test]
fn start_brings_the_scheduler_online_with_a_system_thread() {
    let mut scheduler = Scheduler::start(0xABCD, 42);
    let idle = handle(2);
    let system = handle(3);
    assert!(scheduler.is_enabled());
    assert_eq!(scheduler.current_thread(), Some(idle));
    assert_eq!(scheduler.current_pid(), Some(ProcessId(0)));
    let thread = scheduler.thread(system).unwrap();
    assert_eq!(thread.name(), Some("System"));
    assert_eq!(thread.priority(), Priority::Normal);
    assert_eq!(thread.pid(), ProcessId(2));
    assert_eq!(thread.entry(), Some(0xABCD));
    assert_eq!(thread.arg(), 42);
    assert_eq!(thread.quantum(), Quantum { current: 10, default: 10 });
    assert_eq!(thread.attribute(), ThreadAttributes::queued());
    assert!(thread.stack().is_some());
    assert_eq!(scheduler.state(system), Some(ThreadState::Ready));
    assert_eq!(scheduler.state(idle), Some(ThreadState::Idle));
    assert_switch(scheduler.yield_thread(), idle, system);
    sch_setup_new_thread(&mut scheduler);
    assert_eq!(scheduler.current_thread(), Some(system));
    assert_eq!(scheduler.current_pid(), Some(ProcessId(2)));
    assert_eq!(scheduler.state(system), Some(ThreadState::Running));
    assert_eq!(SIZE_OF_URGENT_QUEUE, 128);
    assert_eq!(SIZE_OF_MAIN_QUEUE, 256);
    assert_eq!(SIZE_OF_TIMER_QUEUE, 100);
}

#[test]
fn three_threads_run_in_the_order_in_which_they_were_spawned() {
    let mut scheduler = Scheduler::with_capacity(4, 4);
    let idle = handle(2);
    let a = spawn(&mut scheduler, Priority::Normal, "a");
    let b = spawn(&mut scheduler, Priority::Normal, "b");
    let c = spawn(&mut scheduler, Priority::Normal, "c");
    assert_eq!((a, b, c), (handle(3), handle(4), handle(5)));
    for thread in [a, b, c] {
        assert_eq!(scheduler.state(thread), Some(ThreadState::Ready));
        assert_eq!(letter(&scheduler, thread), 'R');
    }
    assert!(!scheduler.can_spawn());

    let mut started = vec![idle];
    let switch = scheduler.yield_thread();
    assert_switch(switch, idle, a);
    land(&mut scheduler, switch, &mut started);
    assert_eq!(scheduler.state(a), Some(ThreadState::Running));

    let switch = scheduler.yield_thread();
    assert_switch(switch, a, b);
    land(&mut scheduler, switch, &mut started);

    let switch = scheduler.yield_thread();
    assert_switch(switch, b, c);
    land(&mut scheduler, switch, &mut started);

    // Those that gave the processor up wait behind one another.
    let switch = scheduler.yield_thread();
    assert_switch(switch, c, a);
    land(&mut scheduler, switch, &mut started);
    let switch = scheduler.yield_thread();
    assert_switch(switch, a, b);
    land(&mut scheduler, switch, &mut started);
    assert_eq!(scheduler.state(b), Some(ThreadState::Running));
    assert_eq!(scheduler.state(c), Some(ThreadState::Ready));
    assert_eq!(scheduler.state(a), Some(ThreadState::Ready));
}

#[test]
fn the_idle_thread_runs_only_while_no_other_can() {
    let mut scheduler = Scheduler::with_capacity(4, 4);
    let idle = handle(2);
    // Nothing to run: the idle thread goes on.
    assert!(scheduler.yield_thread().is_none());
    assert!(scheduler.sleep().is_none());
    assert!(scheduler.tick().is_none());
    assert!(scheduler.thread(idle).unwrap().attribute().is_empty());

    let a = spawn(&mut scheduler, Priority::Normal, "a");
    let mut started = vec![idle];
    let switch = scheduler.yield_thread();
    assert_switch(switch, idle, a);
    land(&mut scheduler, switch, &mut started);
    assert!(scheduler.thread(idle).unwrap().attribute().is_empty());
    assert_eq!(scheduler.state(idle), Some(ThreadState::Idle));

    // The only other thread sleeps: the idle thread is the fallback.
    let switch = scheduler.sleep();
    assert_switch(switch, a, idle);
    land(&mut scheduler, switch, &mut started);
    assert_eq!(scheduler.state(a), Some(ThreadState::Asleep));
    assert!(scheduler.yield_thread().is_none());

    // As soon as a thread is Ready, it is chosen.
    scheduler.wake(a);
    let switch = scheduler.yield_thread();
    assert_switch(switch, idle, a);
    land(&mut scheduler, switch, &mut started);
    assert!(scheduler.thread(idle).unwrap().attribute().is_empty());
}

#[test]
fn a_wake_up_does_nothing_to_the_idle_thread() {
    let mut scheduler = Scheduler::with_capacity(4, 4);
    let idle = handle(2);
    scheduler.wake(idle);
    scheduler.wake_urgent(idle);
    assert!(scheduler.thread(idle).unwrap().attribute().is_empty());
    assert!(scheduler.yield_thread().is_none());
}

#[test]
fn a_thread_of_idle_priority_is_registered_but_never_queued() {
    let mut scheduler = Scheduler::with_capacity(4, 4);
    let lazy = spawn(&mut scheduler, Priority::Idle, "lazy");
    assert_eq!(scheduler.state(lazy), Some(ThreadState::Idle));
    assert!(scheduler.thread(lazy).unwrap().attribute().is_empty());
    assert!(scheduler.yield_thread().is_none());
    scheduler.wake(lazy);
    assert!(scheduler.thread(lazy).unwrap().attribute().is_empty());
    assert!(scheduler.yield_thread().is_none());
}

#[test]
fn a_sleeper_stays_out_of_the_queues_until_it_is_woken() {
    let mut scheduler = Scheduler::with_capacity(8, 8);
    let idle = handle(2);
    let a = spawn(&mut scheduler, Priority::Normal, "a");
    let b = spawn(&mut scheduler, Priority::Normal, "b");
    let mut started = vec![idle];
    let switch = scheduler.yield_thread();
    land(&mut scheduler, switch, &mut started);

    let switch = scheduler.sleep();
    assert_switch(switch, a, b);
    // Between the switch and the retirement both marks are on the thread.
    assert_eq!(letter(&scheduler, a), 'S');
    assert!(scheduler.thread(a).unwrap().attribute().contains(ThreadAttributes::queued()));
    land(&mut scheduler, switch, &mut started);
    assert_eq!(scheduler.state(a), Some(ThreadState::Asleep));
    assert_eq!(scheduler.thread(a).unwrap().attribute(), ThreadAttributes::asleep());

    // b is alone: it yields to the idle thread and comes back.
    let switch = scheduler.yield_thread();
    assert_switch(switch, b, idle);
    land(&mut scheduler, switch, &mut started);
    let switch = scheduler.yield_thread();
    assert_switch(switch, idle, b);
    land(&mut scheduler, switch, &mut started);
    assert_eq!(scheduler.state(a), Some(ThreadState::Asleep));

    scheduler.wake(a);
    assert_eq!(scheduler.state(a), Some(ThreadState::Ready));
    assert_eq!(scheduler.thread(a).unwrap().attribute(), ThreadAttributes::queued());
    let switch = scheduler.yield_thread();
    assert_switch(switch, b, a);
    land(&mut scheduler, switch, &mut started);
    assert_eq!(scheduler.state(a), Some(ThreadState::Running));
}

#[test]
fn a_wake_up_before_the_sleep_is_not_lost() {
    let mut scheduler = Scheduler::with_capacity(8, 8);
    let idle = handle(2);
    let a = spawn(&mut scheduler, Priority::Normal, "a");
    let b = spawn(&mut scheduler, Priority::Normal, "b");
    let mut started = vec![idle];
    let switch = scheduler.yield_thread();
    land(&mut scheduler, switch, &mut started);
    assert_eq!(scheduler.state(a), Some(ThreadState::Running));

    // The wake-up comes while the thread still runs: it is latched.
    scheduler.wake(a);
    assert_eq!(letter(&scheduler, a), 'W');
    assert_eq!(scheduler.state(a), Some(ThreadState::Running));

    let switch = scheduler.sleep();
    assert_switch(switch, a, b);
    land(&mut scheduler, switch, &mut started);

    assert_eq!(scheduler.state(a), Some(ThreadState::Ready));
    assert_eq!(scheduler.thread(a).unwrap().attribute(), ThreadAttributes::queued());
    let switch = scheduler.yield_thread();
    assert_switch(switch, b, a);
}

#[test]
fn a_wake_up_for_a_queued_thread_is_dropped_when_the_thread_comes_back() {
    let mut scheduler = Scheduler::with_capacity(8, 8);
    let idle = handle(2);
    let a = spawn(&mut scheduler, Priority::Normal, "a");
    let b = spawn(&mut scheduler, Priority::Normal, "b");
    let mut started = vec![idle];
    for _ in 0..3 {
        let switch = scheduler.yield_thread();
        land(&mut scheduler, switch, &mut started);
    }
    // a runs for the second time, b waits and has run before.
    assert_eq!(scheduler.current_thread(), None);
    assert_eq!(scheduler.state(a), Some(ThreadState::Running));
    scheduler.wake(b);
    assert_eq!(letter(&scheduler, b), 'W');
    assert_eq!(scheduler.state(b), Some(ThreadState::Ready));
    let switch = scheduler.yield_thread();
    assert_switch(switch, a, b);
    land(&mut scheduler, switch, &mut started);
    assert_eq!(scheduler.thread(b).unwrap().attribute(), ThreadAttributes::queued());
    // So its next sleep holds.
    let switch = scheduler.sleep();
    land(&mut scheduler, switch, &mut started);
    assert_eq!(scheduler.state(b), Some(ThreadState::Asleep));
}

#[test]
fn a_wake_up_latched_before_the_first_run_outlasts_it() {
    let mut scheduler = Scheduler::with_capacity(8, 8);
    let idle = handle(2);
    let a = spawn(&mut scheduler, Priority::Normal, "a");
    scheduler.wake(a);
    assert_eq!(letter(&scheduler, a), 'W');
    let mut started = vec![idle];
    let switch = scheduler.yield_thread();
    land(&mut scheduler, switch, &mut started);
    // A thread that starts does not drop the mark.
    assert_eq!(letter(&scheduler, a), 'W');
    let switch = scheduler.sleep();
    assert_switch(switch, a, idle);
    land(&mut scheduler, switch, &mut started);
    assert_eq!(scheduler.state(a), Some(ThreadState::Ready));
}

#[test]
fn the_urgent_queue_is_served_before_the_ready_queue() {
    let mut scheduler = Scheduler::with_capacity(8, 8);
    let idle = handle(2);
    let a = spawn(&mut scheduler, Priority::Normal, "a");
    let b = spawn(&mut scheduler, Priority::Normal, "b");
    let c = spawn(&mut scheduler, Priority::Normal, "c");
    let d = spawn(&mut scheduler, Priority::Normal, "d");
    let mut started = vec![idle];
    // a and b run and go to sleep; c runs; d waits in the ready queue.
    let switch = scheduler.yield_thread();
    land(&mut scheduler, switch, &mut started);
    let switch = scheduler.sleep();
    assert_switch(switch, a, b);
    land(&mut scheduler, switch, &mut started);
    let switch = scheduler.sleep();
    assert_switch(switch, b, c);
    land(&mut scheduler, switch, &mut started);

    scheduler.wake(a);
    scheduler.wake_urgent(b);
    assert_eq!(scheduler.state(a), Some(ThreadState::Ready));
    assert_eq!(scheduler.state(b), Some(ThreadState::Ready));

    // b was woken last, but urgently. Then the ready queue: d, a, c.
    let switch = scheduler.yield_thread();
    assert_switch(switch, c, b);
    land(&mut scheduler, switch, &mut started);
    let switch = scheduler.yield_thread();
    assert_switch(switch, b, d);
    land(&mut scheduler, switch, &mut started);
    let switch = scheduler.yield_thread();
    assert_switch(switch, d, a);
    land(&mut scheduler, switch, &mut started);
    let switch = scheduler.yield_thread();
    assert_switch(switch, a, c);
}

#[test]
fn a_quantum_lasts_as_many_ticks_as_the_priority_grants() {
    for (priority, ticks) in [(Priority::Low, 5u8), (Priority::Normal, 10), (Priority::High, 25)] {
        let mut scheduler = Scheduler::with_capacity(4, 4);
        let idle = handle(2);
        let a = spawn(&mut scheduler, priority, "a");
        let b = spawn(&mut scheduler, priority, "b");
        assert_eq!(scheduler.thread(a).unwrap().quantum(), Quantum { current: ticks, default: ticks });
        let mut started = vec![idle];
        let switch = scheduler.yield_thread();
        land(&mut scheduler, switch, &mut started);

        for used in 1..ticks {
            assert!(scheduler.tick().is_none());
            assert_eq!(
                scheduler.thread(a).unwrap().quantum(),
                Quantum { current: ticks - used, default: ticks }
            );
            assert_eq!(scheduler.state(a), Some(ThreadState::Running));
        }
        let switch = scheduler.tick();
        assert_switch(switch, a, b);
        assert_eq!(scheduler.thread(a).unwrap().quantum(), Quantum { current: ticks, default: ticks });
        land(&mut scheduler, switch, &mut started);
        assert_eq!(scheduler.state(a), Some(ThreadState::Ready));
        assert_eq!(scheduler.state(b), Some(ThreadState::Running));
    }
}

#[test]
fn the_clock_never_preempts_a_realtime_thread() {
    let mut scheduler = Scheduler::with_capacity(4, 4);
    let idle = handle(2);
    let realtime = spawn(&mut scheduler, Priority::Realtime, "realtime");
    let normal = spawn(&mut scheduler, Priority::Normal, "normal");
    let mut started = vec![idle];
    let switch = scheduler.yield_thread();
    assert_switch(switch, idle, realtime);
    land(&mut scheduler, switch, &mut started);

    let quantum = scheduler.thread(realtime).unwrap().quantum();
    assert_eq!(quantum, Quantum { current: 1, default: 1 });
    for _ in 0..1000 {
        assert!(scheduler.tick().is_none());
        assert_eq!(scheduler.thread(realtime).unwrap().quantum(), quantum);
        assert_eq!(scheduler.state(realtime), Some(ThreadState::Running));
        assert_eq!(scheduler.state(normal), Some(ThreadState::Ready));
    }
    // It leaves when it chooses to.
    let switch = scheduler.yield_thread();
    assert_switch(switch, realtime, normal);
}

#[test]
fn a_tick_takes_the_idle_thread_off_as_soon_as_a_thread_is_ready() {
    let mut scheduler = Scheduler::with_capacity(4, 4);
    let idle = handle(2);
    assert!(scheduler.tick().is_none());
    let a = spawn(&mut scheduler, Priority::Normal, "a");
    let switch = scheduler.tick();
    assert_switch(switch, idle, a);
    assert_eq!(scheduler.thread(idle).unwrap().quantum(), Quantum { current: 1, default: 1 });
}

#[test]
fn an_exited_thread_is_destroyed_at_its_retirement() {
    let mut scheduler = Scheduler::with_capacity(4, 4);
    let idle = handle(2);
    let a = spawn(&mut scheduler, Priority::Normal, "a");
    let b = spawn(&mut scheduler, Priority::Normal, "b");
    let mut started = vec![idle];
    let switch = scheduler.yield_thread();
    land(&mut scheduler, switch, &mut started);

    assert!(!scheduler.has_timer_for(a));
    let switch = scheduler.exit();
    assert_switch(switch, a, b);
    // Until its retirement the thread is a zombie.
    assert_eq!(scheduler.state(a), Some(ThreadState::Zombie));
    assert_eq!(letter(&scheduler, a), 'Z');
    assert_eq!(a.name(&scheduler), Some("a"));
    land(&mut scheduler, switch, &mut started);

    assert!(scheduler.thread(a).is_none());
    assert_eq!(scheduler.state(a), None);
    assert_eq!(a.name(&scheduler), None);
    assert_eq!(scheduler.state(b), Some(ThreadState::Running));
    // Its place is free again, its handle is not given out again.
    assert!(scheduler.can_spawn());
    let c = spawn(&mut scheduler, Priority::Normal, "c");
    assert_eq!(c, handle(5));
    let switch = scheduler.yield_thread();
    assert_switch(switch, b, c);
}

#[test]
fn a_thread_joins_the_process_of_its_spawner_or_starts_its_own() {
    let mut scheduler = Scheduler::with_capacity(8, 8);
    let idle = handle(2);
    // Not online: the spawner's process is not known, so it is process 0.
    let a = SpawnOption::new().spawn_f(&mut scheduler, 1, 0, "a").unwrap();
    assert_eq!(scheduler.thread(a).unwrap().pid(), ProcessId(0));
    assert_eq!(scheduler.thread(a).unwrap().priority(), Priority::Normal);
    let b = SpawnOption::new().spawn(&mut scheduler, 1, 0, "b").unwrap();
    assert_eq!(scheduler.thread(b).unwrap().pid(), ProcessId(2));
    let c = SpawnOption::with_priority(Priority::High).spawn(&mut scheduler, 1, 0, "c").unwrap();
    assert_eq!(scheduler.thread(c).unwrap().pid(), ProcessId(3));
    assert_eq!(scheduler.thread(c).unwrap().priority(), Priority::High);

    scheduler.enable();
    let mut started = vec![idle];
    let switch = scheduler.yield_thread();
    land(&mut scheduler, switch, &mut started);
    let switch = scheduler.yield_thread();
    assert_switch(switch, a, b);
    land(&mut scheduler, switch, &mut started);
    assert_eq!(scheduler.current_pid(), Some(ProcessId(2)));
    let d = SpawnOption::new().spawn_f(&mut scheduler, 1, 0, "d").unwrap();
    assert_eq!(scheduler.thread(d).unwrap().pid(), ProcessId(2));
    let e = SpawnOption::new().spawn(&mut scheduler, 1, 0, "e").unwrap();
    assert_eq!(scheduler.thread(e).unwrap().pid(), ProcessId(4));
    assert_eq!((a, b, c, d, e), (handle(3), handle(4), handle(5), handle(6), handle(7)));
}

#[test]
fn the_run_queues_bound_the_number_of_threads() {
    let mut scheduler = Scheduler::with_capacity(2, 8);
    assert!(scheduler.can_spawn());
    spawn(&mut scheduler, Priority::Normal, "a");
    // The urgent queue has two slots: room for one thread beside the idle one.
    assert!(!scheduler.can_spawn());

    let mut scheduler = Scheduler::with_capacity(1, 1);
    assert!(!scheduler.can_spawn());
    assert!(scheduler.yield_thread().is_none());
}

#[test]
fn a_handle_gives_the_name_of_its_thread() {
    let mut scheduler = Scheduler::with_capacity(4, 4);
    let a = spawn(&mut scheduler, Priority::Normal, "Status Bar");
    let b = spawn(&mut scheduler, Priority::Normal, "");
    assert_eq!(a.name(&scheduler), Some("Status Bar"));
    assert_eq!(b.name(&scheduler), None);
    assert_eq!(handle(2).name(&scheduler), Some("Idle"));
    assert_eq!(handle(77).name(&scheduler), None);
}

#[test]
fn a_handle_wakes_its_thread() {
    let mut scheduler = Scheduler::with_capacity(4, 4);
    let idle = handle(2);
    let a = spawn(&mut scheduler, Priority::Normal, "a");
    let mut started = vec![idle];
    let switch = scheduler.yield_thread();
    land(&mut scheduler, switch, &mut started);
    let switch = scheduler.sleep();
    land(&mut scheduler, switch, &mut started);
    assert_eq!(scheduler.state(a), Some(ThreadState::Asleep));
    a.wake(&mut scheduler);
    assert_eq!(scheduler.state(a), Some(ThreadState::Ready));
}

#[test]
fn no_thread_is_ever_queued_and_asleep_once_it_is_retired() {
    let mut scheduler = Scheduler::with_capacity(8, 8);
    let idle = handle(2);
    let threads = [
        spawn(&mut scheduler, Priority::Low, "a"),
        spawn(&mut scheduler, Priority::Normal, "b"),
        spawn(&mut scheduler, Priority::High, "c"),
        spawn(&mut scheduler, Priority::Realtime, "d"),
    ];
    let mut started = vec![idle];
    let mut seed: u32 = 12345;
    for _ in 0..2000 {
        seed = seed.wrapping_mul(1_103_515_245).wrapping_add(12_345);
        let pick = threads[((seed >> 16) % 4) as usize];
        let switch = match (seed >> 8) % 5 {
            0 => scheduler.sleep(),
            1 => scheduler.yield_thread(),
            2 => scheduler.tick(),
            3 => {
                scheduler.wake(pick);
                None
            }
            _ => {
                scheduler.wake_urgent(pick);
                None
            }
        };
        land(&mut scheduler, switch, &mut started);

        let mut running = 0;
        for thread in threads {
            let attribute = scheduler.thread(thread).unwrap().attribute();
            let queued = attribute.contains(ThreadAttributes::queued());
            let asleep = attribute.contains(ThreadAttributes::asleep());
            assert!(!(queued && asleep));
            match scheduler.state(thread).unwrap() {
                ThreadState::Running => {
                    running += 1;
                    assert!(queued);
                }
                ThreadState::Ready => assert!(queued),
                ThreadState::Asleep => assert!(asleep),
                ThreadState::Zombie | ThreadState::Idle => panic!("no such thread was made"),
            }
        }
        assert!(running <= 1);
        assert_eq!(scheduler.state(idle), Some(ThreadState::Idle));
        assert!(scheduler.thread(idle).unwrap().attribute().is_empty());
    }
}

#[test]
fn a_retirement_is_owed_from_the_switch_until_the_next_thread_has_landed() {
    let mut scheduler = Scheduler::with_capacity(4, 4);
    let idle = handle(2);
    let a = spawn(&mut scheduler, Priority::Normal, "a");
    assert!(!scheduler.switch_pending());
    // No switch, nothing owed.
    let mut quiet = Scheduler::with_capacity(4, 4);
    assert!(quiet.switch_context().is_none());
    assert!(!quiet.switch_pending());

    let switch = scheduler.switch_context();
    assert_switch(switch, idle, a);
    assert!(scheduler.switch_pending());
    sch_setup_new_thread(&mut scheduler);
    assert!(!scheduler.switch_pending());
    // Called again with nothing owed, it changes nothing.
    sch_setup_new_thread(&mut scheduler);
    assert_eq!(scheduler.state(a), Some(ThreadState::Running));

    let switch = scheduler.switch_context();
    assert_switch(switch, a, idle);
    assert!(scheduler.switch_pending());
    scheduler.resume();
    assert!(!scheduler.switch_pending());
    assert_eq!(scheduler.state(a), Some(ThreadState::Ready));
}

#[test]
fn a_wake_up_reaches_the_thread_that_awaits_its_retirement() {
    let mut scheduler = Scheduler::with_capacity(4, 4);
    let idle = handle(2);
    let a = spawn(&mut scheduler, Priority::Normal, "a");
    let mut started = vec![idle];
    let switch = scheduler.yield_thread();
    land(&mut scheduler, switch, &mut started);
    let switch = scheduler.sleep();
    assert_switch(switch, a, idle);
    // The thread is on its way to sleep, but not retired yet.
    scheduler.wake(a);
    assert_eq!(letter(&scheduler, a), 'W');
    land(&mut scheduler, switch, &mut started);
    assert_eq!(scheduler.state(a), Some(ThreadState::Ready));
    assert_eq!(scheduler.thread(a).unwrap().attribute(), ThreadAttributes::queued());
}
