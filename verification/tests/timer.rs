use core::time::Duration;
use kernel::task::thread::ThreadHandle;
use kernel::task::timer::{TimeSpec, Timer, TimerEvent, TimerSource, TimerType, WindowHandle};

/// A clock that stands still at `now` microseconds.
struct Clock {
    now: u64,
}

impl TimerSource for Clock {
    fn create(&self, duration: Duration) -> TimeSpec {
        self.now + duration.as_micros() as u64
    }

    fn until(&self, deadline: TimeSpec) -> bool {
        self.now < deadline
    }

    fn monotonic(&self) -> Duration {
        Duration::from_micros(self.now)
    }
}

/// A clock for which no deadline has ever come.
struct NeverDue;

impl TimerSource for NeverDue {
    fn create(&self, _duration: Duration) -> TimeSpec {
        0
    }

    fn until(&self, _deadline: TimeSpec) -> bool {
        true
    }

    fn monotonic(&self) -> Duration {
        Duration::from_secs(0)
    }
}

#[test]
fn the_timer_without_a_deadline_has_always_elapsed() {
    let timer = Timer::just();
    assert!(timer.is_just());
    assert_eq!(timer.deadline(), 0);
    assert!(!timer.until(&Clock { now: 0 }));
    assert!(!timer.until(&NeverDue));
    assert_eq!(Timer::default(), Timer::just());
}

#[test]
fn a_timer_takes_its_deadline_from_the_clock() {
    let clock = Clock { now: 1_000 };
    let timer = Timer::new(Duration::from_micros(500), &clock);
    assert_eq!(timer.deadline(), 1_500);
    assert!(!timer.is_just());
    assert_eq!(timer, Timer::from_deadline(1_500));
}

#[test]
fn the_clock_decides_whether_a_deadline_lies_ahead() {
    let timer = Timer::from_deadline(1_500);
    assert!(timer.until(&Clock { now: 1_499 }));
    assert!(!timer.until(&Clock { now: 1_500 }));
    assert!(!timer.until(&Clock { now: 1_501 }));
    assert!(timer.until(&NeverDue));
}

#[test]
fn a_timer_made_at_a_deadline_of_zero_is_the_one_without_deadline() {
    let timer = Timer::new(Duration::from_secs(5), &NeverDue);
    assert!(timer.is_just());
    assert!(!timer.until(&NeverDue));
}

#[test]
fn the_clock_is_read_in_microseconds() {
    let clock = Clock { now: 2_500_000 };
    assert_eq!(Timer::monotonic(&clock), Duration::from_millis(2_500));
    assert_eq!(Timer::measure(&clock), 2_500_000);
}

#[test]
fn an_event_for_a_window_names_the_window_and_its_timer() {
    let event = TimerEvent::window(WindowHandle(4), 17, Timer::from_deadline(90));
    assert_eq!(event.timer(), Timer::from_deadline(90));
    assert!(matches!(event.timer_type(), TimerType::Window(WindowHandle(4), 17)));
    assert!(event.until(&Clock { now: 89 }));
    assert!(!event.until(&Clock { now: 90 }));
}

#[test]
fn an_event_for_a_thread_names_the_thread() {
    let thread = ThreadHandle::new(3).unwrap();
    let event = TimerEvent::wake_up(thread, Timer::just());
    assert!(event.timer().is_just());
    assert!(matches!(event.timer_type(), TimerType::OneShot(target) if target == thread));
    assert!(!event.until(&NeverDue));
}
