//! Deadlines, the time source that judges them, and timer events.

use crate::task::thread::ThreadHandle;
use core::time::Duration;
use vstd::prelude::*;

verus! {

/// A point in time as the time source counts it. Only the time source knows
/// what the number means; zero stands for "no deadline".
pub type TimeSpec = u64;

/// The clock of the machine, handed to the kernel at startup.
pub trait TimerSource {
    /// The deadline that lies `duration` after now.
    fn create(&self, duration: Duration) -> TimeSpec;

    /// Whether `deadline` still lies ahead.
    fn until(&self, deadline: TimeSpec) -> bool;

    /// The time that has passed since the clock started.
    fn monotonic(&self) -> Duration;
}

/// The whole microseconds in a span of time: what `Duration::as_micros`
/// returns for it.
pub uninterp spec fn duration_micros(duration: Duration) -> nat;

/// `Duration::from_micros`: the span of `micros` microseconds.
pub assume_specification[ Duration::from_micros ](micros: u64) -> (r: Duration)
    ensures
        duration_micros(r) == micros,
;

/// `Duration::from_millis`: the span of `millis` milliseconds, each of which
/// is a thousand microseconds.
pub assume_specification[ Duration::from_millis ](millis: u64) -> (r: Duration)
    ensures
        duration_micros(r) == millis * 1000,
;

/// `Duration::as_micros`: the whole microseconds in `duration`.
pub assume_specification[ Duration::as_micros ](duration: &Duration) -> (r: u128)
    ensures
        r == duration_micros(*duration),
;

/// A deadline.
#[derive(Debug, Copy, Clone, PartialEq, Eq, Structural)]
pub struct Timer {
    deadline: TimeSpec,
}

impl View for Timer {
    type V = TimeSpec;

    /// The deadline as the time source counts it.
    closed spec fn view(&self) -> TimeSpec {
        self.deadline
    }
}

impl Timer {
    /// The timer without a deadline: it has always elapsed.
    pub fn just() -> (r: Timer)
        ensures
            r@ == 0,
    {
        Timer { deadline: 0 }
    }

    /// The timer that elapses at `deadline`.
    pub fn from_deadline(deadline: TimeSpec) -> (r: Timer)
        ensures
            r@ == deadline,
    {
        Timer { deadline }
    }

    /// Whether `answer` is what the clock `source` gave when it was asked if
    /// this deadline still lies ahead. The timer without a deadline never
    /// lies ahead, and the clock is not asked.
    pub open spec fn lies_ahead<S: TimerSource>(self, source: &S, answer: bool) -> bool {
        if self@ == 0 {
            !answer
        } else {
            call_ensures(S::until, (source, self@), answer)
        }
    }

    /// The timer that elapses `duration` from now, by the clock `source`: its
    /// deadline is what the clock gives for `duration`.
    #[inline]
    pub fn new<S: TimerSource>(duration: Duration, source: &S) -> (r: Timer)
        ensures
            call_ensures(S::create, (source, duration), r@),
    {
        Timer::from_deadline(source.create(duration))
    }

    #[inline]
    pub fn deadline(&self) -> (r: TimeSpec)
        ensures
            r == self@,
    {
        self.deadline
    }

    /// Whether this is the timer without a deadline.
    #[inline]
    pub fn is_just(&self) -> (r: bool)
        ensures
            r == (self@ == 0),
    {
        self.deadline == 0
    }

    /// Whether the deadline still lies ahead. The timer without a deadline
    /// never does; of any other the clock `source` decides.
    #[inline]
    pub fn until<S: TimerSource>(&self, source: &S) -> (r: bool)
        ensures
            self.lies_ahead(source, r),
    {
        if self.is_just() {
            false
        } else {
            source.until(self.deadline)
        }
    }

    /// The time since the clock `source` started, as the clock gives it.
    #[inline]
    pub fn monotonic<S: TimerSource>(source: &S) -> (r: Duration)
        ensures
            call_ensures(S::monotonic, (source,), r),
    {
        source.monotonic()
    }

    /// The time since the clock `source` started, in whole microseconds, cut
    /// to 64 bits.
    #[inline]
    pub fn measure<S: TimerSource>(source: &S) -> (r: u64)
        ensures
            exists|elapsed: Duration|
                call_ensures(S::monotonic, (source,), elapsed) && r == #[trigger] duration_micros(
                    elapsed,
                ) as u64,
    {
        let elapsed = Self::monotonic(source);
        let micros = elapsed.as_micros();
        micros as u64
    }
}

impl Default for Timer {
    fn default() -> (r: Timer)
        ensures
            r@ == 0,
    {
        Timer::just()
    }
}

/// Refers to a window of the window system, which alone knows what the
/// number means.
#[derive(Debug, Copy, Clone, PartialEq, Eq, Structural)]
pub struct WindowHandle(pub usize);

/// What happens when a timer event fires.
#[derive(Debug, Copy, Clone)]
pub enum TimerType {
    /// The thread is woken.
    OneShot(ThreadHandle),
    /// The window is told that its timer of this number has fired.
    Window(WindowHandle, usize),
}

/// A deadline with what is to happen when it has elapsed.
#[derive(Debug, Copy, Clone)]
pub struct TimerEvent {
    timer: Timer,
    timer_type: TimerType,
}

impl TimerEvent {
    pub closed spec fn spec_timer(self) -> Timer {
        self.timer
    }

    pub closed spec fn spec_timer_type(self) -> TimerType {
        self.timer_type
    }

    /// The deadline as the time source counts it.
    pub open spec fn deadline(self) -> TimeSpec {
        self.spec_timer()@
    }

    /// The number of the thread that the event wakes, if it wakes one.
    pub open spec fn target(self) -> Option<usize> {
        match self.spec_timer_type() {
            TimerType::OneShot(thread) => Some(thread@),
            TimerType::Window(_, _) => None,
        }
    }

    /// The event that wakes `thread` once `timer` has elapsed.
    pub fn wake_up(thread: ThreadHandle, timer: Timer) -> (r: Self)
        ensures
            r.spec_timer() == timer,
            r.spec_timer_type() == TimerType::OneShot(thread),
    {
        Self { timer, timer_type: TimerType::OneShot(thread) }
    }

    /// The event that tells `window` that its timer `timer_id` has fired,
    /// once `timer` has elapsed.
    pub fn window(window: WindowHandle, timer_id: usize, timer: Timer) -> (r: Self)
        ensures
            r.spec_timer() == timer,
            r.spec_timer_type() == TimerType::Window(window, timer_id),
    {
        Self { timer, timer_type: TimerType::Window(window, timer_id) }
    }

    #[inline]
    pub fn timer(&self) -> (r: Timer)
        ensures
            r == self.spec_timer(),
    {
        self.timer
    }

    #[inline]
    pub fn timer_type(&self) -> (r: TimerType)
        ensures
            r == self.spec_timer_type(),
    {
        self.timer_type
    }

    /// Whether the deadline still lies ahead, as `Timer::until` tells.
    pub fn until<S: TimerSource>(&self, source: &S) -> (r: bool)
        ensures
            self.spec_timer().lies_ahead(source, r),
    {
        self.timer.until(source)
    }
}

} // verus!
