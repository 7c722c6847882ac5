//! Priority classes and the quantum that each of them grants.

use vstd::prelude::*;

verus! {

/// The priority class of a thread, lowest first.
///
/// The class decides how many ticks the thread may run before it is
/// preempted, not where it stands in a run queue. A `Realtime` thread is
/// never preempted by the clock.
#[non_exhaustive]
#[derive(Debug, Copy, Clone, PartialEq, Eq, PartialOrd, Ord, Structural)]
pub enum Priority {
    Idle,
    Low,
    Normal,
    High,
    Realtime,
}

impl Priority {
    /// The number of ticks that the class grants.
    pub open spec fn ticks(self) -> u8 {
        match self {
            Priority::High => 25,
            Priority::Normal => 10,
            Priority::Low => 5,
            _ => 1,
        }
    }

    /// Whether a thread of this class does work: every class but `Idle`.
    pub fn is_useful(self) -> (r: bool)
        ensures
            r == (self != Priority::Idle),
    {
        match self {
            Priority::Idle => false,
            _ => true,
        }
    }
}

/// The ticks that a thread has left before it is preempted, and the number
/// that it starts each turn with.
#[derive(Debug, Copy, Clone, PartialEq, Eq, Structural)]
pub struct Quantum {
    pub current: u8,
    pub default: u8,
}

impl Quantum {
    /// A full quantum of `value` ticks.
    pub open spec fn full(value: u8) -> Quantum {
        Quantum { current: value, default: value }
    }

    /// The quantum after one more tick.
    pub open spec fn consumed(self) -> Quantum {
        if self.current > 1 {
            Quantum { current: (self.current - 1) as u8, default: self.default }
        } else {
            Quantum { current: self.default, default: self.default }
        }
    }

    /// Whether one more tick uses the quantum up.
    pub open spec fn exhausted(self) -> bool {
        self.current <= 1
    }

    /// The quantum after `n` more ticks.
    pub open spec fn consumed_times(self, n: nat) -> Quantum
        decreases n,
    {
        if n == 0 {
            self
        } else {
            self.consumed().consumed_times((n - 1) as nat)
        }
    }

    pub fn new(value: u8) -> (r: Self)
        ensures
            r == Quantum::full(value),
    {
        Quantum { current: value, default: value }
    }

    /// Grants the full number of ticks again.
    pub fn reset(&mut self)
        ensures
            *final(self) == Quantum::full(old(self).default),
    {
        self.current = self.default;
    }

    /// Takes one tick. When that was the last one, the quantum is full again
    /// and the result is `true`: the thread is to be preempted.
    pub fn consume(&mut self) -> (r: bool)
        ensures
            r == old(self).exhausted(),
            *final(self) == old(self).consumed(),
    {
        if self.current > 1 {
            self.current -= 1;
            false
        } else {
            self.current = self.default;
            true
        }
    }

    /// Of a full quantum of `d` ticks, the first `d - 1` ticks leave
    /// something over; the one after them, the `d`-th, uses it up and makes
    /// it full again. So after `d` ticks the count starts anew, and only a
    /// quantum of one tick is used up by the very next tick as well.
    pub proof fn law_full_quantum_lasts(d: u8, n: nat)
        requires
            1 <= d,
            n < d,
        ensures
            Quantum::full(d).consumed_times(n) == (Quantum { current: (d - n) as u8, default: d }),
            n < d - 1 ==> !Quantum::full(d).consumed_times(n).exhausted(),
            n == d - 1 ==> Quantum::full(d).consumed_times(n).exhausted(),
            Quantum::full(d).consumed_times(d as nat) == Quantum::full(d),
            d == 1 ==> Quantum::full(d).consumed_times(d as nat).exhausted(),
    {
        Self::lemma_consumed_times(Quantum::full(d), n);
        Self::lemma_consumed_times(Quantum::full(d), (d - 1) as nat);
        Self::lemma_consumed_times_split(Quantum::full(d), (d - 1) as nat);
    }

    proof fn lemma_consumed_times(q: Quantum, n: nat)
        requires
            n < q.current,
        ensures
            q.consumed_times(n) == (Quantum { current: (q.current - n) as u8, default: q.default }),
        decreases n,
    {
        if n > 0 {
            Self::lemma_consumed_times(q.consumed(), (n - 1) as nat);
        }
    }

    proof fn lemma_consumed_times_split(q: Quantum, n: nat)
        ensures
            q.consumed_times(n + 1) == q.consumed_times(n).consumed(),
        decreases n,
    {
        if n > 0 {
            Self::lemma_consumed_times_split(q.consumed(), (n - 1) as nat);
        } else {
            assert(q.consumed_times(1) == q.consumed().consumed_times(0));
        }
    }
}

impl From<Priority> for Quantum {
    fn from(priority: Priority) -> (r: Quantum) {
        match priority {
            Priority::High => Quantum::new(25),
            Priority::Normal => Quantum::new(10),
            Priority::Low => Quantum::new(5),
            _ => Quantum::new(1),
        }
    }
}

impl vstd::std_specs::convert::FromSpecImpl<Priority> for Quantum {
    open spec fn obeys_from_spec() -> bool {
        true
    }

    open spec fn from_spec(priority: Priority) -> Quantum {
        Quantum::full(priority.ticks())
    }
}

} // verus!
