use kernel::task::priority::{Priority, Quantum};

#[test]
fn every_priority_but_idle_is_useful() {
    assert!(!Priority::Idle.is_useful());
    assert!(Priority::Low.is_useful());
    assert!(Priority::Normal.is_useful());
    assert!(Priority::High.is_useful());
    assert!(Priority::Realtime.is_useful());
}

#[test]
fn priorities_are_ordered_from_idle_to_realtime() {
    assert!(Priority::Idle < Priority::Low);
    assert!(Priority::Low < Priority::Normal);
    assert!(Priority::Normal < Priority::High);
    assert!(Priority::High < Priority::Realtime);
}

#[test]
fn each_priority_grants_its_quantum() {
    assert_eq!(Quantum::from(Priority::High), Quantum { current: 25, default: 25 });
    assert_eq!(Quantum::from(Priority::Normal), Quantum { current: 10, default: 10 });
    assert_eq!(Quantum::from(Priority::Low), Quantum { current: 5, default: 5 });
    assert_eq!(Quantum::from(Priority::Idle), Quantum { current: 1, default: 1 });
    assert_eq!(Quantum::from(Priority::Realtime), Quantum { current: 1, default: 1 });
}

#[test]
fn a_full_quantum_lasts_as_many_ticks_as_it_counts() {
    for (priority, ticks) in [(Priority::High, 25u8), (Priority::Normal, 10), (Priority::Low, 5)] {
        let mut quantum = Quantum::from(priority);
        for used in 1..ticks {
            assert!(!quantum.consume());
            assert_eq!(quantum, Quantum { current: ticks - used, default: ticks });
        }
        assert!(quantum.consume());
        assert_eq!(quantum, Quantum { current: ticks, default: ticks });
        assert!(!quantum.consume());
        assert_eq!(quantum, Quantum { current: ticks - 1, default: ticks });
    }
}

#[test]
fn a_quantum_of_one_tick_is_used_up_by_every_tick() {
    let mut quantum = Quantum::new(1);
    assert!(quantum.consume());
    assert_eq!(quantum, Quantum { current: 1, default: 1 });
    assert!(quantum.consume());
    assert_eq!(quantum, Quantum { current: 1, default: 1 });
}

#[test]
fn a_quantum_of_no_tick_counts_as_used_up() {
    let mut quantum = Quantum::new(0);
    assert!(quantum.consume());
    assert_eq!(quantum, Quantum { current: 0, default: 0 });
}

#[test]
fn reset_makes_the_quantum_full_again() {
    let mut quantum = Quantum::new(10);
    assert!(!quantum.consume());
    assert!(!quantum.consume());
    assert_eq!(quantum.current, 8);
    quantum.reset();
    assert_eq!(quantum, Quantum { current: 10, default: 10 });
}
