use kernel::task::attributes::ThreadAttributes;
use kernel::task::priority::{Priority, Quantum};
use kernel::task::thread::{
    ProcessId, RawThread, ThreadHandle, SIZE_OF_CONTEXT, SIZE_OF_STACK, THREAD_NAME_LENGTH,
};

#[test]
fn process_ids_rise_by_one() {
    let mut counter = 1;
    assert_eq!(ProcessId::raise(&mut counter), ProcessId(2));
    assert_eq!(ProcessId::raise(&mut counter), ProcessId(3));
    assert_eq!(counter, 3);
}

#[test]
fn no_handle_is_zero() {
    assert!(ThreadHandle::new(0).is_none());
    let handle = ThreadHandle::new(7).unwrap();
    assert_eq!(handle.as_usize(), 7);
    assert_eq!(ThreadHandle::new(usize::MAX).unwrap().as_usize(), usize::MAX);
}

#[test]
fn handles_rise_by_one() {
    let mut counter = 1;
    let first = ThreadHandle::next(&mut counter);
    let second = ThreadHandle::next(&mut counter);
    assert_eq!(first.as_usize(), 2);
    assert_eq!(second.as_usize(), 3);
    assert_eq!(counter, 3);
    assert_ne!(first, second);
    assert!(first < second);
    assert_eq!(first, ThreadHandle::new(2).unwrap());
}

#[test]
fn a_new_thread_with_an_entry_point_owns_a_stack() {
    let mut counter = 41;
    let thread = RawThread::new(
        &mut counter,
        ProcessId(5),
        Priority::High,
        "worker",
        Some(0x1000),
        99,
    );
    assert_eq!(counter, 42);
    assert_eq!(thread.handle().as_usize(), 42);
    assert_eq!(thread.pid(), ProcessId(5));
    assert_eq!(thread.priority(), Priority::High);
    assert_eq!(thread.attribute(), ThreadAttributes::empty());
    assert_eq!(thread.quantum(), Quantum { current: 25, default: 25 });
    assert_eq!(thread.entry(), Some(0x1000));
    assert_eq!(thread.arg(), 99);
    assert_eq!(thread.name(), Some("worker"));
    assert_eq!(thread.context().len(), SIZE_OF_CONTEXT);
    assert!(thread.context().iter().all(|byte| *byte == 0));
    let stack = thread.stack().unwrap();
    assert_eq!(stack.len(), SIZE_OF_STACK);
    assert_eq!(stack.len(), 0x10000);
    assert!(stack.iter().all(|byte| *byte == 0));
}

#[test]
fn a_new_thread_without_an_entry_point_owns_no_stack() {
    let mut counter = 1;
    let thread = RawThread::new(&mut counter, ProcessId(0), Priority::Idle, "Idle", None, 0);
    assert_eq!(thread.handle().as_usize(), 2);
    assert!(thread.stack().is_none());
    assert_eq!(thread.entry(), None);
    assert_eq!(thread.quantum(), Quantum { current: 1, default: 1 });
    assert_eq!(thread.name(), Some("Idle"));
}

#[test]
fn a_name_field_holds_the_length_and_then_the_name() {
    let mut field = [0xEEu8; THREAD_NAME_LENGTH];
    RawThread::set_name_array(&mut field, "abc");
    assert_eq!(field[0], 3);
    assert_eq!(&field[1..4], b"abc");
    assert!(field[4..].iter().all(|byte| *byte == 0xEE));
}

#[test]
fn a_name_is_cut_at_thirty_one_bytes() {
    let long = "0123456789012345678901234567890123456789";
    let mut field = [0u8; THREAD_NAME_LENGTH];
    RawThread::set_name_array(&mut field, long);
    assert_eq!(field[0], 31);
    assert_eq!(&field[1..], &long.as_bytes()[..31]);

    let mut counter = 1;
    let thread = RawThread::new(&mut counter, ProcessId(1), Priority::Normal, long, Some(1), 0);
    assert_eq!(thread.name(), Some("0123456789012345678901234567890"));
}

#[test]
fn a_name_of_thirty_one_bytes_fits_whole() {
    let name = "0123456789012345678901234567890";
    assert_eq!(name.len(), 31);
    let mut counter = 1;
    let thread = RawThread::new(&mut counter, ProcessId(1), Priority::Normal, name, Some(1), 0);
    assert_eq!(thread.name(), Some(name));
}

#[test]
fn an_empty_name_reads_as_no_name() {
    let mut field = [0xEEu8; THREAD_NAME_LENGTH];
    RawThread::set_name_array(&mut field, "");
    assert_eq!(field[0], 0);
    assert!(field[1..].iter().all(|byte| *byte == 0xEE));
    let mut counter = 1;
    let thread = RawThread::new(&mut counter, ProcessId(1), Priority::Normal, "", Some(1), 0);
    assert_eq!(thread.name(), None);
}

#[test]
fn a_name_cut_inside_a_character_reads_as_no_name() {
    // Thirty bytes of ASCII, then a character of two bytes: the cut at 31
    // bytes falls between them.
    let name = "012345678901234567890123456789\u{e9}";
    assert_eq!(name.len(), 32);
    let mut counter = 1;
    let thread = RawThread::new(&mut counter, ProcessId(1), Priority::Normal, name, Some(1), 0);
    assert_eq!(thread.name(), None);
}

#[test]
fn a_name_of_many_bytes_per_character_is_kept() {
    let name = "スレッド";
    let mut counter = 1;
    let thread = RawThread::new(&mut counter, ProcessId(1), Priority::Normal, name, Some(1), 0);
    assert_eq!(thread.name(), Some(name));
}

#[test]
fn attributes_and_quantum_of_a_thread_can_be_replaced() {
    let mut counter = 1;
    let mut thread = RawThread::new(&mut counter, ProcessId(1), Priority::Low, "t", Some(1), 2);
    thread.set_attribute(ThreadAttributes::asleep());
    assert_eq!(thread.attribute(), ThreadAttributes::asleep());
    thread.set_quantum(Quantum { current: 2, default: 5 });
    assert_eq!(thread.quantum(), Quantum { current: 2, default: 5 });
    assert_eq!(thread.priority(), Priority::Low);
    assert_eq!(thread.name(), Some("t"));
    assert_eq!(thread.arg(), 2);
}
