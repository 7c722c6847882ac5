use kernel::task::attributes::ThreadAttributes;
use kernel::task::pool::ThreadPool;
use kernel::task::priority::{Priority, Quantum};
use kernel::task::queue::ThreadQueue;
use kernel::task::thread::{ProcessId, RawThread, ThreadHandle};

fn handle(number: usize) -> ThreadHandle {
    ThreadHandle::new(number).unwrap()
}

#[test]
fn a_run_queue_hands_out_the_oldest_handle_first() {
    let mut queue = ThreadQueue::with_capacity(8);
    assert!(queue.is_empty());
    assert_eq!(queue.limit(), 7);
    assert_eq!(queue.dequeue(), None);
    for number in [5, 3, 9, 1] {
        assert_eq!(queue.enqueue(handle(number)), Ok(()));
    }
    assert!(!queue.is_empty());
    assert_eq!(queue.dequeue(), Some(handle(5)));
    assert_eq!(queue.enqueue(handle(7)), Ok(()));
    assert_eq!(queue.dequeue(), Some(handle(3)));
    assert_eq!(queue.dequeue(), Some(handle(9)));
    assert_eq!(queue.dequeue(), Some(handle(1)));
    assert_eq!(queue.dequeue(), Some(handle(7)));
    assert_eq!(queue.dequeue(), None);
}

#[test]
fn a_full_run_queue_refuses_and_keeps_what_it_holds() {
    let mut queue = ThreadQueue::with_capacity(4);
    assert_eq!(queue.enqueue(handle(1)), Ok(()));
    assert_eq!(queue.enqueue(handle(2)), Ok(()));
    assert_eq!(queue.enqueue(handle(3)), Ok(()));
    assert_eq!(queue.enqueue(handle(4)), Err(()));
    assert_eq!(queue.dequeue(), Some(handle(1)));
    assert_eq!(queue.dequeue(), Some(handle(2)));
    assert_eq!(queue.dequeue(), Some(handle(3)));
    assert_eq!(queue.dequeue(), None);
}

#[test]
fn the_registry_resolves_the_handles_of_the_threads_it_owns() {
    let mut counter = 1;
    let mut pool = ThreadPool::new();
    assert_eq!(pool.len(), 0);
    let first = RawThread::new(&mut counter, ProcessId(1), Priority::Normal, "first", Some(1), 0);
    let second = RawThread::new(&mut counter, ProcessId(1), Priority::High, "second", Some(2), 0);
    let first_handle = first.handle();
    let second_handle = second.handle();
    pool.add(Box::new(first));
    pool.add(Box::new(second));
    assert_eq!(pool.len(), 2);
    assert!(pool.contains(&first_handle));
    assert!(pool.contains(&second_handle));
    assert!(!pool.contains(&handle(99)));
    assert_eq!(pool.get(&first_handle).unwrap().name(), Some("first"));
    assert_eq!(pool.get(&second_handle).unwrap().name(), Some("second"));
    assert_eq!(pool.get(&second_handle).unwrap().handle(), second_handle);
    assert!(pool.get(&handle(99)).is_none());
}

#[test]
fn a_dropped_thread_resolves_no_more() {
    let mut counter = 1;
    let mut pool = ThreadPool::default();
    let thread = RawThread::new(&mut counter, ProcessId(1), Priority::Normal, "gone", Some(1), 0);
    let gone = thread.handle();
    pool.add(Box::new(thread));
    let thread = RawThread::new(&mut counter, ProcessId(1), Priority::Normal, "stays", Some(1), 0);
    let stays = thread.handle();
    pool.add(Box::new(thread));
    pool.drop_thread(gone);
    assert_eq!(pool.len(), 1);
    assert!(pool.get(&gone).is_none());
    assert_eq!(pool.get(&stays).unwrap().name(), Some("stays"));
    pool.drop_thread(gone);
    assert_eq!(pool.len(), 1);
}

#[test]
fn the_registry_updates_one_thread_and_leaves_the_others() {
    let mut counter = 1;
    let mut pool = ThreadPool::new();
    let thread = RawThread::new(&mut counter, ProcessId(1), Priority::Normal, "a", Some(1), 0);
    let a = thread.handle();
    pool.add(Box::new(thread));
    let thread = RawThread::new(&mut counter, ProcessId(1), Priority::Normal, "b", Some(1), 0);
    let b = thread.handle();
    pool.add(Box::new(thread));

    pool.set_attribute(&a, ThreadAttributes::queued());
    pool.set_quantum(&b, Quantum { current: 3, default: 10 });

    assert_eq!(pool.get(&a).unwrap().attribute(), ThreadAttributes::queued());
    assert_eq!(pool.get(&a).unwrap().quantum(), Quantum { current: 10, default: 10 });
    assert_eq!(pool.get(&a).unwrap().name(), Some("a"));
    assert_eq!(pool.get(&b).unwrap().attribute(), ThreadAttributes::empty());
    assert_eq!(pool.get(&b).unwrap().quantum(), Quantum { current: 3, default: 10 });
    assert_eq!(pool.get(&b).unwrap().stack().unwrap().len(), 0x10000);
    assert_eq!(pool.len(), 2);
}
