use circus_simulation::deterministic::runtime::executor::TaskWaker;
use circus_simulation::deterministic::runtime::queue::ReadyQueue;
use circus_simulation::deterministic::runtime::task::TaskId;

#[test]
fn queue_is_first_in_first_out() {
    let mut queue = ReadyQueue::new(3);
    assert!(queue.is_empty());
    assert_eq!(queue.capacity(), 3);
    assert_eq!(queue.push(TaskId::from_raw(7)), Ok(()));
    assert_eq!(queue.push(TaskId::from_raw(5)), Ok(()));
    assert_eq!(queue.push(TaskId::from_raw(7)), Ok(()));
    assert_eq!(queue.len(), 3);
    assert!(queue.is_full());
    assert_eq!(queue.pop(), Some(TaskId::from_raw(7)));
    assert_eq!(queue.pop(), Some(TaskId::from_raw(5)));
    assert_eq!(queue.pop(), Some(TaskId::from_raw(7)));
    assert_eq!(queue.pop(), None);
    assert!(queue.is_empty());
}

#[test]
fn a_full_queue_hands_the_identity_back() {
    let mut queue = ReadyQueue::new(1);
    assert_eq!(queue.push(TaskId::from_raw(1)), Ok(()));
    assert_eq!(queue.push(TaskId::from_raw(2)), Err(TaskId::from_raw(2)));
    assert_eq!(queue.len(), 1);
    assert_eq!(queue.pop(), Some(TaskId::from_raw(1)));
}

#[test]
fn the_queue_wraps_around() {
    let mut queue = ReadyQueue::new(2);
    for raw in 0..10u64 {
        assert_eq!(queue.push(TaskId::from_raw(raw)), Ok(()));
        assert_eq!(queue.pop(), Some(TaskId::from_raw(raw)));
    }
    assert!(queue.is_empty());
}

#[test]
fn a_waker_queues_its_task() {
    let mut queue = ReadyQueue::new(4);
    let waker = TaskWaker::new_waker(TaskId::from_raw(3));
    assert_eq!(waker.task_id(), TaskId::from_raw(3));
    waker.wake_by_ref(&mut queue);
    waker.wake_task(&mut queue);
    waker.wake(&mut queue);
    assert_eq!(queue.len(), 3);
    assert_eq!(queue.pop(), Some(TaskId::from_raw(3)));
}

#[test]
fn task_ids_count_up_and_wrap() {
    let mut counter = 0u64;
    assert_eq!(TaskId::new(&mut counter).as_u64(), 0);
    assert_eq!(TaskId::new(&mut counter).as_u64(), 1);
    assert_eq!(counter, 2);
    let mut last = u64::MAX;
    assert_eq!(TaskId::new(&mut last).as_u64(), u64::MAX);
    assert_eq!(last, 0);
    assert!(TaskId::from_raw(1) < TaskId::from_raw(2));
}
