use circus_simulation::deterministic::runtime::executor::DeterministicExecutor;
use circus_simulation::deterministic::runtime::executor::RunOutcome;
use circus_simulation::deterministic::runtime::executor::TaskWaker;
use circus_simulation::deterministic::runtime::queue::ReadyQueue;
use circus_simulation::deterministic::runtime::reactor::DeterministicReactor;
use circus_simulation::deterministic::runtime::task::Poll;
use circus_simulation::deterministic::runtime::task::Suspendable;
use circus_simulation::deterministic::runtime::task::Task;
use circus_simulation::deterministic::runtime::task::TaskId;
use circus_simulation::deterministic::runtime::timer::DeterministicTimer;
use std::time::Duration;
use std::time::Instant;

struct ExampleTask {
    timer: Option<DeterministicTimer>,
    duration: Duration,
}

impl Suspendable for ExampleTask {
    fn poll(&mut self, waker: &TaskWaker, reactor: &mut DeterministicReactor) -> Poll {
        if self.timer.is_none() {
            self.timer = Some(DeterministicTimer::wait(
                reactor.get_deterministic_time(),
                self.duration,
            ));
        }
        let poll = self.timer.as_mut().unwrap().poll_next(waker, reactor);
        if poll == Poll::Ready {
            println!("waited for {:?}", self.duration);
        }
        poll
    }
}

#[test]
fn timer_test_timer() {
    let mut counter = 0u64;
    let mut executor = DeterministicExecutor::new();

    // spawning a future
    executor
        .spawn(Task::new(
            &mut counter,
            ExampleTask {
                timer: None,
                // waiting for 30 years in simulation
                duration: Duration::from_secs(60 * 24 * 31 * 12 * 30),
            },
        ));
    assert_eq!(executor.run(), RunOutcome::Quiescent);

    let time = executor.reactor().get_deterministic_time();
    assert!(
        time.now().unwrap().gt(&Instant::now()),
        "simulated time {:?} is not greater than now {:?}",
        time.now(),
        &Instant::now()
    );
    assert_eq!(
        time.elapsed(),
        Duration::from_secs(60 * 24 * 31 * 12 * 30)
    );
}

#[test]
fn a_timer_registers_once_and_fires_at_its_expiry() {
    let mut reactor = DeterministicReactor::new();
    let mut ready = ReadyQueue::new(10);
    let waker = TaskWaker::new_waker(TaskId::from_raw(1));
    let other = TaskWaker::new_waker(TaskId::from_raw(2));

    let mut timer =
        DeterministicTimer::wait(reactor.get_deterministic_time(), Duration::from_secs(10));
    assert_eq!(reactor.pending_waits(), 0);
    assert_eq!(timer.poll_next(&waker, &mut reactor), Poll::Pending);
    assert_eq!(reactor.pending_waits(), 1);

    // woken early by a shorter wait: suspends again, registers nothing
    reactor.register_wait(Duration::from_secs(4), other);
    assert_eq!(
        reactor.advance_simulation(&mut ready),
        Some(Duration::from_secs(4))
    );
    assert_eq!(timer.poll_next(&waker, &mut reactor), Poll::Pending);
    assert_eq!(reactor.pending_waits(), 1);

    assert_eq!(
        reactor.advance_simulation(&mut ready),
        Some(Duration::from_secs(10))
    );
    assert_eq!(timer.poll_next(&waker, &mut reactor), Poll::Ready);
    assert_eq!(reactor.pending_waits(), 0);
    assert_eq!(ready.pop(), Some(TaskId::from_raw(2)));
    assert_eq!(ready.pop(), Some(TaskId::from_raw(1)));
}

#[test]
fn a_timer_of_no_duration_is_ready_at_once_but_still_registers() {
    let mut reactor = DeterministicReactor::new();
    let waker = TaskWaker::new_waker(TaskId::from_raw(1));
    let mut timer = DeterministicTimer::wait(reactor.get_deterministic_time(), Duration::ZERO);
    assert_eq!(timer.poll_next(&waker, &mut reactor), Poll::Ready);
    assert_eq!(reactor.pending_waits(), 1);
}

#[test]
fn a_timer_counts_from_the_time_it_was_made_at() {
    let mut reactor = DeterministicReactor::new();
    let mut ready = ReadyQueue::new(10);
    let waker = TaskWaker::new_waker(TaskId::from_raw(1));
    reactor.register_wait(Duration::from_secs(7), waker);
    assert_eq!(
        reactor.advance_simulation(&mut ready),
        Some(Duration::from_secs(7))
    );

    // made at 7 s, expires at 10 s
    let mut timer =
        DeterministicTimer::wait(reactor.get_deterministic_time(), Duration::from_secs(3));
    assert_eq!(timer.poll_next(&waker, &mut reactor), Poll::Pending);
    assert_eq!(
        reactor.advance_simulation(&mut ready),
        Some(Duration::from_secs(3))
    );
    assert_eq!(timer.poll_next(&waker, &mut reactor), Poll::Ready);
}

#[test]
fn a_timer_is_a_task_of_its_own() {
    let mut counter = 0u64;
    let mut executor = DeterministicExecutor::new();
    let time = executor.reactor().get_deterministic_time();
    for secs in [3u64, 1, 2] {
        let timer = DeterministicTimer::wait(time.clone(), Duration::from_secs(secs));
        executor
            .spawn(Task::new(&mut counter, timer));
    }
    // the first turn polls the three timers, which register their waits,
    // and advances the clock by the shortest
    assert_eq!(executor.run_for(1), RunOutcome::OutOfTurns);
    assert_eq!(executor.reactor().pending_waits(), 2);
    assert_eq!(
        executor.reactor().get_deterministic_time().elapsed(),
        Duration::from_secs(1)
    );
    assert_eq!(executor.run(), RunOutcome::Quiescent);
    // each advance adds the duration that was registered: 1 s, 2 s, 3 s
    assert_eq!(
        executor.reactor().get_deterministic_time().elapsed(),
        Duration::from_secs(6)
    );
}

#[test]
fn polling_through_the_trait_is_polling_the_timer() {
    let mut reactor = DeterministicReactor::new();
    let mut ready = ReadyQueue::new(10);
    let waker = TaskWaker::new_waker(TaskId::from_raw(4));
    let mut timer = DeterministicTimer::wait(
        reactor.get_deterministic_time(),
        Duration::from_millis(5),
    );
    assert_eq!(timer.poll(&waker, &mut reactor), Poll::Pending);
    assert_eq!(reactor.pending_waits(), 1);
    assert_eq!(timer.poll(&waker, &mut reactor), Poll::Pending);
    assert_eq!(reactor.pending_waits(), 1);
    assert_eq!(
        reactor.advance_simulation(&mut ready),
        Some(Duration::from_millis(5))
    );
    assert_eq!(ready.pop(), Some(TaskId::from_raw(4)));
    assert_eq!(timer.poll(&waker, &mut reactor), Poll::Ready);
}

#[test]
fn nine_timers_fire_shortest_first_and_add_up() {
    let mut counter = 0u64;
    let mut executor = DeterministicExecutor::new();
    let time = executor.reactor().get_deterministic_time();
    for i in (1..10).rev() {
        let timer = DeterministicTimer::wait(time.clone(), Duration::from_secs(i * 60));
        executor.spawn(Task::new(&mut counter, timer));
    }
    // the first turn polls the nine timers and fires the shortest
    assert_eq!(executor.run_for(1), RunOutcome::OutOfTurns);
    assert_eq!(executor.reactor().pending_waits(), 8);
    assert_eq!(
        executor.reactor().get_deterministic_time().elapsed(),
        Duration::from_secs(60)
    );
    // each further turn completes one timer and fires the next
    let mut expected = 60;
    for i in 2..10 {
        assert_eq!(executor.run_for(1), RunOutcome::OutOfTurns);
        expected += i * 60;
        assert_eq!(
            executor.reactor().get_deterministic_time().elapsed(),
            Duration::from_secs(expected)
        );
        assert_eq!(executor.reactor().pending_waits(), (9 - i) as usize);
    }
    assert_eq!(executor.run(), RunOutcome::Quiescent);
    assert_eq!(
        executor.reactor().get_deterministic_time().elapsed(),
        Duration::from_secs(2700)
    );
}
