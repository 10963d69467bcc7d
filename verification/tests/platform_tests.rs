use circus_simulation::deterministic::fs::file::SimulatedFile;
use circus_simulation::deterministic::platform::fault_for;
use circus_simulation::deterministic::platform::OpenError;
use circus_simulation::deterministic::platform::Opening;
use circus_simulation::deterministic::platform::PendingOpen;
use circus_simulation::deterministic::platform::SimulationPlatform;
use circus_simulation::deterministic::random::UNIT_SCALE;
use circus_simulation::deterministic::runtime::executor::DeterministicExecutor;
use circus_simulation::deterministic::runtime::executor::RunOutcome;
use circus_simulation::deterministic::runtime::executor::TaskWaker;
use circus_simulation::deterministic::runtime::reactor::DeterministicReactor;
use circus_simulation::deterministic::runtime::task::Poll;
use circus_simulation::deterministic::runtime::task::Suspendable;
use circus_simulation::deterministic::runtime::task::Task;
use circus_simulation::deterministic::time::DeterministicTime;
use circus_simulation::file::File;
use circus_simulation::platform::Platform;
use circus_simulation::platform::PlatformProvider;
use std::cell::RefCell;
use std::rc::Rc;
use std::time::Duration;

/// What one open reported: whether it succeeded, and the virtual time that
/// had elapsed when it began and when it ended.
type Report = (bool, Duration, Duration);

/// Opens `/etc/hosts` a number of times in a row on a platform.
struct OpenTask {
    platform: PlatformProvider,
    opens_left: usize,
    started: Duration,
    pending: Option<PendingOpen>,
    reports: Rc<RefCell<Vec<Report>>>,
}

impl OpenTask {
    fn new(seed: u64, opens: usize, reports: Rc<RefCell<Vec<Report>>>) -> OpenTask {
        OpenTask {
            platform: SimulationPlatform::new(seed).into(),
            opens_left: opens,
            started: Duration::ZERO,
            pending: None,
            reports,
        }
    }
}

impl Suspendable for OpenTask {
    fn poll(&mut self, waker: &TaskWaker, reactor: &mut DeterministicReactor) -> Poll {
        loop {
            if let Some(pending) = self.pending.as_mut() {
                if pending.poll_next(waker, reactor) == Poll::Pending {
                    return Poll::Pending;
                }
                let result = self.pending.take().unwrap().finish();
                let now = reactor.get_deterministic_time().elapsed();
                self.reports
                    .borrow_mut()
                    .push((result.is_ok(), self.started, now));
                self.opens_left -= 1;
            }
            if self.opens_left == 0 {
                return Poll::Ready;
            }
            let time = reactor.get_deterministic_time();
            self.started = time.elapsed();
            match self.platform.open() {
                Opening::Faulted(error) => {
                    println!("buggified open file {:?}: {:?}", "/etc/hosts", error);
                    self.reports
                        .borrow_mut()
                        .push((false, self.started, self.started));
                    self.opens_left -= 1;
                }
                Opening::AskHost => {
                    // the host finds the file
                    let host = Ok(SimulatedFile::new(3));
                    self.pending = Some(self.platform.opened(host, time));
                }
            }
        }
    }
}

#[test]
fn test_open() {
    let mut counter = 0u64;
    let reports = Rc::new(RefCell::new(Vec::new()));
    let mut executor = DeterministicExecutor::new_with_reactor(DeterministicReactor::default());
    executor
        .spawn(Task::new(
            &mut counter,
            OpenTask::new(42, 1, reports.clone()),
        ));
    assert_eq!(executor.run(), RunOutcome::Quiescent);

    let (ok, start, end) = reports.borrow()[0];
    assert!(ok, "could not open /etc/hosts");
    assert!(
        start.lt(&end),
        "simulated time did not moved: start={:?}, end={:?}",
        start,
        end
    );
    // using seed 42, time should have been moved by 817ms exactly
    assert_eq!(
        end - start,
        Duration::from_millis(817),
        "None deterministic time found!"
    );
}

#[test]
fn test_buggified_open() {
    let mut counter = 0u64;
    let reports = Rc::new(RefCell::new(Vec::new()));
    let mut executor = DeterministicExecutor::new_with_reactor(DeterministicReactor::default());
    executor
        .spawn(Task::new(
            &mut counter,
            OpenTask::new(42, 10, reports.clone()),
        ));
    assert_eq!(executor.run(), RunOutcome::Quiescent);

    assert_eq!(reports.borrow().len(), 10);
    for (i, (ok, start, end)) in reports.borrow().iter().enumerate() {
        if i == 8 {
            assert!(!ok);
            // an injected fault takes no virtual time
            assert_eq!(start, end);
        } else {
            assert!(ok);
            let latency = *end - *start;
            assert!(Duration::from_millis(300) <= latency);
            assert!(latency < Duration::from_millis(2000));
        }
    }
}

#[test]
fn the_same_seed_gives_the_same_run() {
    let mut runs = Vec::new();
    for _ in 0..2 {
        let mut counter = 0u64;
        let reports = Rc::new(RefCell::new(Vec::new()));
        let mut executor = DeterministicExecutor::new();
        for _ in 0..3 {
            executor
                .spawn(Task::new(
                    &mut counter,
                    OpenTask::new(1234, 20, reports.clone()),
                ));
        }
        assert_eq!(executor.run(), RunOutcome::Quiescent);
        let report = reports.borrow().clone();
        runs.push(report);
    }
    assert_eq!(runs[0].len(), 60);
    assert_eq!(runs[0], runs[1]);
}

#[test]
fn fault_kinds_follow_the_draw() {
    let tenth = UNIT_SCALE / 10;
    assert!(matches!(fault_for(0), OpenError::UnexpectedEof));
    assert!(matches!(fault_for(tenth), OpenError::UnexpectedEof));
    assert!(matches!(fault_for(tenth + 1), OpenError::PermissionDenied));
    assert!(matches!(fault_for(2 * tenth + 1), OpenError::PermissionDenied));
    assert!(matches!(fault_for(2 * tenth + 2), OpenError::NotFound));
    assert!(matches!(fault_for(UNIT_SCALE - 1), OpenError::NotFound));
}

#[test]
fn a_pending_open_hands_out_what_the_host_answered() {
    let time = DeterministicTime::new();
    let found = PendingOpen::new(Ok(SimulatedFile::new(7)), time.clone(), 300);
    assert_eq!(found.latency_ms(), 300);
    match found.finish() {
        Ok(File::SimulatedFile(file)) => assert_eq!(file.host_handle(), 7),
        Err(error) => panic!("unexpected error {:?}", error),
    }

    let refused = std::io::Error::from(std::io::ErrorKind::PermissionDenied);
    let missing = PendingOpen::new(Err(refused), time, 1999);
    match missing.finish() {
        Err(OpenError::Host(error)) => {
            assert_eq!(error.kind(), std::io::ErrorKind::PermissionDenied)
        }
        other => panic!("unexpected result {:?}", other),
    }
}

#[test]
fn the_platform_tells_the_virtual_time() {
    let platform = SimulationPlatform::new(42);
    let reactor = DeterministicReactor::new();
    let time = reactor.get_deterministic_time();
    assert_eq!(platform.now(&reactor), time.now());
    assert_eq!(platform.now(&reactor), Some(time.base()));
}

#[test]
fn a_file_is_made_from_a_simulated_file() {
    let file: File = SimulatedFile::new(1).into();
    assert_eq!(file, File::SimulatedFile(SimulatedFile::new(1)));
}

#[test]
fn a_pending_open_is_polled_through_the_trait() {
    let mut counter = 0u64;
    let mut executor = DeterministicExecutor::new();
    let time = executor.reactor().get_deterministic_time();
    let pending = PendingOpen::new(Ok(SimulatedFile::new(1)), time, 450);
    executor
        .spawn(Task::new(&mut counter, pending));
    assert_eq!(executor.run(), RunOutcome::Quiescent);
    assert_eq!(
        executor.reactor().get_deterministic_time().elapsed(),
        Duration::from_millis(450)
    );

    let mut reactor = DeterministicReactor::new();
    let waker = TaskWaker::new_waker(Task::new(&mut counter, Idle).id());
    let mut open = PendingOpen::new(
        Ok(SimulatedFile::new(2)),
        reactor.get_deterministic_time(),
        0,
    );
    // no latency: ready at once, and the wait is registered all the same
    assert_eq!(open.poll(&waker, &mut reactor), Poll::Ready);
    assert_eq!(reactor.pending_waits(), 1);
}

struct Idle;

impl Suspendable for Idle {
    fn poll(&mut self, _waker: &TaskWaker, _reactor: &mut DeterministicReactor) -> Poll {
        Poll::Ready
    }
}
