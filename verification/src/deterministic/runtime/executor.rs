//! Executor module.

use crate::deterministic::runtime::queue::ReadyQueue;
use crate::deterministic::runtime::reactor::stable_sort;
use crate::deterministic::runtime::reactor::DeterministicReactor;
use crate::deterministic::runtime::reactor::ReactorEntry;
use crate::deterministic::runtime::schedule::advances;
use crate::deterministic::runtime::schedule::lemma_add_events;
use crate::deterministic::runtime::schedule::lemma_no_advances;
use crate::deterministic::runtime::schedule::lemma_poll_is_a_step;
use crate::deterministic::runtime::schedule::lemma_push_event;
use crate::deterministic::runtime::schedule::lemma_skips;
use crate::deterministic::runtime::schedule::lemma_steps_only_finish_tasks;
use crate::deterministic::runtime::schedule::skips;
use crate::deterministic::runtime::schedule::Event;
use crate::deterministic::runtime::schedule::Schedule;
use crate::deterministic::runtime::task::Poll;
use crate::deterministic::runtime::task::Suspendable;
use crate::deterministic::runtime::task::Task;
use crate::deterministic::runtime::task::TaskId;
use crate::deterministic::time::MAX_DURATION_NANOS;
use std::collections::BTreeMap;
use vstd::prelude::*;

verus! {

broadcast use {TaskId::raw_of_roundtrip, TaskId::of_raw_roundtrip};

/// A handle that, when invoked, puts the identity of one task on a ready
/// queue.
#[derive(Debug, Clone, Copy, PartialEq, Eq, Structural)]
pub struct TaskWaker {
    task_id: TaskId,
}

impl TaskWaker {
    /// The task that the waker wakes.
    pub closed spec fn task(&self) -> TaskId {
        self.task_id
    }

    /// Creates the waker of the task `task_id`.
    pub fn new_waker(task_id: TaskId) -> (waker: TaskWaker)
        ensures
            waker.task() == task_id,
    {
        TaskWaker { task_id }
    }

    /// The task that the waker wakes.
    pub fn task_id(&self) -> (id: TaskId)
        ensures
            id == self.task(),
    {
        self.task_id
    }

    /// Puts the task at the end of `queue`. A full queue is fatal to the
    /// simulation, so the caller rules it out.
    pub fn wake_task(&self, queue: &mut ReadyQueue)
        requires
            !old(queue).spec_is_full(),
        ensures
            final(queue)@ == old(queue)@.push(self.task()),
            final(queue).spec_capacity() == old(queue).spec_capacity(),
    {
        let _ = queue.push(self.task_id);
    }

    /// Wakes the task and gives the waker up.
    pub fn wake(self, queue: &mut ReadyQueue)
        requires
            !old(queue).spec_is_full(),
        ensures
            final(queue)@ == old(queue)@.push(self.task()),
            final(queue).spec_capacity() == old(queue).spec_capacity(),
    {
        self.wake_task(queue);
    }

    /// Wakes the task and keeps the waker.
    pub fn wake_by_ref(&self, queue: &mut ReadyQueue)
        requires
            !old(queue).spec_is_full(),
        ensures
            final(queue)@ == old(queue)@.push(self.task()),
            final(queue).spec_capacity() == old(queue).spec_capacity(),
    {
        self.wake_task(queue);
    }
}

/// The capacity of the ready queue of an executor.
pub const READY_QUEUE_CAPACITY: usize = 100;

/// Why a task could not be spawned.
#[derive(Debug, Clone, Copy, PartialEq, Eq, Structural)]
pub enum SpawnError {
    /// The executor already holds a task with the same identity.
    DuplicateTask,
    /// The ready queue has no room for the task.
    QueueFull,
}

/// How a run of the executor ended.
#[derive(Debug, Clone, Copy, PartialEq, Eq, Structural)]
pub enum RunOutcome {
    /// Every task has completed: no task, no cached waker and no queued
    /// identity is left.
    Quiescent,
    /// Tasks remain, but none is ready and no wait is pending: nothing can
    /// ever make progress.
    Deadlock,
    /// Tasks remain, but the next wait would carry the virtual clock past
    /// the longest span that it can hold.
    ClockExhausted,
    /// The run used up the turns it was given.
    OutOfTurns,
}

/// A deterministic, single-threaded executor that can be used in simulation
/// mode. Combined with the [`DeterministicReactor`], which it owns, it polls
/// and schedules tasks in a deterministic way.
pub struct DeterministicExecutor<C: Suspendable> {
    tasks: BTreeMap<u64, Task<C>>,
    task_queue: ReadyQueue,
    waker_cache: BTreeMap<u64, TaskWaker>,
    reactor: DeterministicReactor,
    history: Ghost<Seq<Event<C>>>,
}

impl<C: Suspendable> View for DeterministicExecutor<C> {
    type V = Schedule<C>;

    /// What the executor and its reactor hold.
    open spec fn view(&self) -> Schedule<C> {
        Schedule {
            tasks: Map::new(|id: TaskId| self.has_task(id), |id: TaskId| self.task_of(id)),
            wakers: Set::new(|id: TaskId| self.has_waker(id)),
            ready: self.ready(),
            pending: self.reactor_view().pending(),
            elapsed: self.reactor_view().elapsed_nanos(),
            base: self.reactor_view().clock().base_instant(),
        }
    }
}

impl<C: Suspendable> DeterministicExecutor<C> {
    /// Whether the executor holds a task with the identity `id`.
    pub closed spec fn has_task(&self, id: TaskId) -> bool {
        self.tasks@.contains_key(id.raw())
    }

    /// The task that the executor holds under the identity `id`.
    pub closed spec fn task_of(&self, id: TaskId) -> Task<C> {
        self.tasks@[id.raw()]
    }

    /// Whether the executor holds a cached waker for the task `id`.
    pub closed spec fn has_waker(&self, id: TaskId) -> bool {
        self.waker_cache@.contains_key(id.raw())
    }

    /// The identities that wait to be polled, oldest first.
    pub closed spec fn ready(&self) -> Seq<TaskId> {
        self.task_queue@
    }

    /// The capacity of the ready queue.
    pub closed spec fn ready_capacity(&self) -> nat {
        self.task_queue.spec_capacity()
    }

    /// The reactor of the executor.
    pub closed spec fn reactor_view(&self) -> DeterministicReactor {
        self.reactor
    }

    /// Every step that the executor has taken in `run_ready_tasks` and
    /// `run`, oldest first.
    pub closed spec fn history(&self) -> Seq<Event<C>> {
        self.history@
    }

    /// The steps that the executor has taken since it was as `earlier`.
    pub open spec fn steps_since(&self, earlier: &DeterministicExecutor<C>) -> Seq<Event<C>> {
        self.history().skip(earlier.history().len() as int)
    }

    /// Whether there is no task, no cached waker and no queued identity.
    pub open spec fn is_quiescent(&self) -> bool {
        self@.quiescent()
    }

    /// The invariant of the executor: each task and each waker is filed
    /// under its own identity, a waker is cached only for a task that the
    /// executor holds, and the ready queue has room for at least one
    /// identity.
    pub closed spec fn wf(&self) -> bool {
        &&& forall|raw: u64| #[trigger]
            self.tasks@.contains_key(raw) ==> self.tasks@[raw].task_id().raw() == raw
        &&& forall|raw: u64| #[trigger]
            self.waker_cache@.contains_key(raw) ==> self.waker_cache@[raw].task().raw() == raw
        &&& forall|raw: u64| #[trigger]
            self.waker_cache@.contains_key(raw) ==> self.tasks@.contains_key(raw)
        &&& self.task_queue.spec_capacity() > 0
    }

    /// In a well-formed executor a waker is cached only for a task that is
    /// there, and each task is filed under its own identity.
    pub proof fn lemma_wakers_have_tasks(&self)
        requires
            self.wf(),
        ensures
            self@.wakers.subset_of(self@.tasks.dom()),
            forall|id: TaskId| #[trigger]
                self@.tasks.contains_key(id) ==> self@.tasks[id].task_id() == id,
    {
        assert forall|id: TaskId| #[trigger] self@.tasks.contains_key(id) implies self@.tasks[id].task_id()
            == id by {
            assert(self.tasks@.contains_key(id.raw()));
            assert(TaskId::of(self.tasks@[id.raw()].task_id().raw()) == TaskId::of(id.raw()));
        }
    }

    /// Creates a new executor around a fresh reactor.
    pub fn new() -> (executor: DeterministicExecutor<C>)
        ensures
            executor.wf(),
            executor.is_quiescent(),
            executor.ready_capacity() == READY_QUEUE_CAPACITY,
            executor@.pending == Seq::<ReactorEntry>::empty(),
            executor@.elapsed == 0,
            executor.history() == Seq::<Event<C>>::empty(),
    {
        DeterministicExecutor::new_with_reactor(DeterministicReactor::new())
    }

    /// Creates a new executor around `reactor`.
    pub fn new_with_reactor(reactor: DeterministicReactor) -> (executor: DeterministicExecutor<C>)
        ensures
            executor.wf(),
            executor.is_quiescent(),
            executor.ready_capacity() == READY_QUEUE_CAPACITY,
            executor.reactor_view() == reactor,
            executor.history() == Seq::<Event<C>>::empty(),
    {
        DeterministicExecutor {
            tasks: BTreeMap::new(),
            task_queue: ReadyQueue::new(READY_QUEUE_CAPACITY),
            waker_cache: BTreeMap::new(),
            reactor,
            history: Ghost(Seq::empty()),
        }
    }

    /// The reactor of the executor.
    pub fn reactor(&self) -> (reactor: &DeterministicReactor)
        ensures
            *reactor == self.reactor_view(),
    {
        &self.reactor
    }

    /// Whether there is no task, no cached waker and no queued identity.
    pub fn quiescent(&self) -> (quiescent: bool)
        ensures
            quiescent == self.is_quiescent(),
    {
        let quiescent = self.waker_cache.is_empty() && self.task_queue.is_empty()
            && self.tasks.is_empty();
        proof {
            if self.tasks@.is_empty() {
                assert forall|id: TaskId| !self.has_task(id) by {
                    assert(!self.tasks@.dom().contains(id.raw()));
                }
            } else {
                let raw = choose|raw: u64| self.tasks@.dom().contains(raw);
                assert(self.has_task(TaskId::of(raw)));
                assert(self@.tasks.dom().contains(TaskId::of(raw)));
            }
            if self.waker_cache@.is_empty() {
                assert forall|id: TaskId| !self.has_waker(id) by {
                    assert(!self.waker_cache@.dom().contains(id.raw()));
                }
            } else {
                let raw = choose|raw: u64| self.waker_cache@.dom().contains(raw);
                assert(self.has_waker(TaskId::of(raw)));
                assert(self@.wakers.contains(TaskId::of(raw)));
            }
        }
        quiescent
    }

    /// Whether the executor holds a task with the identity `id`.
    pub fn holds(&self, id: TaskId) -> (held: bool)
        ensures
            held == self.has_task(id),
            held == self@.tasks.contains_key(id),
    {
        self.tasks.contains_key(&id.as_u64())
    }

    /// Whether the ready queue has no room left.
    pub fn ready_is_full(&self) -> (full: bool)
        ensures
            full == (self.ready().len() >= self.ready_capacity()),
    {
        self.task_queue.is_full()
    }

    /// Register a task: file it under its identity and queue the identity
    /// for a first poll.
    ///
    /// A task whose identity the executor holds already, and a ready queue
    /// without room, are fatal to the simulation, so the caller rules them
    /// out.
    pub fn spawn(&mut self, task: Task<C>)
        requires
            old(self).wf(),
            !old(self).has_task(task.task_id()),
            old(self).ready().len() < old(self).ready_capacity(),
        ensures
            final(self).wf(),
            final(self).reactor_view() == old(self).reactor_view(),
            final(self).ready_capacity() == old(self).ready_capacity(),
            final(self).history() == old(self).history(),
            final(self)@ == (Schedule {
                tasks: old(self)@.tasks.insert(task.task_id(), task),
                ready: old(self)@.ready.push(task.task_id()),
                ..old(self)@
            }),
    {
        let task_id: TaskId = task.id();
        let raw: u64 = task_id.as_u64();
        self.tasks.insert(raw, task);
        let _ = self.task_queue.push(task_id);
        proof {
            let filed = old(self)@.tasks.insert(task.task_id(), task);
            assert forall|id: TaskId| self@.tasks.contains_key(id) == filed.contains_key(id) by {
                if id.raw() == raw {
                    assert(TaskId::of(id.raw()) == TaskId::of(task_id.raw()));
                }
            }
            assert forall|id: TaskId| self@.tasks.contains_key(id) implies self@.tasks[id]
                == filed[id] by {
                if id.raw() == raw {
                    assert(TaskId::of(id.raw()) == TaskId::of(task_id.raw()));
                }
            }
            assert(self@.tasks =~= filed);
            assert(self@.wakers =~= old(self)@.wakers);
        }
    }

    /// Registers a task if it can be registered: as `spawn`, but a task
    /// whose identity the executor holds already, or a ready queue without
    /// room, is reported, and the executor is then left as it was.
    pub fn try_spawn(&mut self, task: Task<C>) -> (spawned: Result<(), SpawnError>)
        requires
            old(self).wf(),
        ensures
            final(self).wf(),
            final(self).reactor_view() == old(self).reactor_view(),
            final(self).ready_capacity() == old(self).ready_capacity(),
            final(self).history() == old(self).history(),
            spawned == if old(self).has_task(task.task_id()) {
                Err::<(), SpawnError>(SpawnError::DuplicateTask)
            } else if old(self).ready().len() >= old(self).ready_capacity() {
                Err::<(), SpawnError>(SpawnError::QueueFull)
            } else {
                Ok::<(), SpawnError>(())
            },
            final(self)@ == if spawned is Ok {
                Schedule {
                    tasks: old(self)@.tasks.insert(task.task_id(), task),
                    ready: old(self)@.ready.push(task.task_id()),
                    ..old(self)@
                }
            } else {
                old(self)@
            },
    {
        if self.holds(task.id()) {
            Err(SpawnError::DuplicateTask)
        } else if self.ready_is_full() {
            Err(SpawnError::QueueFull)
        } else {
            self.spawn(task);
            Ok(())
        }
    }

    /// The invariant of the executor while the task `id` is out for a poll:
    /// as `wf`, but the task `id` is not filed, and its waker is cached.
    pub closed spec fn wf_polling(&self, id: TaskId) -> bool {
        &&& forall|raw: u64| #[trigger]
            self.tasks@.contains_key(raw) ==> self.tasks@[raw].task_id().raw() == raw
        &&& forall|raw: u64| #[trigger]
            self.waker_cache@.contains_key(raw) ==> self.waker_cache@[raw].task().raw() == raw
        &&& forall|raw: u64| #[trigger]
            self.waker_cache@.contains_key(raw) ==> self.tasks@.contains_key(raw) || raw
                == id.raw()
        &&& self.task_queue.spec_capacity() > 0
        &&& !self.tasks@.contains_key(id.raw())
        &&& self.waker_cache@.contains_key(id.raw())
    }

    /// The place in the ready queue, from `from` on, of the first identity
    /// that names a task of the executor; the length of the queue if there is
    /// none.
    pub open spec fn next_live(&self, from: int) -> int
        decreases self.ready().len() - from,
    {
        if from < 0 || from >= self.ready().len() {
            self.ready().len() as int
        } else if self.has_task(self.ready()[from]) {
            from
        } else {
            self.next_live(from + 1)
        }
    }

    /// `next_live` stays within the queue, points at a task if it points at
    /// anything, and passes over identities without a task only.
    pub proof fn lemma_next_live(&self, from: int)
        requires
            0 <= from,
        ensures
            from <= self.next_live(from) || self.next_live(from) == self.ready().len(),
            self.next_live(from) <= self.ready().len(),
            self.next_live(from) < self.ready().len() ==> self.has_task(
                self.ready()[self.next_live(from)],
            ),
            forall|j: int| from <= j < self.next_live(from) ==> !self.has_task(self.ready()[j]),
        decreases self.ready().len() - from,
    {
        if from < self.ready().len() && !self.has_task(self.ready()[from]) {
            self.lemma_next_live(from + 1);
        }
    }

    /// Takes the next task to poll out of the executor, with its waker.
    ///
    /// Identities are popped from the ready queue, oldest first, until one
    /// names a task that the executor holds; identities without a task are
    /// dropped. The task is the one that was filed under that identity. Its
    /// waker is created and cached if it is not cached yet. `None` when the
    /// queue runs empty first.
    pub fn take_ready(&mut self) -> (taken: Option<(Task<C>, TaskWaker)>)
        requires
            old(self).wf(),
        ensures
            final(self).reactor_view() == old(self).reactor_view(),
            final(self).ready_capacity() == old(self).ready_capacity(),
            final(self).history() == old(self).history(),
            taken is None <==> old(self).next_live(0) == old(self).ready().len(),
            taken is None ==> {
                &&& final(self).wf()
                &&& final(self)@ == (Schedule { ready: Seq::<TaskId>::empty(), ..old(self)@ })
            },
            taken matches Some((task, waker)) ==> {
                &&& task.task_id() == old(self).ready()[old(self).next_live(0)]
                &&& task == old(self)@.tasks[task.task_id()]
                &&& waker.task() == task.task_id()
                &&& final(self).wf_polling(task.task_id())
                &&& final(self)@ == (Schedule {
                    tasks: old(self)@.tasks.remove(task.task_id()),
                    wakers: old(self)@.wakers.insert(task.task_id()),
                    ready: old(self)@.ready.skip(old(self).next_live(0) + 1),
                    ..old(self)@
                })
            },
    {
        let ghost mut passed: int = 0;
        loop
            invariant
                self.wf(),
                0 <= passed <= old(self).ready().len(),
                self.ready() == old(self).ready().skip(passed),
                old(self).next_live(0) == old(self).next_live(passed),
                self.tasks@ == old(self).tasks@,
                self.waker_cache@ == old(self).waker_cache@,
                self.reactor == old(self).reactor,
                self.history == old(self).history,
                self.ready_capacity() == old(self).ready_capacity(),
            decreases self.ready().len(),
        {
            proof {
                old(self).lemma_next_live(passed);
            }
            let popped = self.task_queue.pop();
            match popped {
                None => {
                    proof {
                        assert(self@.tasks =~= old(self)@.tasks);
                        assert(self@.wakers =~= old(self)@.wakers);
                        assert(self@.ready =~= Seq::<TaskId>::empty());
                    }
                    return None;
                },
                Some(task_id) => {
                    let raw: u64 = task_id.as_u64();
                    assert(task_id == old(self).ready()[passed]);
                    assert(self.ready() =~= old(self).ready().skip(passed + 1));
                    let filed = self.tasks.remove(&raw);
                    match filed {
                        None => {
                            // task no longer exists
                            assert(self.tasks@ =~= old(self).tasks@);
                            proof {
                                passed = passed + 1;
                            }
                        },
                        Some(task) => {
                            if !self.waker_cache.contains_key(&raw) {
                                self.waker_cache.insert(raw, TaskWaker::new_waker(task_id));
                            }
                            let cached = self.waker_cache.get(&raw);
                            let waker: TaskWaker = match cached {
                                Some(waker) => *waker,
                                None => TaskWaker::new_waker(task_id),
                            };
                            proof {
                                assert(task.task_id() == task_id) by {
                                    assert(old(self).tasks@.contains_key(raw));
                                    assert(TaskId::of(task.task_id().raw()) == TaskId::of(raw));
                                }
                                assert(waker.task() == task_id) by {
                                    assert(TaskId::of(waker.task().raw()) == TaskId::of(raw));
                                }
                                let left = old(self)@.tasks.remove(task_id);
                                assert forall|id: TaskId|
                                    self@.tasks.contains_key(id) == left.contains_key(id) by {
                                    if id.raw() == raw {
                                        assert(TaskId::of(id.raw()) == TaskId::of(task_id.raw()));
                                    }
                                }
                                assert(self@.tasks =~= left);
                                let cache = old(self)@.wakers.insert(task_id);
                                assert forall|id: TaskId|
                                    self@.wakers.contains(id) == cache.contains(id) by {
                                    if id.raw() == raw {
                                        assert(TaskId::of(id.raw()) == TaskId::of(task_id.raw()));
                                    }
                                }
                                assert(self@.wakers =~= cache);
                            }
                            return Some((task, waker));
                        },
                    }
                },
            }
        }
    }

    /// Files what a poll of `task` reported: a task that is `Ready` is
    /// dropped together with its cached waker, a task that is `Pending` goes
    /// back into the executor as it is.
    pub fn settle(&mut self, task: Task<C>, poll: Poll)
        requires
            old(self).wf_polling(task.task_id()),
        ensures
            final(self).wf(),
            final(self).reactor_view() == old(self).reactor_view(),
            final(self).ready_capacity() == old(self).ready_capacity(),
            final(self).history() == old(self).history(),
            final(self)@ == (Schedule {
                tasks: if poll == Poll::Pending {
                    old(self)@.tasks.insert(task.task_id(), task)
                } else {
                    old(self)@.tasks
                },
                wakers: if poll == Poll::Ready {
                    old(self)@.wakers.remove(task.task_id())
                } else {
                    old(self)@.wakers
                },
                ..old(self)@
            }),
    {
        let task_id: TaskId = task.id();
        let raw: u64 = task_id.as_u64();
        match poll {
            Poll::Ready => {
                // task done -> remove it and its cached waker
                self.waker_cache.remove(&raw);
            },
            Poll::Pending => {
                self.tasks.insert(raw, task);
            },
        }
        proof {
            let filed = if poll == Poll::Pending {
                old(self)@.tasks.insert(task.task_id(), task)
            } else {
                old(self)@.tasks
            };
            assert forall|id: TaskId| self@.tasks.contains_key(id) == filed.contains_key(id) by {
                if id.raw() == raw {
                    assert(TaskId::of(id.raw()) == TaskId::of(task_id.raw()));
                }
            }
            assert forall|id: TaskId| self@.tasks.contains_key(id) implies self@.tasks[id]
                == filed[id] by {
                if id.raw() == raw {
                    assert(TaskId::of(id.raw()) == TaskId::of(task_id.raw()));
                }
            }
            assert(self@.tasks =~= filed);
            let cache = if poll == Poll::Ready {
                old(self)@.wakers.remove(task.task_id())
            } else {
                old(self)@.wakers
            };
            assert forall|id: TaskId| self@.wakers.contains(id) == cache.contains(id) by {
                if id.raw() == raw {
                    assert(TaskId::of(id.raw()) == TaskId::of(task_id.raw()));
                }
            }
            assert(self@.wakers =~= cache);
        }
    }

    /// Polls the tasks whose identities are queued, in the order of the
    /// queue, until the queue is empty.
    ///
    /// An identity without a task is skipped. A task is polled with its
    /// cached waker on the reactor of the executor. A task that reports
    /// `Ready` leaves the executor with its cached waker; a task that reports
    /// `Pending` stays, and has by then registered the wait that will wake
    /// it. There is one step for each identity that was queued, in the order
    /// of the queue, and the executor ends up as those steps leave it.
    pub fn run_ready_tasks(&mut self)
        requires
            old(self).wf(),
        ensures
            final(self).wf(),
            final(self).ready_capacity() == old(self).ready_capacity(),
            final(self).reactor_view().clock() == old(self).reactor_view().clock(),
            final(self)@.ready.len() == 0,
            old(self).history().is_prefix_of(final(self).history()),
            final(self).steps_since(old(self)).len() == old(self)@.ready.len(),
            forall|i: int|
                0 <= i < old(self)@.ready.len() ==> {
                    &&& !(#[trigger] final(self).steps_since(old(self))[i] is Advanced)
                    &&& final(self).steps_since(old(self))[i].task() == old(self)@.ready[i]
                },
            old(self)@.allows_all(final(self).steps_since(old(self))),
            final(self)@ == old(self)@.after_all(final(self).steps_since(old(self))),
    {
        let ghost start = self@;
        let ghost base = self.history@;
        let ghost mut passed: int = 0;
        assert(self.history@.skip(base.len() as int) =~= Seq::<Event<C>>::empty());
        loop
            invariant
                self.wf(),
                start == old(self)@,
                base == old(self).history@,
                0 <= passed <= start.ready.len(),
                self.ready() == start.ready.skip(passed),
                self.ready_capacity() == old(self).ready_capacity(),
                self.reactor.clock() == old(self).reactor.clock(),
                base.is_prefix_of(self.history@),
                self.history@.skip(base.len() as int).len() == passed,
                forall|i: int|
                    0 <= i < passed ==> {
                        &&& !(#[trigger] self.history@.skip(base.len() as int)[i] is Advanced)
                        &&& self.history@.skip(base.len() as int)[i].task() == start.ready[i]
                    },
                start.allows_all(self.history@.skip(base.len() as int)),
                self@ == start.after_all(self.history@.skip(base.len() as int)),
            decreases self.ready().len(),
        {
            let ghost before = *self;
            let ghost steps = self.history@.skip(base.len() as int);
            let ghost live = before.next_live(0);
            proof {
                self.lemma_next_live(0);
                lemma_skips(before@, live);
            }
            let ghost skipped = skips::<C>(before@.ready, live);
            let taken = self.take_ready();
            match taken {
                None => {
                    self.history = Ghost(self.history@ + skipped);
                    proof {
                        lemma_add_events(start, steps, skipped);
                        assert(self.history@.skip(base.len() as int) =~= steps + skipped);
                        assert(before@.ready.skip(live) =~= Seq::<TaskId>::empty());
                        assert(self@ =~= before@.after_all(skipped));
                    }
                    return ;
                },
                Some((mut task, waker)) => {
                    let ghost task_id = task.task_id();
                    let ghost taken_out = *self;
                    let ghost asked = task;
                    let poll = task.poll(&waker, &mut self.reactor);
                    let ghost polling = *self;
                    let ghost left = task;
                    self.settle(task, poll);
                    let ghost polled = Event::Polled {
                        task: task_id,
                        waker,
                        poll,
                        before: taken_out.reactor,
                        after: polling.reactor,
                        left,
                    };
                    self.history = Ghost(self.history@ + skipped.push(polled));
                    proof {
                        let middle = before@.after_all(skipped);
                        assert(middle.ready[0] == task_id);
                        assert(middle.tasks[task_id] == asked);
                        assert(middle.allows(polled));
                        lemma_push_event(before@, skipped, polled);
                        lemma_add_events(start, steps, skipped.push(polled));
                        assert(self.history@.skip(base.len() as int) =~= steps + skipped.push(
                            polled,
                        ));
                        assert(middle.ready.drop_first() =~= before@.ready.skip(live + 1));
                        assert(polling@.tasks =~= taken_out@.tasks);
                        assert(polling@.wakers =~= taken_out@.wakers);
                        assert(self@ =~= (Schedule {
                            tasks: if poll == Poll::Pending {
                                middle.tasks.remove(task_id).insert(task_id, left)
                            } else {
                                middle.tasks.remove(task_id)
                            },
                            wakers: if poll == Poll::Ready {
                                middle.wakers.insert(task_id).remove(task_id)
                            } else {
                                middle.wakers.insert(task_id)
                            },
                            ready: middle.ready.drop_first(),
                            pending: polling.reactor.pending(),
                            ..middle
                        }));
                        lemma_poll_is_a_step(
                            middle,
                            self@,
                            task_id,
                            waker,
                            poll,
                            taken_out.reactor,
                            polling.reactor,
                            left,
                        );
                        assert(self.ready() =~= start.ready.skip(passed + live + 1));
                        passed = passed + live + 1;
                    }
                },
            }
        }
    }

    /// Main loop: polls every ready task, then lets the reactor advance the
    /// simulation to the next wake-up, until the executor is quiescent, or
    /// until tasks remain that nothing can wake, or until the virtual clock
    /// cannot hold the next advance.
    ///
    /// The loop gives up after `u64::MAX` turns.
    pub fn run(&mut self) -> (outcome: RunOutcome)
        requires
            old(self).wf(),
        ensures
            final(self).wf(),
            final(self).ready_capacity() == old(self).ready_capacity(),
            old(self).history().is_prefix_of(final(self).history()),
            old(self)@.allows_all(final(self).steps_since(old(self))),
            final(self)@ == old(self)@.after_all(final(self).steps_since(old(self))),
            outcome == RunOutcome::OutOfTurns <==> advances(final(self).steps_since(old(self)))
                == u64::MAX,
            outcome == RunOutcome::Quiescent ==> final(self)@.quiescent(),
            outcome == RunOutcome::Deadlock ==> {
                &&& !final(self)@.quiescent()
                &&& final(self)@.ready.len() == 0
                &&& final(self)@.pending.len() == 0
            },
            outcome == RunOutcome::ClockExhausted ==> {
                &&& !final(self)@.quiescent()
                &&& final(self)@.ready.len() == 0
                &&& final(self)@.pending.len() > 0
                &&& final(self)@.elapsed + stable_sort(final(self)@.pending)[0].nanos()
                    > MAX_DURATION_NANOS
            },
            old(self).is_quiescent() ==> outcome == RunOutcome::Quiescent,
            final(self)@.tasks.dom().subset_of(old(self)@.tasks.dom()),
            final(self)@.elapsed >= old(self)@.elapsed,
            final(self)@.base == old(self)@.base,
    {
        self.run_for(u64::MAX)
    }

    /// The main loop for at most `max_turns` turns.
    ///
    /// One turn drains the ready queue and, if tasks remain, advances the
    /// simulation once. The run ends after `max_turns` turns. It ends
    /// earlier when the executor is quiescent, when tasks remain but nothing
    /// can wake them, or when the virtual clock cannot hold the next advance.
    pub fn run_for(&mut self, max_turns: u64) -> (outcome: RunOutcome)
        requires
            old(self).wf(),
        ensures
            final(self).wf(),
            final(self).ready_capacity() == old(self).ready_capacity(),
            old(self).history().is_prefix_of(final(self).history()),
            old(self)@.allows_all(final(self).steps_since(old(self))),
            final(self)@ == old(self)@.after_all(final(self).steps_since(old(self))),
            advances(final(self).steps_since(old(self))) <= max_turns,
            outcome == RunOutcome::OutOfTurns <==> advances(final(self).steps_since(old(self)))
                == max_turns,
            outcome == RunOutcome::Quiescent ==> final(self)@.quiescent(),
            outcome == RunOutcome::Deadlock ==> {
                &&& !final(self)@.quiescent()
                &&& final(self)@.ready.len() == 0
                &&& final(self)@.pending.len() == 0
            },
            outcome == RunOutcome::ClockExhausted ==> {
                &&& !final(self)@.quiescent()
                &&& final(self)@.ready.len() == 0
                &&& final(self)@.pending.len() > 0
                &&& final(self)@.elapsed + stable_sort(final(self)@.pending)[0].nanos()
                    > MAX_DURATION_NANOS
            },
            max_turns == 0 ==> *final(self) == *old(self),
            max_turns > 0 && old(self).is_quiescent() ==> outcome == RunOutcome::Quiescent,
            final(self)@.tasks.dom().subset_of(old(self)@.tasks.dom()),
            final(self)@.elapsed >= old(self)@.elapsed,
            final(self)@.base == old(self)@.base,
    {
        let ghost start = self@;
        let ghost base = self.history@;
        let mut turns: u64 = 0;
        assert(self.history@.skip(base.len() as int) =~= Seq::<Event<C>>::empty());
        proof {
            self.lemma_wakers_have_tasks();
        }
        while turns < max_turns
            invariant
                self.wf(),
                old(self).wf(),
                start == old(self)@,
                base == old(self).history@,
                turns <= max_turns,
                turns == 0 ==> *self == *old(self),
                old(self).is_quiescent() ==> turns == 0,
                self.ready_capacity() == old(self).ready_capacity(),
                base.is_prefix_of(self.history@),
                start.allows_all(self.history@.skip(base.len() as int)),
                self@ == start.after_all(self.history@.skip(base.len() as int)),
                advances(self.history@.skip(base.len() as int)) == turns,
                start.wakers.subset_of(start.tasks.dom()),
            ensures
                turns == max_turns,
            decreases max_turns - turns,
        {
            let ghost steps = self.history@.skip(base.len() as int);
            let ghost before = *self;
            self.run_ready_tasks();
            let ghost drained = self.steps_since(&before);
            proof {
                lemma_no_advances(drained);
                lemma_add_events(start, steps, drained);
                assert(self.history@.skip(base.len() as int) =~= steps + drained);
                lemma_steps_only_finish_tasks(start, steps + drained);
            }

            if self.quiescent() {
                return RunOutcome::Quiescent;
            }
            if self.task_queue.is_empty() {
                // we have nothing to do here, we can advance simulation
                match self.reactor.next_wait() {
                    None => {
                        return RunOutcome::Deadlock;
                    },
                    Some(next) => {
                        if !self.reactor.can_advance(next.duration) {
                            return RunOutcome::ClockExhausted;
                        }
                        let ghost middle = self@;
                        let _ = self.reactor.advance_simulation(&mut self.task_queue);
                        let ghost advanced = Event::Advanced { entry: next };
                        self.history = Ghost(self.history@.push(advanced));
                        proof {
                            assert(middle.allows(advanced));
                            lemma_push_event(start, steps + drained, advanced);
                            assert(self.history@.skip(base.len() as int) =~= (steps
                                + drained).push(advanced));
                            assert(self@.tasks =~= middle.tasks);
                            assert(self@.wakers =~= middle.wakers);
                            assert(self@ =~= middle.after(advanced));
                        }
                    },
                }
            }
            turns = turns + 1;
        }
        proof {
            lemma_steps_only_finish_tasks(start, self.history@.skip(base.len() as int));
        }
        RunOutcome::OutOfTurns
    }
}

impl<C: Suspendable> Default for DeterministicExecutor<C> {
    fn default() -> (executor: DeterministicExecutor<C>)
        ensures
            executor.wf(),
            executor.is_quiescent(),
            executor.history() == Seq::<Event<C>>::empty(),
    {
        DeterministicExecutor::new()
    }
}

} // verus!
