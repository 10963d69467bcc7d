//! Task module.

use crate::deterministic::runtime::executor::TaskWaker;
use crate::deterministic::runtime::reactor::DeterministicReactor;
use vstd::prelude::*;

verus! {

/// The identity of a task. Identities are handed out in increasing order.
#[derive(Debug, Clone, Copy, PartialEq, Eq, Structural, PartialOrd, Ord, Hash)]
pub struct TaskId(u64);

impl TaskId {
    /// The number that stands behind the identity.
    pub closed spec fn raw(self) -> u64 {
        self.0
    }

    /// The identity that stands for `raw`.
    pub closed spec fn of(raw: u64) -> TaskId {
        TaskId(raw)
    }

    /// An identity is its number and nothing else.
    pub broadcast proof fn raw_of_roundtrip(raw: u64)
        ensures
            #[trigger] TaskId::of(raw).raw() == raw,
    {
    }

    /// Two identities with the same number are the same identity.
    pub broadcast proof fn of_raw_roundtrip(id: TaskId)
        ensures
            #[trigger] TaskId::of(id.raw()) == id,
    {
    }

    /// Takes the next identity from `counter`, which then holds the one after
    /// it. The counter wraps around after `u64::MAX`.
    pub fn new(counter: &mut u64) -> (id: TaskId)
        ensures
            id.raw() == *old(counter),
            *final(counter) == if *old(counter) == u64::MAX {
                0
            } else {
                *old(counter) + 1
            },
    {
        let raw: u64 = *counter;
        *counter = if raw == u64::MAX {
            0
        } else {
            raw + 1
        };
        TaskId(raw)
    }

    /// The identity that stands for `raw`.
    pub fn from_raw(raw: u64) -> (id: TaskId)
        ensures
            id == TaskId::of(raw),
    {
        TaskId(raw)
    }

    /// The number that stands behind the identity.
    pub fn as_u64(&self) -> (raw: u64)
        ensures
            raw == self.raw(),
    {
        self.0
    }
}

/// What a poll of a suspendable computation reports.
#[derive(Debug, Clone, Copy, PartialEq, Eq, Structural)]
pub enum Poll {
    /// The computation has run to its end.
    Ready,
    /// The computation is suspended and has arranged to be woken.
    Pending,
}

/// A computation that runs up to its next suspension point each time it is
/// polled.
///
/// While it is polled, a computation reaches the simulation through
/// `reactor`: it may read the virtual clock and register waits, which is the
/// only way to suspend. It does not move the clock, and it leaves the waits
/// that are already pending alone. What else a poll does, and how it leaves
/// the computation, is for the computation to say in `polls`.
pub trait Suspendable {
    /// Whether a poll of the computation as it stands, with `waker` and on a
    /// reactor that is as `before`, can report `poll`, leave the reactor as
    /// `after` and leave the computation as `then`. A computation that says
    /// nothing of its polls allows any.
    open spec fn polls(
        &self,
        then: &Self,
        waker: TaskWaker,
        before: DeterministicReactor,
        after: DeterministicReactor,
        poll: Poll,
    ) -> bool {
        true
    }

    /// Runs the computation up to its next suspension point. `waker` is the
    /// waker of the task that the computation runs in.
    fn poll(&mut self, waker: &TaskWaker, reactor: &mut DeterministicReactor) -> (poll: Poll)
        ensures
            final(reactor).clock() == old(reactor).clock(),
            old(reactor).pending().is_prefix_of(final(reactor).pending()),
            old(self).polls(final(self), *waker, *old(reactor), *final(reactor), poll),
    ;
}

/// A task: a suspendable computation under an identity.
pub struct Task<C: Suspendable> {
    id: TaskId,
    future: C,
}

impl<C: Suspendable> Task<C> {
    /// The identity of the task.
    pub closed spec fn task_id(&self) -> TaskId {
        self.id
    }

    /// The computation of the task, as it stands.
    pub closed spec fn computation(&self) -> C {
        self.future
    }

    /// Creates a new task around `future`, under the next identity of
    /// `counter`. The computation is stored as it is given; nothing of it
    /// runs before the first poll.
    pub fn new(counter: &mut u64, future: C) -> (task: Task<C>)
        ensures
            task.task_id().raw() == *old(counter),
            task.computation() == future,
            *final(counter) == if *old(counter) == u64::MAX {
                0
            } else {
                *old(counter) + 1
            },
    {
        Task { id: TaskId::new(counter), future }
    }

    /// The identity of the task.
    pub fn id(&self) -> (id: TaskId)
        ensures
            id == self.task_id(),
    {
        self.id
    }

    /// Whether a poll of the task as it stands, with `waker` and on a
    /// reactor that is as `before`, can report `poll`, leave the reactor as
    /// `after` and leave the task as `then`: the task keeps its identity, and
    /// the poll is one that its computation allows.
    pub open spec fn polls(
        &self,
        then: &Task<C>,
        waker: TaskWaker,
        before: DeterministicReactor,
        after: DeterministicReactor,
        poll: Poll,
    ) -> bool {
        &&& then.task_id() == self.task_id()
        &&& self.computation().polls(&then.computation(), waker, before, after, poll)
    }

    /// Polls the computation of the task: the task keeps its identity, and
    /// the poll reports and does what the computation, as it stood, allows.
    pub fn poll(&mut self, waker: &TaskWaker, reactor: &mut DeterministicReactor) -> (poll: Poll)
        ensures
            final(self).task_id() == old(self).task_id(),
            final(reactor).clock() == old(reactor).clock(),
            old(reactor).pending().is_prefix_of(final(reactor).pending()),
            old(self).polls(final(self), *waker, *old(reactor), *final(reactor), poll),
    {
        self.future.poll(waker, reactor)
    }
}

} // verus!
