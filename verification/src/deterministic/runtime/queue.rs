//! The ready queue: the identities of the tasks to poll, first in, first out,
//! in a ring buffer of fixed capacity.

use crate::deterministic::runtime::task::TaskId;
use crossbeam_queue::ArrayQueue;
use vstd::prelude::*;

verus! {

/// The largest capacity that a ready queue is made with.
pub const MAX_QUEUE_CAPACITY: usize = 0x4000_0000;

/// `crossbeam_queue::ArrayQueue`: a bounded queue in a ring buffer. The
/// executor owns its queue and shares it with nobody, so what the queue
/// holds changes only through calls made here.
#[verifier::external_type_specification]
#[verifier::external_body]
#[verifier::reject_recursive_types(T)]
pub struct ExArrayQueue<T>(ArrayQueue<T>);

/// What an `ArrayQueue` holds, oldest first.
pub uninterp spec fn array_queue_items(q: ArrayQueue<u64>) -> Seq<u64>;

/// The capacity that an `ArrayQueue` was made with.
pub uninterp spec fn array_queue_capacity(q: ArrayQueue<u64>) -> nat;

/// Calls `ArrayQueue::new`. Trusted: the queue is empty and has the capacity
/// asked for. The call panics on a capacity of zero or one whose next power
/// of two overflows, which the precondition leaves out.
#[verifier::external_body]
fn array_queue_new(capacity: usize) -> (q: ArrayQueue<u64>)
    requires
        0 < capacity <= MAX_QUEUE_CAPACITY,
    ensures
        array_queue_items(q) == Seq::<u64>::empty(),
        array_queue_capacity(q) == capacity,
{
    ArrayQueue::new(capacity)
}

/// Calls `ArrayQueue::push`. Trusted: a queue that is not full takes the
/// value at its end; a full queue is left as it was and hands the value back.
#[verifier::external_body]
fn array_queue_push(q: &mut ArrayQueue<u64>, value: u64) -> (pushed: Result<(), u64>)
    ensures
        array_queue_capacity(*final(q)) == array_queue_capacity(*old(q)),
        pushed is Ok <==> array_queue_items(*old(q)).len() < array_queue_capacity(*old(q)),
        pushed is Ok ==> array_queue_items(*final(q)) == array_queue_items(*old(q)).push(value),
        pushed is Err ==> array_queue_items(*final(q)) == array_queue_items(*old(q)),
        (pushed matches Err(back) ==> back == value),
{
    q.push(value)
}

/// Calls `ArrayQueue::pop`. Trusted: a queue that is not empty gives up its
/// oldest value; an empty queue gives `None` and stays empty.
#[verifier::external_body]
fn array_queue_pop(q: &mut ArrayQueue<u64>) -> (popped: Option<u64>)
    ensures
        array_queue_capacity(*final(q)) == array_queue_capacity(*old(q)),
        popped is Some <==> array_queue_items(*old(q)).len() > 0,
        (popped matches Some(value) ==> value == array_queue_items(*old(q)).first()),
        popped is Some ==> array_queue_items(*final(q)) == array_queue_items(*old(q)).drop_first(),
        popped is None ==> array_queue_items(*final(q)) == array_queue_items(*old(q)),
{
    q.pop()
}

/// Calls `ArrayQueue::is_empty`.
#[verifier::external_body]
fn array_queue_is_empty(q: &ArrayQueue<u64>) -> (empty: bool)
    ensures
        empty == (array_queue_items(*q).len() == 0),
{
    q.is_empty()
}

/// Calls `ArrayQueue::is_full`. Trusted: a queue is full when it holds as
/// many values as its capacity, and it never holds more.
#[verifier::external_body]
fn array_queue_is_full(q: &ArrayQueue<u64>) -> (full: bool)
    ensures
        full == (array_queue_items(*q).len() >= array_queue_capacity(*q)),
{
    q.is_full()
}

/// Calls `ArrayQueue::len`. Trusted: the number of values held, which never
/// exceeds the capacity.
#[verifier::external_body]
fn array_queue_len(q: &ArrayQueue<u64>) -> (len: usize)
    ensures
        len == array_queue_items(*q).len(),
        len <= array_queue_capacity(*q),
{
    q.len()
}

/// Calls `ArrayQueue::capacity`.
#[verifier::external_body]
fn array_queue_cap(q: &ArrayQueue<u64>) -> (capacity: usize)
    ensures
        capacity == array_queue_capacity(*q),
{
    q.capacity()
}

/// The identities of the tasks that wait to be polled, oldest first.
pub struct ReadyQueue {
    inner: ArrayQueue<u64>,
}

impl View for ReadyQueue {
    type V = Seq<TaskId>;

    closed spec fn view(&self) -> Seq<TaskId> {
        array_queue_items(self.inner).map_values(|raw: u64| TaskId::of(raw))
    }
}

impl ReadyQueue {
    /// The number of identities that the queue has room for.
    pub closed spec fn spec_capacity(&self) -> nat {
        array_queue_capacity(self.inner)
    }

    /// Whether the queue has no room left.
    pub open spec fn spec_is_full(&self) -> bool {
        self@.len() >= self.spec_capacity()
    }

    /// Creates an empty queue with room for `capacity` identities.
    pub fn new(capacity: usize) -> (queue: ReadyQueue)
        requires
            0 < capacity <= MAX_QUEUE_CAPACITY,
        ensures
            queue@ == Seq::<TaskId>::empty(),
            queue.spec_capacity() == capacity,
    {
        ReadyQueue { inner: array_queue_new(capacity) }
    }

    /// Appends `id`, or hands it back when the queue is full.
    pub fn push(&mut self, id: TaskId) -> (pushed: Result<(), TaskId>)
        ensures
            final(self).spec_capacity() == old(self).spec_capacity(),
            pushed is Ok <==> !old(self).spec_is_full(),
            pushed is Ok ==> final(self)@ == old(self)@.push(id),
            pushed is Err ==> final(self)@ == old(self)@ && pushed == Err::<(), TaskId>(id),
    {
        broadcast use {TaskId::raw_of_roundtrip, TaskId::of_raw_roundtrip};

        let pushed = array_queue_push(&mut self.inner, id.as_u64());
        match pushed {
            Ok(()) => Ok(()),
            Err(_) => Err(id),
        }
    }

    /// Takes the oldest identity out, if there is one.
    pub fn pop(&mut self) -> (popped: Option<TaskId>)
        ensures
            final(self).spec_capacity() == old(self).spec_capacity(),
            popped is Some <==> old(self)@.len() > 0,
            popped is Some ==> popped == Some(old(self)@.first()) && final(self)@ == old(
                self,
            )@.drop_first(),
            popped is None ==> final(self)@ == old(self)@,
    {
        let popped = array_queue_pop(&mut self.inner);
        match popped {
            Some(raw) => Some(TaskId::from_raw(raw)),
            None => None,
        }
    }

    /// Whether the queue holds nothing.
    pub fn is_empty(&self) -> (empty: bool)
        ensures
            empty == (self@.len() == 0),
    {
        array_queue_is_empty(&self.inner)
    }

    /// Whether the queue has no room left.
    pub fn is_full(&self) -> (full: bool)
        ensures
            full == self.spec_is_full(),
    {
        array_queue_is_full(&self.inner)
    }

    /// The number of identities held.
    pub fn len(&self) -> (len: usize)
        ensures
            len == self@.len(),
            len <= self.spec_capacity(),
    {
        array_queue_len(&self.inner)
    }

    /// The number of identities that the queue has room for.
    pub fn capacity(&self) -> (capacity: usize)
        ensures
            capacity == self.spec_capacity(),
    {
        array_queue_cap(&self.inner)
    }
}

} // verus!
