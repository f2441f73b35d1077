//! The bookkeeping of a cooperative executor: which tasks exist, and which of
//! them have been woken and wait to be polled, in order.
use crossbeam_queue::ArrayQueue;
use std::collections::BTreeMap;
use vstd::prelude::*;

verus! {

/// How many woken task ids the executor's queue can hold.
pub const TASK_QUEUE_CAPACITY: usize = 128;

#[verifier::external_type_specification]
#[verifier::external_body]
#[verifier::reject_recursive_types(T)]
pub struct ExArrayQueue<T>(ArrayQueue<T>);

/// The task ids a queue holds, oldest first.
pub uninterp spec fn task_queue_items(q: ArrayQueue<u64>) -> Seq<u64>;

/// The capacity a queue was made with.
pub uninterp spec fn task_queue_capacity(q: ArrayQueue<u64>) -> nat;

/// `ArrayQueue::new`: an empty queue of the given capacity. It panics for a
/// capacity of zero or one whose successor has no power of two in a `usize`,
/// which `requires` leaves out.
#[verifier::external_body]
fn task_queue_new(cap: usize) -> (r: ArrayQueue<u64>)
    requires
        0 < cap <= usize::MAX / 2,
    ensures
        task_queue_items(r) == Seq::<u64>::empty(),
        task_queue_capacity(r) == cap,
{
    ArrayQueue::new(cap)
}

/// `ArrayQueue::push`, on a queue no one else can reach: below capacity the id
/// joins the back and `Ok(())` comes back; a full queue is left as it was and
/// the id handed back in `Err`.
#[verifier::external_body]
fn task_queue_push(q: &mut ArrayQueue<u64>, id: u64) -> (r: Result<(), u64>)
    ensures
        task_queue_capacity(*final(q)) == task_queue_capacity(*old(q)),
        task_queue_items(*old(q)).len() < task_queue_capacity(*old(q)) ==> r is Ok,
        task_queue_items(*old(q)).len() < task_queue_capacity(*old(q)) ==> task_queue_items(
            *final(q),
        ) == task_queue_items(*old(q)).push(id),
        task_queue_items(*old(q)).len() >= task_queue_capacity(*old(q)) ==> (r matches Err(back)
            && back == id),
        task_queue_items(*old(q)).len() >= task_queue_capacity(*old(q)) ==> task_queue_items(
            *final(q),
        ) == task_queue_items(*old(q)),
{
    q.push(id)
}

/// `ArrayQueue::pop`, on a queue no one else can reach: the oldest id, removed,
/// or `None` from an empty queue.
#[verifier::external_body]
fn task_queue_pop(q: &mut ArrayQueue<u64>) -> (r: Option<u64>)
    ensures
        task_queue_capacity(*final(q)) == task_queue_capacity(*old(q)),
        task_queue_items(*old(q)).len() == 0 ==> r is None,
        task_queue_items(*old(q)).len() == 0 ==> task_queue_items(*final(q)) == task_queue_items(
            *old(q),
        ),
        task_queue_items(*old(q)).len() > 0 ==> r == Some(task_queue_items(*old(q))[0]),
        task_queue_items(*old(q)).len() > 0 ==> task_queue_items(*final(q)) == task_queue_items(
            *old(q),
        ).drop_first(),
{
    q.pop()
}

/// `ArrayQueue::is_full`: whether the queue holds as many ids as its capacity.
#[verifier::external_body]
fn task_queue_is_full(q: &ArrayQueue<u64>) -> (r: bool)
    ensures
        r == (task_queue_items(*q).len() == task_queue_capacity(*q)),
{
    q.is_full()
}

/// `ArrayQueue::is_empty`: whether the queue holds no id.
#[verifier::external_body]
fn task_queue_is_empty(q: &ArrayQueue<u64>) -> (r: bool)
    ensures
        r == (task_queue_items(*q).len() == 0),
{
    q.is_empty()
}

/// What the executor holds: its tasks by id, the woken ids in order, and how
/// many woken ids fit.
pub struct ExecutorState<T> {
    pub tasks: Map<u64, T>,
    pub queue: Seq<u64>,
    pub capacity: nat,
}

impl<T> ExecutorState<T> {
    /// What every executor keeps: room for 128 woken ids, and no more queued
    /// than that.
    pub open spec fn wf(self) -> bool {
        &&& self.capacity == TASK_QUEUE_CAPACITY
        &&& self.queue.len() <= self.capacity
    }
}

/// The index of the first queued id that still names a task, or the queue's
/// length when none does.
pub open spec fn first_live(queue: Seq<u64>, live: Set<u64>, k: int) -> int
    decreases queue.len() - k,
{
    if k >= queue.len() {
        queue.len() as int
    } else if live.contains(queue[k]) {
        k
    } else {
        first_live(queue, live, k + 1)
    }
}

proof fn lemma_first_live_bounds(queue: Seq<u64>, live: Set<u64>, k: int)
    requires
        0 <= k <= queue.len(),
    ensures
        k <= first_live(queue, live, k) <= queue.len(),
        first_live(queue, live, k) < queue.len() ==> live.contains(queue[first_live(queue, live, k)]),
    decreases queue.len() - k,
{
    if k < queue.len() {
        lemma_first_live_bounds(queue, live, k + 1);
    }
}

/// An asynchronous executor's task table and queue of woken tasks.
pub struct Executor<T> {
    tasks: BTreeMap<u64, T>,
    task_queue: ArrayQueue<u64>,
}

impl<T> View for Executor<T> {
    type V = ExecutorState<T>;

    closed spec fn view(&self) -> ExecutorState<T> {
        ExecutorState {
            tasks: self.tasks@,
            queue: task_queue_items(self.task_queue),
            capacity: task_queue_capacity(self.task_queue),
        }
    }
}

impl<T> Executor<T> {
    /// An executor with no tasks and room for 128 woken ids.
    pub fn new() -> (r: Self)
        ensures
            r@.tasks == Map::<u64, T>::empty(),
            r@.queue == Seq::<u64>::empty(),
            r@.capacity == TASK_QUEUE_CAPACITY,
            r@.wf(),
    {
        Executor { tasks: BTreeMap::new(), task_queue: task_queue_new(TASK_QUEUE_CAPACITY) }
    }

    /// Adds a task under a fresh id and queues it to be polled. The id must
    /// be new and the queue must have room.
    pub fn spawn(&mut self, id: u64, task: T)
        requires
            !old(self)@.tasks.contains_key(id),
            old(self)@.queue.len() < old(self)@.capacity,
        ensures
            final(self)@.tasks == old(self)@.tasks.insert(id, task),
            final(self)@.queue == old(self)@.queue.push(id),
            final(self)@.capacity == old(self)@.capacity,
            old(self)@.wf() ==> final(self)@.wf(),
    {
        broadcast use vstd::std_specs::btree::group_btree_axioms;
        let previous = self.tasks.insert(id, task);
        proof {
            assert(previous is None);
        }
        let pushed = task_queue_push(&mut self.task_queue, id);
        proof {
            assert(pushed is Ok);
        }
    }

    /// Whether a task with this id is in the table.
    pub fn has_task(&self, id: u64) -> (r: bool)
        ensures
            r == self@.tasks.contains_key(id),
    {
        broadcast use vstd::std_specs::btree::group_btree_axioms;
        self.tasks.contains_key(&id)
    }

    /// Returns true if the task pool is full.
    pub fn full(&self) -> (r: bool)
        ensures
            r == (self@.queue.len() == self@.capacity),
    {
        task_queue_is_full(&self.task_queue)
    }

    /// Whether no woken task waits to be polled.
    pub fn is_idle(&self) -> (r: bool)
        ensures
            r == (self@.queue.len() == 0),
    {
        task_queue_is_empty(&self.task_queue)
    }

    /// Queues a woken task to be polled. The queue must have room.
    pub fn wake(&mut self, id: u64)
        requires
            old(self)@.queue.len() < old(self)@.capacity,
        ensures
            final(self)@ == (ExecutorState { queue: old(self)@.queue.push(id), ..old(self)@ }),
            old(self)@.wf() ==> final(self)@.wf(),
    {
        let pushed = task_queue_push(&mut self.task_queue, id);
        proof {
            assert(pushed is Ok);
        }
    }

    /// Takes the next woken task to poll: ids of tasks that no longer exist are
    /// dropped from the front of the queue, and the first live one is removed
    /// from the queue and the task table and returned with its task.
    pub fn take_ready(&mut self) -> (r: Option<(u64, T)>)
        ensures
            ({
                let q = old(self)@.queue;
                let k = first_live(q, old(self)@.tasks.dom(), 0);
                &&& final(self)@.capacity == old(self)@.capacity
                &&& k == q.len() ==> r is None && final(self)@.queue == Seq::<u64>::empty()
                    && final(self)@.tasks == old(self)@.tasks
                &&& k < q.len() ==> r == Some((q[k], old(self)@.tasks[q[k]])) && final(self)@.queue
                    == q.skip(k + 1) && final(self)@.tasks == old(self)@.tasks.remove(q[k])
            }),
            old(self)@.wf() ==> final(self)@.wf(),
    {
        broadcast use vstd::std_specs::btree::group_btree_axioms;
        let ghost q = self@.queue;
        let ghost live = self@.tasks.dom();
        let ghost mut k: int = 0;
        proof {
            lemma_first_live_bounds(q, live, 0);
        }
        loop
            invariant
                self@.tasks == old(self)@.tasks,
                self@.capacity == old(self)@.capacity,
                q == old(self)@.queue,
                live == old(self)@.tasks.dom(),
                0 <= k <= q.len(),
                self@.queue == q.skip(k),
                first_live(q, live, 0) == first_live(q, live, k),
            decreases q.len() - k,
        {
            let popped = task_queue_pop(&mut self.task_queue);
            match popped {
                None => {
                    assert(k == q.len());
                    return None;
                },
                Some(id) => {
                    assert(q[k] == id);
                    let removed = self.tasks.remove(&id);
                    match removed {
                        Some(task) => {
                            proof {
                                assert(first_live(q, live, k) == k);
                                assert(q.skip(k).drop_first() =~= q.skip(k + 1));
                            }
                            return Some((id, task));
                        },
                        None => {
                            proof {
                                assert(q.skip(k).drop_first() =~= q.skip(k + 1));
                                k = k + 1;
                            }
                        },
                    }
                },
            }
        }
    }

    /// Puts a task that is not finished back into the table after a poll.
    pub fn put_back(&mut self, id: u64, task: T)
        requires
            !old(self)@.tasks.contains_key(id),
        ensures
            final(self)@ == (ExecutorState { tasks: old(self)@.tasks.insert(id, task), ..old(self)@ }),
            old(self)@.wf() ==> final(self)@.wf(),
    {
        broadcast use vstd::std_specs::btree::group_btree_axioms;
        let previous = self.tasks.insert(id, task);
        proof {
            assert(previous is None);
        }
    }
}

/// A task spawned while no woken id names a live task is the next task taken
/// to be polled.
pub proof fn lemma_spawned_task_is_taken_next<T>(s: ExecutorState<T>, id: u64, task: T)
    requires
        !s.tasks.contains_key(id),
        first_live(s.queue, s.tasks.dom(), 0) == s.queue.len(),
    ensures
        ({
            let q = s.queue.push(id);
            let tasks = s.tasks.insert(id, task);
            let k = first_live(q, tasks.dom(), 0);
            &&& k < q.len()
            &&& q[k] == id
            &&& tasks[q[k]] == task
        }),
{
    let q = s.queue.push(id);
    let tasks = s.tasks.insert(id, task);
    lemma_first_live_push(s.queue, s.tasks.dom(), id, 0);
    lemma_first_live_bounds(q, tasks.dom(), 0);
}

proof fn lemma_first_live_push(queue: Seq<u64>, live: Set<u64>, id: u64, k: int)
    requires
        0 <= k <= queue.len(),
        first_live(queue, live, k) == queue.len(),
    ensures
        first_live(queue.push(id), live.insert(id), k) <= queue.len(),
        queue.push(id)[first_live(queue.push(id), live.insert(id), k)] == id,
    decreases queue.len() - k,
{
    let q = queue.push(id);
    if k < queue.len() {
        assert(q[k] == queue[k]);
        if q[k] != id {
            lemma_first_live_push(queue, live, id, k + 1);
        }
    }
}

/// Putting back a task just taken restores the task table.
pub proof fn lemma_put_back_restores<T>(tasks: Map<u64, T>, id: u64)
    requires
        tasks.contains_key(id),
    ensures
        tasks.remove(id).insert(id, tasks[id]) == tasks,
{
    assert(tasks.remove(id).insert(id, tasks[id]) =~= tasks);
}

} // verus!
