use vstd::prelude::*;

use queues::IsQueue;

use crate::value::{RstbResult, Val};

verus! {

#[verifier::external_type_specification]
#[verifier::external_body]
#[verifier::reject_recursive_types(T)]
pub struct ExQueue<T: Clone>(queues::Queue<T>);

/// What the ready queue holds, front first.
pub uninterp spec fn queue_view(q: queues::Queue<u64>) -> Seq<u64>;

/// Relies on queues' Queue::new: the new queue is empty.
#[verifier::external_body]
fn queue_new() -> (q: queues::Queue<u64>)
    ensures
        queue_view(q).len() == 0,
{
    queues::Queue::new()
}

/// Relies on queues' Queue::add: appends the element at the back and
/// always returns Ok(None) for this unbounded queue.
#[verifier::external_body]
fn queue_push(q: &mut queues::Queue<u64>, v: u64)
    ensures
        queue_view(*final(q)) == queue_view(*old(q)).push(v),
{
    let _ = q.add(v);
}

/// Relies on queues' Queue::remove: takes the front element out; fails
/// exactly when the queue is empty.
#[verifier::external_body]
fn queue_pop(q: &mut queues::Queue<u64>) -> (r: Option<u64>)
    ensures
        match r {
            Some(v) => queue_view(*old(q)).len() > 0 && v == queue_view(*old(q))[0] && queue_view(
                *final(q),
            ) == queue_view(*old(q)).drop_first(),
            None => queue_view(*old(q)).len() == 0 && queue_view(*final(q)) == queue_view(*old(q)),
        },
{
    q.remove().ok()
}

/// Relies on queues' Queue::size: the number of queued elements.
#[verifier::external_body]
fn queue_len(q: &queues::Queue<u64>) -> (n: usize)
    ensures
        n == queue_view(*q).len(),
{
    q.size()
}

/// The body of a task: a user coroutine, or one of the state machines the
/// library itself schedules — the per-test clock driver, an assertion's
/// run loop, its history sampler, a spawned checker, the chain that runs
/// the declared tests back-to-back, and the wrapper that records a test
/// body's result.
pub enum TaskBody<C> {
    User(C),
    Clock(crate::testbench::ClockState),
    Runner(crate::assertion::RunnerState),
    Sampler(crate::assertion::SamplerState),
    Checker(crate::assertion::CheckerState<C>),
    Chain(crate::test::ChainState),
    TestBody(crate::test::TestBodyState<C>),
}

/// Scheduling state of a task: a cancelled task is discarded, not polled,
/// at its next dequeue.
#[derive(Clone, Copy, Debug, PartialEq, Eq, Structural)]
pub enum TaskState {
    Pending,
    Cancelled,
}

/// One task: a suspended or runnable coroutine body together with its
/// scheduling state and its single-shot result channel.
pub struct Task<T> {
    state: TaskState,
    body: Option<T>,
    result: Option<RstbResult>,
    finished: bool,
    joiner: Option<u64>,
}

impl<T> Task<T> {
    pub closed spec fn spec_state(self) -> TaskState {
        self.state
    }

    pub closed spec fn spec_body(self) -> Option<T> {
        self.body
    }

    pub closed spec fn spec_result(self) -> Option<RstbResult> {
        self.result
    }

    /// Whether a result has ever been delivered on the channel.
    pub closed spec fn spec_finished(self) -> bool {
        self.finished
    }

    pub closed spec fn spec_joiner(self) -> Option<u64> {
        self.joiner
    }
}

/// Awaitable handle to a task's eventual result and its cancellation
/// capability.
#[derive(Debug)]
pub struct JoinHandle {
    task: u64,
}

impl JoinHandle {
    pub closed spec fn spec_task(self) -> u64 {
        self.task
    }

    /// The identifier of the task this handle joins on.
    pub fn task_id(&self) -> (r: u64)
        ensures
            r == self.spec_task(),
    {
        self.task
    }
}

impl JoinHandle {
    /// Cancel the task behind this handle; see `Executor::cancel`.
    pub fn cancel<T>(self, exec: &mut Executor<T>)
        ensures
            final(exec).tasks_seq().len() == old(exec).tasks_seq().len(),
            old(exec).task_valid(self.spec_task()) && old(exec).task_at(
                self.spec_task(),
            ).spec_state() != TaskState::Cancelled ==> final(exec).task_at(
                self.spec_task(),
            ).spec_state() == TaskState::Cancelled,
    {
        exec.cancel(self.task);
    }
}

/// One poll of a join: the target's result, or not yet.
pub enum JoinPoll {
    Pending,
    Ready(RstbResult),
}

/// The cooperative executor: a first-in first-out ready queue of task
/// identifiers and the table of tasks.
pub struct Executor<T> {
    ready: queues::Queue<u64>,
    tasks: Vec<Task<T>>,
}

impl<T> Executor<T> {
    /// The ready queue, front first.
    pub closed spec fn ready_seq(self) -> Seq<u64> {
        queue_view(self.ready)
    }

    /// The task table; a task's identifier is its position.
    pub closed spec fn tasks_seq(self) -> Seq<Task<T>> {
        self.tasks@
    }

    pub open spec fn task_valid(self, tid: u64) -> bool {
        tid < self.tasks_seq().len()
    }

    pub open spec fn task_at(self, tid: u64) -> Task<T>
        recommends
            self.task_valid(tid),
    {
        self.tasks_seq()[tid as int]
    }

    pub fn new() -> (r: Self)
        ensures
            r.ready_seq().len() == 0,
            r.tasks_seq().len() == 0,
    {
        Executor { ready: queue_new(), tasks: Vec::new() }
    }

    /// How many tasks were ever spawned.
    pub fn task_count(&self) -> (r: usize)
        ensures
            r == self.tasks_seq().len(),
    {
        self.tasks.len()
    }

    /// How many entries the ready queue holds.
    pub fn ready_len(&self) -> (r: usize)
        ensures
            r == self.ready_seq().len(),
    {
        queue_len(&self.ready)
    }

    /// Create a task around `body`, enqueue it, and hand back its join
    /// handle.
    pub fn spawn(&mut self, body: T) -> (h: JoinHandle)
        ensures
            h.spec_task() == old(self).tasks_seq().len(),
            final(self).tasks_seq().len() == old(self).tasks_seq().len() + 1,
            forall|i: int|
                0 <= i < old(self).tasks_seq().len() ==> final(self).tasks_seq()[i] == old(self).tasks_seq()[i],
            final(self).task_at(h.spec_task()).spec_state() == TaskState::Pending,
            final(self).task_at(h.spec_task()).spec_body() == Some(body),
            final(self).task_at(h.spec_task()).spec_result() is None,
            !final(self).task_at(h.spec_task()).spec_finished(),
            final(self).task_at(h.spec_task()).spec_joiner() is None,
            final(self).ready_seq() == old(self).ready_seq().push(h.spec_task()),
    {
        let tid = self.tasks.len() as u64;
        self.tasks.push(
            Task {
                state: TaskState::Pending,
                body: Some(body),
                result: None,
                finished: false,
                joiner: None,
            },
        );
        queue_push(&mut self.ready, tid);
        JoinHandle { task: tid }
    }

    /// Re-enqueue a task: the waker's whole effect.
    pub fn schedule(&mut self, tid: u64)
        ensures
            final(self).ready_seq() == old(self).ready_seq().push(tid),
            final(self).tasks_seq() == old(self).tasks_seq(),
    {
        queue_push(&mut self.ready, tid);
    }

    /// Dequeue the front entry of the ready queue, if any.
    pub fn pop_ready(&mut self) -> (r: Option<u64>)
        ensures
            final(self).tasks_seq() == old(self).tasks_seq(),
            match r {
                Some(tid) => old(self).ready_seq().len() > 0 && tid == old(self).ready_seq()[0]
                    && final(self).ready_seq() == old(self).ready_seq().drop_first(),
                None => old(self).ready_seq().len() == 0 && final(self).ready_seq() == old(self).ready_seq(),
            },
    {
        queue_pop(&mut self.ready)
    }

    /// Discard every pending entry; used at test teardown.
    pub fn clear_ready_queue(&mut self)
        ensures
            final(self).ready_seq().len() == 0,
            final(self).tasks_seq() == old(self).tasks_seq(),
    {
        self.ready = queue_new();
    }

    /// Whether the task is cancelled; an unknown identifier counts as
    /// cancelled, so that it is discarded rather than polled.
    pub fn is_cancelled(&self, tid: u64) -> (r: bool)
        ensures
            r == if self.task_valid(tid) {
                self.task_at(tid).spec_state() == TaskState::Cancelled
            } else {
                true
            },
    {
        let i = tid as usize;
        if i < self.tasks.len() && tid < usize::MAX as u64 {
            self.tasks[i].state == TaskState::Cancelled
        } else {
            true
        }
    }

    /// Take the task's coroutine body out for one poll.
    pub fn take_body(&mut self, tid: u64) -> (r: Option<T>)
        ensures
            final(self).ready_seq() == old(self).ready_seq(),
            final(self).tasks_seq().len() == old(self).tasks_seq().len(),
            r == if old(self).task_valid(tid) {
                old(self).task_at(tid).spec_body()
            } else {
                None::<T>
            },
            old(self).task_valid(tid) ==> {
                &&& final(self).task_at(tid).spec_body() is None
                &&& final(self).task_at(tid).spec_state() == old(self).task_at(tid).spec_state()
                &&& final(self).task_at(tid).spec_result() == old(self).task_at(tid).spec_result()
                &&& final(self).task_at(tid).spec_finished() == old(self).task_at(tid).spec_finished()
                &&& final(self).task_at(tid).spec_joiner() == old(self).task_at(tid).spec_joiner()
            },
            forall|i: int|
                0 <= i < old(self).tasks_seq().len() && i != tid as int ==> final(self).tasks_seq()[i] == old(self).tasks_seq()[i],
    {
        let i = tid as usize;
        if i < self.tasks.len() && tid < usize::MAX as u64 {
            self.tasks[i].body.take()
        } else {
            None
        }
    }

    /// Store a still-pending coroutine body back in its task.
    pub fn put_body(&mut self, tid: u64, body: T)
        ensures
            final(self).ready_seq() == old(self).ready_seq(),
            final(self).tasks_seq().len() == old(self).tasks_seq().len(),
            old(self).task_valid(tid) ==> {
                &&& final(self).task_at(tid).spec_body() == Some(body)
                &&& final(self).task_at(tid).spec_state() == old(self).task_at(tid).spec_state()
                &&& final(self).task_at(tid).spec_result() == old(self).task_at(tid).spec_result()
                &&& final(self).task_at(tid).spec_finished() == old(self).task_at(tid).spec_finished()
                &&& final(self).task_at(tid).spec_joiner() == old(self).task_at(tid).spec_joiner()
            },
            forall|i: int|
                0 <= i < old(self).tasks_seq().len() && i != tid as int ==> final(self).tasks_seq()[i] == old(self).tasks_seq()[i],
    {
        let i = tid as usize;
        if i < self.tasks.len() && tid < usize::MAX as u64 {
            self.tasks[i].body = Some(body);
        }
    }

    /// Deliver a finished task's result on its single-shot channel and wake
    /// its joiner. A second delivery is ignored: the channel is gone.
    pub fn deliver(&mut self, tid: u64, res: RstbResult)
        ensures
            final(self).tasks_seq().len() == old(self).tasks_seq().len(),
            forall|i: int|
                0 <= i < old(self).tasks_seq().len() && i != tid as int ==> final(self).tasks_seq()[i] == old(self).tasks_seq()[i],
            !old(self).task_valid(tid) ==> final(self).ready_seq() == old(self).ready_seq(),
            old(self).task_valid(tid) && old(self).task_at(tid).spec_finished() ==> {
                &&& final(self).tasks_seq() == old(self).tasks_seq()
                &&& final(self).ready_seq() == old(self).ready_seq()
            },
            old(self).task_valid(tid) && !old(self).task_at(tid).spec_finished() ==> {
                &&& final(self).task_at(tid).spec_result() == Some(res)
                &&& final(self).task_at(tid).spec_finished()
                &&& final(self).task_at(tid).spec_joiner() is None
                &&& final(self).task_at(tid).spec_state() == old(self).task_at(tid).spec_state()
                &&& final(self).task_at(tid).spec_body() == old(self).task_at(tid).spec_body()
                &&& final(self).ready_seq() == (match old(self).task_at(tid).spec_joiner() {
                    Some(j) => old(self).ready_seq().push(j),
                    None => old(self).ready_seq(),
                })
            },
    {
        let i = tid as usize;
        if i < self.tasks.len() && tid < usize::MAX as u64 {
            if !self.tasks[i].finished {
                self.tasks[i].result = Some(res);
                self.tasks[i].finished = true;
                let joiner = self.tasks[i].joiner.take();
                if let Some(j) = joiner {
                    queue_push(&mut self.ready, j);
                }
            }
        }
    }

    /// Cancel a task: it is discarded at its next dequeue, and the channel
    /// resolves with a neutral value so a joiner unblocks. Cancelling a
    /// cancelled task changes nothing.
    pub fn cancel(&mut self, tid: u64)
        ensures
            final(self).tasks_seq().len() == old(self).tasks_seq().len(),
            forall|i: int|
                0 <= i < old(self).tasks_seq().len() && i != tid as int ==> final(self).tasks_seq()[i] == old(self).tasks_seq()[i],
            !old(self).task_valid(tid) ==> *final(self) == *old(self),
            old(self).task_valid(tid) && old(self).task_at(tid).spec_state()
                == TaskState::Cancelled ==> *final(self) == *old(self),
            old(self).task_valid(tid) && old(self).task_at(tid).spec_state() != TaskState::Cancelled
                ==> {
                &&& final(self).task_at(tid).spec_state() == TaskState::Cancelled
                &&& final(self).task_at(tid).spec_body() == old(self).task_at(tid).spec_body()
                &&& final(self).task_at(tid).spec_finished()
                &&& final(self).task_at(tid).spec_joiner() is None
                &&& final(self).task_at(tid).spec_result() == if old(self).task_at(tid).spec_finished() {
                    old(self).task_at(tid).spec_result()
                } else {
                    Some(Result::<Val, Val>::Ok(Val::Empty))
                }
                &&& final(self).ready_seq() == (match old(self).task_at(tid).spec_joiner() {
                    Some(j) => old(self).ready_seq().push(j),
                    None => old(self).ready_seq(),
                })
            },
    {
        let i = tid as usize;
        if i < self.tasks.len() && tid < usize::MAX as u64 {
            if self.tasks[i].state != TaskState::Cancelled {
                self.tasks[i].state = TaskState::Cancelled;
                if !self.tasks[i].finished {
                    self.tasks[i].result = Some(Ok(Val::Empty));
                    self.tasks[i].finished = true;
                }
                let joiner = self.tasks[i].joiner.take();
                if let Some(j) = joiner {
                    queue_push(&mut self.ready, j);
                }
            }
        }
    }

    /// One poll of a join handle by task `waiter`: hand the result over if
    /// it was delivered, else record the waiter so delivery wakes it.
    ///
    /// A join polled again after its result was handed over resolves with
    /// the neutral value.
    pub fn poll_join(&mut self, waiter: u64, target: u64) -> (r: JoinPoll)
        ensures
            final(self).tasks_seq().len() == old(self).tasks_seq().len(),
            final(self).ready_seq() == old(self).ready_seq(),
            forall|i: int|
                0 <= i < old(self).tasks_seq().len() && i != target as int ==> final(self).tasks_seq()[i] == old(self).tasks_seq()[i],
            !old(self).task_valid(target) ==> *final(self) == *old(self) && (r is Pending),
            old(self).task_valid(target) ==> match old(self).task_at(target).spec_result() {
                Some(res) => {
                    &&& matches!(r, JoinPoll::Ready(_))
                    &&& (r matches JoinPoll::Ready(v) ==> v == res)
                    &&& final(self).task_at(target).spec_result() is None
                    &&& final(self).task_at(target).spec_finished() == old(self).task_at(target).spec_finished()
                    &&& final(self).task_at(target).spec_state() == old(self).task_at(target).spec_state()
                    &&& final(self).task_at(target).spec_body() == old(self).task_at(target).spec_body()
                },
                None => {
                    if old(self).task_at(target).spec_finished() {
                        &&& (r matches JoinPoll::Ready(v) ==> v == Result::<Val, Val>::Ok(
                            Val::Empty,
                        ))
                        &&& matches!(r, JoinPoll::Ready(_))
                        &&& *final(self) == *old(self)
                    } else {
                        &&& r is Pending
                        &&& final(self).task_at(target).spec_joiner() == Some(waiter)
                        &&& final(self).task_at(target).spec_result() is None
                        &&& final(self).task_at(target).spec_state() == old(self).task_at(target).spec_state()
                        &&& final(self).task_at(target).spec_body() == old(self).task_at(target).spec_body()
                        &&& final(self).task_at(target).spec_finished() == old(self).task_at(target).spec_finished()
                    }
                },
            },
    {
        let i = target as usize;
        if i < self.tasks.len() && target < usize::MAX as u64 {
            if self.tasks[i].result.is_some() {
                let res = self.tasks[i].result.take();
                match res {
                    Some(v) => JoinPoll::Ready(v),
                    None => JoinPoll::Ready(Ok(Val::Empty)),
                }
            } else if self.tasks[i].finished {
                JoinPoll::Ready(Ok(Val::Empty))
            } else {
                self.tasks[i].joiner = Some(waiter);
                JoinPoll::Pending
            }
        } else {
            JoinPoll::Pending
        }
    }
}

} // verus!
