//! A fixed-size worker pool with one shared FIFO queue and a graceful
//! shutdown protocol.
//!
//! The pool owns a fixed number of workers, all consuming from a single
//! queue of control messages. A submitted task becomes a [`Message::Run`]
//! on the queue; disposal enqueues one [`Message::Shutdown`] per worker and
//! then waits until every worker has stopped. Because the queue is FIFO and
//! each message is consumed by exactly one worker, every task submitted
//! before disposal runs before disposal returns, and no task is ever run
//! twice.
//!
//! Tasks are identified here by a number chosen by the submitter; running a
//! task appends its identifier to the record of executed tasks. A caller
//! that wants real work done keeps the callables on its own side, keyed by
//! these identifiers, and performs each one as the pool records it.

use vstd::prelude::*;

verus! {

/// A control message on the shared queue: either a task to run, or an
/// instruction to the receiving worker to terminate.
#[derive(Clone, Copy, Debug)]
pub enum Message {
    Run(u64),
    Shutdown,
}

/// What a worker is doing: waiting on the queue, or terminated. (While a
/// worker runs a task it holds the task alone; a step of the model covers
/// the whole receive-execute round, so no third state is observable.)
#[derive(Clone, Copy, Debug, PartialEq, Eq, Structural)]
pub enum WorkerState {
    Waiting,
    Stopped,
}

/// A worker: a small integer identity and its current state.
#[derive(Clone, Copy, Debug)]
struct Worker {
    id: usize,
    state: WorkerState,
}

/// Why a pool operation failed.
#[derive(Clone, Copy, Debug, PartialEq, Eq, Structural)]
pub enum PoolError {
    /// A pool must have at least one worker.
    ZeroWorkers,
    /// The pool was already disposed, so no worker could ever pick the
    /// submission up.
    Disposed,
}

/// The identifiers of the `Run` messages in a queue, in queue order.
pub open spec fn pending_tasks(q: Seq<Message>) -> Seq<u64>
    decreases q.len(),
{
    if q.len() == 0 {
        Seq::empty()
    } else {
        match q[0] {
            Message::Run(t) => seq![t] + pending_tasks(q.drop_first()),
            Message::Shutdown => pending_tasks(q.drop_first()),
        }
    }
}

/// Holds when every message in the queue carries a task.
pub open spec fn all_runs(q: Seq<Message>) -> bool {
    forall|i: int| 0 <= i < q.len() ==> q[i] is Run
}

/// Holds when every worker is waiting on the queue.
pub open spec fn all_waiting(ws: Seq<WorkerState>) -> bool {
    forall|i: int| 0 <= i < ws.len() ==> ws[i] is Waiting
}

/// Holds when every worker has terminated.
pub open spec fn all_stopped(ws: Seq<WorkerState>) -> bool {
    forall|i: int| 0 <= i < ws.len() ==> ws[i] is Stopped
}

/// How many workers are waiting on the queue.
pub open spec fn count_waiting(ws: Seq<WorkerState>) -> nat
    decreases ws.len(),
{
    if ws.len() == 0 {
        0
    } else {
        (if ws[0] is Waiting {
            1nat
        } else {
            0nat
        }) + count_waiting(ws.drop_first())
    }
}

/// The queue after a sequence of submissions, each appending one `Run`.
pub open spec fn submit_all(q: Seq<Message>, tasks: Seq<u64>) -> Seq<Message>
    decreases tasks.len(),
{
    if tasks.len() == 0 {
        q
    } else {
        submit_all(q.push(Message::Run(tasks[0])), tasks.drop_first())
    }
}

/// Appending a task message appends its identifier to the pending tasks;
/// appending a shutdown leaves them unchanged.
proof fn lemma_pending_push(q: Seq<Message>, m: Message)
    ensures
        m is Run ==> pending_tasks(q.push(m)) =~= pending_tasks(q).push(m->Run_0),
        m is Shutdown ==> pending_tasks(q.push(m)) =~= pending_tasks(q),
    decreases q.len(),
{
    if q.len() == 0 {
        assert(q.push(m).drop_first() =~= Seq::<Message>::empty());
        assert(q.push(m)[0] == m);
        if m is Run {
            assert(seq![m->Run_0] + pending_tasks(Seq::<Message>::empty())
                =~= pending_tasks(q).push(m->Run_0));
        }
    } else {
        assert(q.push(m).drop_first() =~= q.drop_first().push(m));
        assert(q.push(m)[0] == q[0]);
        lemma_pending_push(q.drop_first(), m);
        if m is Run {
            match q[0] {
                Message::Run(t0) => {
                    assert(seq![t0] + pending_tasks(q.drop_first()).push(m->Run_0)
                        =~= (seq![t0] + pending_tasks(q.drop_first())).push(m->Run_0));
                },
                Message::Shutdown => {
                },
            }
        }
    }
}

/// In a queue of task messages alone, the pending tasks are the payloads,
/// in order.
proof fn lemma_pending_all_runs(q: Seq<Message>)
    requires
        all_runs(q),
    ensures
        pending_tasks(q).len() == q.len(),
        forall|i: int| 0 <= i < q.len() ==> pending_tasks(q)[i] == q[i]->Run_0,
    decreases q.len(),
{
    if q.len() > 0 {
        assert(all_runs(q.drop_first())) by {
            assert(forall|i: int|
                0 <= i < q.drop_first().len() ==> q.drop_first()[i] == q[i + 1]);
        }
        lemma_pending_all_runs(q.drop_first());
    }
}

/// When every worker waits, the waiting count is the worker count.
proof fn lemma_count_waiting_all(ws: Seq<WorkerState>)
    requires
        all_waiting(ws),
    ensures
        count_waiting(ws) == ws.len(),
    decreases ws.len(),
{
    if ws.len() > 0 {
        lemma_count_waiting_all(ws.drop_first());
    }
}

/// When no worker waits, every worker has stopped.
proof fn lemma_count_waiting_zero(ws: Seq<WorkerState>)
    requires
        count_waiting(ws) == 0,
    ensures
        all_stopped(ws),
    decreases ws.len(),
{
    if ws.len() > 0 {
        lemma_count_waiting_zero(ws.drop_first());
        assert(forall|i: int| 1 <= i < ws.len() ==> ws[i] == ws.drop_first()[i - 1]);
    }
}

/// A positive waiting count names a waiting worker.
proof fn lemma_count_waiting_pos(ws: Seq<WorkerState>)
    requires
        count_waiting(ws) > 0,
    ensures
        exists|i: int| 0 <= i < ws.len() && ws[i] is Waiting,
    decreases ws.len(),
{
    if ws.len() > 0 {
        if ws[0] is Waiting {
            assert(0 <= 0 < ws.len() && ws[0] is Waiting);
        } else {
            lemma_count_waiting_pos(ws.drop_first());
            let j = choose|j: int|
                0 <= j < ws.drop_first().len() && ws.drop_first()[j] is Waiting;
            assert(ws[j + 1] is Waiting);
        }
    }
}

/// Stopping a waiting worker lowers the waiting count by one.
proof fn lemma_count_waiting_update_stop(ws: Seq<WorkerState>, w: int)
    requires
        0 <= w < ws.len(),
        ws[w] is Waiting,
    ensures
        count_waiting(ws.update(w, WorkerState::Stopped)) + 1 == count_waiting(ws),
    decreases ws.len(),
{
    let ws2 = ws.update(w, WorkerState::Stopped);
    if w == 0 {
        assert(ws2.drop_first() =~= ws.drop_first());
    } else {
        assert(ws2.drop_first() =~= ws.drop_first().update(w - 1, WorkerState::Stopped));
        lemma_count_waiting_update_stop(ws.drop_first(), w - 1);
    }
}

/// Submitting a sequence of tasks appends exactly those tasks to the
/// pending ones.
proof fn lemma_submit_all_pending(q: Seq<Message>, tasks: Seq<u64>)
    ensures
        pending_tasks(submit_all(q, tasks)) =~= pending_tasks(q) + tasks,
    decreases tasks.len(),
{
    if tasks.len() == 0 {
        assert(pending_tasks(q) + tasks =~= pending_tasks(q));
    } else {
        let q2 = q.push(Message::Run(tasks[0]));
        lemma_pending_push(q, Message::Run(tasks[0]));
        lemma_submit_all_pending(q2, tasks.drop_first());
        assert(pending_tasks(q).push(tasks[0]) + tasks.drop_first() =~= pending_tasks(q)
            + tasks);
    }
}

/// The worker pool: a fixed set of workers, the shared queue they consume
/// from, and the record of the tasks run so far.
pub struct ThreadPool {
    queue: Vec<Message>,
    workers: Vec<Worker>,
    executed: Vec<u64>,
    disposed: bool,
}

impl ThreadPool {
    /// The shared queue, oldest message first.
    pub closed spec fn queue_spec(&self) -> Seq<Message> {
        self.queue@
    }

    /// The state of each worker, by worker identity.
    pub closed spec fn worker_states(&self) -> Seq<WorkerState> {
        self.workers@.map_values(|w: Worker| w.state)
    }

    /// The identifiers of the tasks run so far, in the order they ran.
    pub closed spec fn executed_spec(&self) -> Seq<u64> {
        self.executed@
    }

    /// Whether the pool has been disposed.
    pub closed spec fn spec_disposed(&self) -> bool {
        self.disposed
    }

    /// Each worker's identity is its index in the pool.
    pub closed spec fn wf(&self) -> bool {
        forall|i: int| 0 <= i < self.workers@.len() ==> (#[trigger] self.workers@[i]).id == i
    }

    /// What holds of every pool a caller can own: at least one worker, and
    /// either the pool is live, with every worker waiting and only tasks on
    /// the queue, or it is disposed, with every worker stopped and the queue
    /// empty.
    pub open spec fn inv(&self) -> bool {
        &&& self.wf()
        &&& self.worker_states().len() >= 1
        &&& if self.spec_disposed() {
            self.queue_spec().len() == 0 && all_stopped(self.worker_states())
        } else {
            all_waiting(self.worker_states()) && all_runs(self.queue_spec())
        }
    }

    /// Constructs a pool of exactly `n` workers, all waiting on one fresh,
    /// empty queue. A worker count of zero is a precondition violation and
    /// is refused, not repaired.
    pub fn new(n: usize) -> (r: Result<ThreadPool, PoolError>)
        ensures
            n == 0 <==> r is Err,
            r is Err ==> r == Err::<ThreadPool, PoolError>(PoolError::ZeroWorkers),
            r is Ok ==> ({
                let p = r->Ok_0;
                &&& p.inv()
                &&& !p.spec_disposed()
                &&& p.queue_spec() == Seq::<Message>::empty()
                &&& p.executed_spec() == Seq::<u64>::empty()
                &&& p.worker_states().len() == n
                &&& all_waiting(p.worker_states())
            }),
    {
        if n == 0 {
            return Err(PoolError::ZeroWorkers);
        }
        let mut workers: Vec<Worker> = Vec::new();
        let mut i: usize = 0;
        while i < n
            invariant
                i <= n,
                workers@.len() == i,
                forall|k: int|
                    0 <= k < i ==> (#[trigger] workers@[k]).id == k && workers@[k].state
                        is Waiting,
            decreases n - i,
        {
            workers.push(Worker { id: i, state: WorkerState::Waiting });
            i += 1;
        }
        let pool = ThreadPool { queue: Vec::new(), workers, executed: Vec::new(), disposed: false };
        assert(pool.worker_states() =~= pool.workers@.map_values(|w: Worker| w.state));
        Ok(pool)
    }

    /// Hands a task to the pool: one `Run` message joins the back of the
    /// queue, and the call returns at once — nothing has executed yet by
    /// the time it does. On a disposed pool the submission fails and the
    /// task is never enqueued.
    pub fn execute(&mut self, task: u64) -> (r: Result<(), PoolError>)
        requires
            old(self).inv(),
        ensures
            final(self).inv(),
            old(self).spec_disposed() ==> r == Err::<(), PoolError>(PoolError::Disposed)
                && *final(self) == *old(self),
            !old(self).spec_disposed() ==> {
                &&& r == Ok::<(), PoolError>(())
                &&& final(self).queue_spec() == old(self).queue_spec().push(Message::Run(task))
                &&& final(self).executed_spec() == old(self).executed_spec()
                &&& final(self).worker_states() == old(self).worker_states()
                &&& !final(self).spec_disposed()
            },
    {
        if self.disposed {
            return Err(PoolError::Disposed);
        }
        self.queue.push(Message::Run(task));
        Ok(())
    }

    /// One round of the worker main loop, taken by worker `w`: receive the
    /// message at the front of the queue; a task is run to completion and
    /// the worker waits again; a shutdown stops the worker for good.
    pub fn worker_step(&mut self, w: usize)
        requires
            old(self).wf(),
            w < old(self).worker_states().len(),
            old(self).worker_states()[w as int] is Waiting,
            old(self).queue_spec().len() > 0,
        ensures
            final(self).wf(),
            final(self).queue_spec() == old(self).queue_spec().drop_first(),
            final(self).spec_disposed() == old(self).spec_disposed(),
            old(self).queue_spec()[0] is Run ==> {
                &&& final(self).executed_spec() == old(self).executed_spec().push(
                    old(self).queue_spec()[0]->Run_0,
                )
                &&& final(self).worker_states() == old(self).worker_states()
            },
            old(self).queue_spec()[0] is Shutdown ==> {
                &&& final(self).executed_spec() == old(self).executed_spec()
                &&& final(self).worker_states() == old(self).worker_states().update(
                    w as int,
                    WorkerState::Stopped,
                )
            },
    {
        let ghost prev = *self;
        let msg = self.queue.remove(0);
        assert(self.queue@ =~= prev.queue@.drop_first());
        match msg {
            Message::Run(task) => {
                self.executed.push(task);
                assert(self.worker_states() =~= prev.worker_states());
            },
            Message::Shutdown => {
                self.workers[w].state = WorkerState::Stopped;
                assert(self.worker_states() =~= prev.worker_states().update(
                    w as int,
                    WorkerState::Stopped,
                ));
            },
        }
    }

    /// How many workers the pool was built with.
    pub fn worker_count(&self) -> (n: usize)
        ensures
            n == self.worker_states().len(),
    {
        self.workers.len()
    }

    /// The tasks run so far, in the order they ran.
    pub fn executed_tasks(&self) -> (r: &Vec<u64>)
        ensures
            r@ == self.executed_spec(),
    {
        &self.executed
    }

    /// How many messages wait on the queue.
    pub fn queued_count(&self) -> (n: usize)
        ensures
            n == self.queue_spec().len(),
    {
        self.queue.len()
    }

    /// Whether the pool has been disposed.
    pub fn is_disposed(&self) -> (b: bool)
        ensures
            b == self.spec_disposed(),
    {
        self.disposed
    }

    /// Whether every worker has terminated.
    pub fn all_workers_stopped(&self) -> (b: bool)
        ensures
            b == all_stopped(self.worker_states()),
    {
        let mut i: usize = 0;
        while i < self.workers.len()
            invariant
                i <= self.workers@.len(),
                forall|k: int| 0 <= k < i ==> self.worker_states()[k] is Stopped,
            decreases self.workers@.len() - i,
        {
            let stopped = match self.workers[i].state {
                WorkerState::Stopped => true,
                WorkerState::Waiting => false,
            };
            if !stopped {
                assert(!(self.worker_states()[i as int] is Stopped));
                return false;
            }
            i += 1;
        }
        true
    }

    /// The index of some waiting worker.
    fn first_waiting(&self) -> (w: usize)
        requires
            count_waiting(self.worker_states()) > 0,
        ensures
            w < self.worker_states().len(),
            self.worker_states()[w as int] is Waiting,
    {
        proof {
            lemma_count_waiting_pos(self.worker_states());
        }
        let n = self.workers.len();
        let mut w: usize = 0;
        loop
            invariant
                n == self.workers@.len(),
                exists|k: int|
                    w <= k < self.worker_states().len() && self.worker_states()[k] is Waiting,
            decreases self.workers@.len() - w,
        {
            let is_waiting = match self.workers[w].state {
                WorkerState::Waiting => true,
                WorkerState::Stopped => false,
            };
            if is_waiting {
                return w;
            }
            proof {
                let k = choose|k: int|
                    w <= k < self.worker_states().len() && self.worker_states()[k] is Waiting;
                assert(k != w);
                assert(w < n);
            }
            w += 1;
        }
    }

    /// Graceful disposal: one shutdown message joins the queue for each
    /// worker, behind everything already submitted, and the call returns
    /// only once every worker has consumed its shutdown and stopped. FIFO
    /// consumption means every task submitted before this call runs before
    /// it returns; none is dropped.
    pub fn dispose(&mut self)
        requires
            old(self).inv(),
            !old(self).spec_disposed(),
        ensures
            final(self).inv(),
            final(self).spec_disposed(),
            final(self).executed_spec() == old(self).executed_spec() + pending_tasks(
                old(self).queue_spec(),
            ),
            final(self).worker_states().len() == old(self).worker_states().len(),
            all_stopped(final(self).worker_states()),
            final(self).queue_spec().len() == 0,
    {
        let ghost orig = *self;
        let ghost pending0 = pending_tasks(orig.queue@);
        proof {
            lemma_pending_all_runs(orig.queue@);
            assert(orig.queue@ =~= pending0.map_values(|t: u64| Message::Run(t)));
        }
        let w_count = self.workers.len();

        // Enqueue one shutdown per worker, behind all pending tasks.
        let mut i: usize = 0;
        while i < w_count
            invariant
                i <= w_count,
                self.workers@ == orig.workers@,
                self.executed@ == orig.executed@,
                self.disposed == orig.disposed,
                self.queue@ =~= orig.queue@ + Seq::new(i as nat, |_k: int| Message::Shutdown),
            decreases w_count - i,
        {
            self.queue.push(Message::Shutdown);
            i += 1;
        }

        proof {
            lemma_count_waiting_all(self.worker_states());
            assert(self.queue@ =~= pending0.skip(0).map_values(|t: u64| Message::Run(t))
                + Seq::new(count_waiting(self.worker_states()), |_k: int| Message::Shutdown));
            assert(self.executed@ =~= orig.executed@ + pending0.take(0));
        }

        // Drain: whichever worker is waiting takes the front message, until
        // the queue is empty and every worker has consumed its shutdown.
        while self.queue.len() > 0
            invariant
                self.wf(),
                self.workers@.len() == orig.workers@.len(),
                orig.workers@.len() >= 1,
                self.disposed == orig.disposed,
                !orig.disposed,
                orig.executed@.len() <= self.executed@.len() <= orig.executed@.len()
                    + pending0.len(),
                ({
                    let j = self.executed@.len() - orig.executed@.len();
                    &&& self.executed@ =~= orig.executed@ + pending0.take(j)
                    &&& self.queue@ =~= pending0.skip(j).map_values(|t: u64| Message::Run(t))
                        + Seq::new(
                        count_waiting(self.worker_states()),
                        |_k: int| Message::Shutdown,
                    )
                    &&& (j < pending0.len() ==> count_waiting(self.worker_states())
                        == orig.workers@.len())
                }),
            decreases self.queue@.len(),
        {
            let ghost j = self.executed@.len() - orig.executed@.len();
            proof {
                if j >= pending0.len() {
                    assert(self.queue@.len() == count_waiting(self.worker_states()));
                }
                assert(count_waiting(self.worker_states()) > 0);
            }
            let w = self.first_waiting();
            let ghost pre = *self;
            self.worker_step(w);
            proof {
                if pre.queue@[0] is Run {
                    assert(j < pending0.len());
                    assert(pre.queue@[0] == Message::Run(pending0[j]));
                    assert(self.executed@ =~= orig.executed@ + pending0.take(j + 1));
                    assert(self.queue@ =~= pending0.skip(j + 1).map_values(
                        |t: u64| Message::Run(t),
                    ) + Seq::new(
                        count_waiting(self.worker_states()),
                        |_k: int| Message::Shutdown,
                    ));
                } else {
                    assert(j == pending0.len());
                    let cw = count_waiting(pre.worker_states());
                    lemma_count_waiting_update_stop(pre.worker_states(), w as int);
                    assert(self.executed@ =~= orig.executed@ + pending0.take(j));
                    assert(self.queue@ =~= pending0.skip(j).map_values(
                        |t: u64| Message::Run(t),
                    ) + Seq::new(
                        count_waiting(self.worker_states()),
                        |_k: int| Message::Shutdown,
                    ));
                }
            }
        }

        proof {
            let j = self.executed@.len() - orig.executed@.len();
            assert(j == pending0.len());
            assert(count_waiting(self.worker_states()) == 0);
            lemma_count_waiting_zero(self.worker_states());
            assert(self.executed@ =~= orig.executed@ + pending0);
        }
        self.disposed = true;
    }
}

/// The law of exactly-once delivery: a fresh pool that receives a sequence
/// of submissions and is then disposed executes exactly the submitted
/// sequence — every submitted task once, in submission order, and nothing
/// else. The hypotheses are what [`ThreadPool::new`], repeated
/// [`ThreadPool::execute`] and [`ThreadPool::dispose`] promise; `executed`
/// is the record the disposed pool is left with.
pub proof fn lemma_exactly_once_delivery(
    fresh: ThreadPool,
    tasks: Seq<u64>,
    queue_after_submits: Seq<Message>,
    executed: Seq<u64>,
)
    requires
        fresh.inv(),
        !fresh.spec_disposed(),
        fresh.queue_spec() == Seq::<Message>::empty(),
        fresh.executed_spec() == Seq::<u64>::empty(),
        queue_after_submits == submit_all(fresh.queue_spec(), tasks),
        executed == fresh.executed_spec() + pending_tasks(queue_after_submits),
    ensures
        executed == tasks,
        forall|t: u64| executed.to_multiset().count(t) == tasks.to_multiset().count(t),
{
    lemma_submit_all_pending(fresh.queue_spec(), tasks);
    assert(executed =~= tasks);
}

} // verus!
