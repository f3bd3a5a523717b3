//! The worker-pool protocol: control messages, worker states, and the
//! pool's dispatch model with its submission and shutdown contracts.

use vstd::prelude::*;
use vstd::string::StringExecFns;

verus! {

/// Error returned when a pool is requested with zero workers.
#[derive(Clone, Debug, PartialEq, Eq, Structural)]
pub struct PoolCreationError;

impl PoolCreationError {
    /// The human-readable description of the error.
    pub fn message(&self) -> (r: String)
        ensures
            r@ == "Size of ThreadPool must be 1 or higher"@,
    {
        String::from_str("Size of ThreadPool must be 1 or higher")
    }
}

/// A unit of deferred work: a single-invocation callable that consumes
/// itself when run. Implementors decide what one job does.
pub trait Runnable: Sized {
    fn run(self);
}

/// A control message on the dispatch queue: either one job to run, or the
/// instruction to stop.
pub enum Message<J> {
    NewJob(J),
    Terminate,
}

/// The states of a worker's receive-execute loop.
#[derive(Clone, Copy, Debug, PartialEq, Eq, Structural)]
pub enum WorkerState {
    /// Blocked awaiting the next message.
    Idle,
    /// Executing a dequeued job.
    Running,
    /// Observed `Terminate`; performs no further receives.
    Terminated,
}

/// What a worker must do after inspecting a dequeued message.
pub enum WorkerAction<J> {
    /// Run this job to completion, then go back to receiving.
    Run(J),
    /// Exit the receive-execute loop.
    Exit,
}

/// The worker loop's decision on a dequeued message: a job is run, a
/// terminate instruction ends the loop.
pub fn on_message<J>(msg: Message<J>) -> (r: WorkerAction<J>)
    ensures
        match msg {
            Message::NewJob(j) => r == WorkerAction::Run(j),
            Message::Terminate => r == WorkerAction::<J>::Exit,
        },
{
    match msg {
        Message::NewJob(j) => WorkerAction::Run(j),
        Message::Terminate => WorkerAction::Exit,
    }
}

/// One worker slot: an identifier and the observable state of its loop.
#[derive(Clone, Copy)]
pub struct Worker {
    id: usize,
    state: WorkerState,
}

impl Worker {
    /// A fresh worker, idle and awaiting its first message.
    pub fn new(id: usize) -> (w: Worker)
        ensures
            w.id_spec() == id,
            w.state_spec() == WorkerState::Idle,
    {
        Worker { id, state: WorkerState::Idle }
    }

    pub closed spec fn id_spec(&self) -> usize {
        self.id
    }

    pub closed spec fn state_spec(&self) -> WorkerState {
        self.state
    }

    pub fn id(&self) -> (r: usize)
        ensures
            r == self.id_spec(),
    {
        self.id
    }

    pub fn state(&self) -> (r: WorkerState)
        ensures
            r == self.state_spec(),
    {
        self.state
    }
}

/// The jobs carried by a message sequence, in queue order; terminate
/// messages carry none.
pub open spec fn jobs_of<J>(q: Seq<Message<J>>) -> Seq<J>
    decreases q.len(),
{
    if q.len() == 0 {
        Seq::empty()
    } else {
        match q.last() {
            Message::NewJob(j) => jobs_of(q.drop_last()).push(j),
            Message::Terminate => jobs_of(q.drop_last()),
        }
    }
}

/// How many terminate messages a message sequence holds.
pub open spec fn terminate_count<J>(q: Seq<Message<J>>) -> nat
    decreases q.len(),
{
    if q.len() == 0 {
        0
    } else {
        terminate_count(q.drop_last()) + (if q.last() is Terminate {
            1nat
        } else {
            0nat
        })
    }
}

proof fn lemma_push<J>(q: Seq<Message<J>>, m: Message<J>)
    ensures
        (m matches Message::NewJob(j) ==> jobs_of(q.push(m)) =~= jobs_of(q).push(j)),
        (m is Terminate ==> jobs_of(q.push(m)) =~= jobs_of(q)),
        terminate_count(q.push(m)) == terminate_count(q) + (if m is Terminate {
            1nat
        } else {
            0nat
        }),
{
    assert(q.push(m).drop_last() =~= q);
    assert(q.push(m).last() == m);
}

proof fn lemma_peel_front<J>(q: Seq<Message<J>>)
    requires
        q.len() > 0,
    ensures
        (q[0] matches Message::NewJob(j) ==> jobs_of(q) =~= seq![j] + jobs_of(q.drop_first())),
        (q[0] is Terminate ==> jobs_of(q) =~= jobs_of(q.drop_first())),
        terminate_count(q) == terminate_count(q.drop_first()) + (if q[0] is Terminate {
            1nat
        } else {
            0nat
        }),
    decreases q.len(),
{
    if q.len() == 1 {
        assert(q.drop_first() =~= Seq::<Message<J>>::empty());
        assert(q.drop_last() =~= Seq::<Message<J>>::empty());
    } else {
        let p = q.drop_last();
        lemma_peel_front(p);
        assert(p.drop_first() =~= q.drop_first().drop_last());
        assert(q.drop_first().last() == q.last());
        assert(p[0] == q[0]);
    }
}

/// Job and terminate counts partition a message sequence.
proof fn lemma_queue_len<J>(q: Seq<Message<J>>)
    ensures
        jobs_of(q).len() + terminate_count(q) == q.len(),
    decreases q.len(),
{
    if q.len() > 0 {
        lemma_queue_len(q.drop_last());
    }
}

/// The pool: a FIFO dispatch queue and a fixed set of workers. Submitted
/// jobs are delivered in order and each is run exactly once; shutdown
/// drains the queue and terminates every worker before it returns.
///
/// The ghost trace `submitted` records every job handed to `execute`, and
/// `executed` every job a worker has run, in order.
pub struct ThreadPool<J> {
    queue: Vec<Message<J>>,
    workers: Vec<Worker>,
    submitted: Ghost<Seq<J>>,
    executed: Ghost<Seq<J>>,
}

impl<J: Runnable> ThreadPool<J> {
    /// Every job ever submitted, in submission order.
    pub closed spec fn submitted(&self) -> Seq<J> {
        self.submitted@
    }

    /// Every job already run, in the order the workers ran them.
    pub closed spec fn executed(&self) -> Seq<J> {
        self.executed@
    }

    /// The jobs still waiting in the queue, front first.
    pub closed spec fn queued(&self) -> Seq<J> {
        jobs_of(self.queue@)
    }

    /// How many workers the pool was built with.
    pub closed spec fn worker_count_spec(&self) -> nat {
        self.workers@.len()
    }

    /// The observable loop state of each worker, by identifier.
    pub closed spec fn worker_states(&self) -> Seq<WorkerState> {
        self.workers@.map_values(|w: Worker| w.state)
    }

    /// Well-formed: at least one worker, identifiers `0..size`, and the
    /// conservation law — what was submitted is exactly what was executed
    /// followed by what is still queued.
    pub closed spec fn wf(&self) -> bool {
        &&& self.workers@.len() >= 1
        &&& (forall|i: int|
            0 <= i < self.workers@.len() ==> (#[trigger] self.workers@[i]).id == i)
        &&& self.submitted@ == self.executed@ + jobs_of(self.queue@)
    }

    /// Accepting work: every worker idle, no terminate message queued.
    pub closed spec fn is_active(&self) -> bool {
        &&& (forall|i: int|
            0 <= i < self.workers@.len() ==> (#[trigger] self.workers@[i]).state
                == WorkerState::Idle)
        &&& terminate_count(self.queue@) == 0
    }

    /// Shut down: the queue is drained and every worker has terminated.
    pub closed spec fn is_done(&self) -> bool {
        &&& (forall|i: int|
            0 <= i < self.workers@.len() ==> (#[trigger] self.workers@[i]).state
                == WorkerState::Terminated)
        &&& self.queue@.len() == 0
    }

    /// Create a pool of `size` workers. A size of zero is rejected;
    /// otherwise the pool starts with workers `0..size`, all idle, an
    /// empty queue and empty traces.
    pub fn new(size: usize) -> (r: Result<ThreadPool<J>, PoolCreationError>)
        ensures
            size == 0 <==> r is Err,
            (r matches Ok(p) ==> {
                &&& p.wf()
                &&& p.is_active()
                &&& p.worker_count_spec() == size
                &&& p.submitted() =~= Seq::<J>::empty()
                &&& p.executed() =~= Seq::<J>::empty()
                &&& p.queued() =~= Seq::<J>::empty()
            }),
    {
        if size == 0 {
            return Err(PoolCreationError);
        }
        let mut workers: Vec<Worker> = Vec::new();
        let mut id: usize = 0;
        while id < size
            invariant
                id <= size,
                workers@.len() == id,
                forall|i: int|
                    0 <= i < id ==> (#[trigger] workers@[i]).id == i && workers@[i].state
                        == WorkerState::Idle,
            decreases size - id,
        {
            workers.push(Worker::new(id));
            id = id + 1;
        }
        Ok(
            ThreadPool {
                queue: Vec::new(),
                workers,
                submitted: Ghost(Seq::empty()),
                executed: Ghost(Seq::empty()),
            },
        )
    }

    /// Submit one job: it is wrapped in a message and enqueued at the back
    /// of the dispatch queue. Submission never runs the job.
    pub fn execute(&mut self, job: J)
        requires
            old(self).wf(),
            old(self).is_active(),
        ensures
            final(self).wf(),
            final(self).is_active(),
            final(self).worker_count_spec() == old(self).worker_count_spec(),
            final(self).worker_states() =~= old(self).worker_states(),
            final(self).submitted() =~= old(self).submitted().push(job),
            final(self).executed() =~= old(self).executed(),
            final(self).queued() =~= old(self).queued().push(job),
    {
        let ghost jg = job;
        proof {
            lemma_push(self.queue@, Message::NewJob(jg));
        }
        self.submitted = Ghost(self.submitted@.push(jg));
        self.queue.push(Message::NewJob(job));
        proof {
            assert(self.submitted@ =~= self.executed@ + jobs_of(self.queue@));
        }
    }

    /// Run the job at the front of the queue to completion on an idle
    /// worker, which then returns to its idle state.
    pub fn run_next_job(&mut self)
        requires
            old(self).wf(),
            old(self).is_active(),
            old(self).queued().len() > 0,
        ensures
            final(self).wf(),
            final(self).is_active(),
            final(self).worker_count_spec() == old(self).worker_count_spec(),
            final(self).submitted() =~= old(self).submitted(),
            final(self).executed() =~= old(self).executed().push(old(self).queued()[0]),
            final(self).queued() =~= old(self).queued().drop_first(),
    {
        proof {
            lemma_peel_front(self.queue@);
        }
        let msg = self.queue.remove(0);
        proof {
            assert(self.queue@ =~= old(self).queue@.drop_first());
        }
        match msg {
            Message::NewJob(job) => {
                let ghost jg = job;
                self.executed = Ghost(self.executed@.push(jg));
                proof {
                    assert(self.submitted@ =~= self.executed@ + jobs_of(self.queue@));
                }
                job.run();
            },
            Message::Terminate => {
                proof {
                    assert(terminate_count(old(self).queue@) >= 1);
                    assert(false);
                }
            },
        }
    }

    /// Tear the pool down: enqueue one terminate message per worker, then
    /// let the workers drain the queue — every job still pending is run
    /// (in submission order), every worker receives one terminate message
    /// and exits. The call blocks until all workers have terminated.
    pub fn shutdown(&mut self)
        requires
            old(self).wf(),
            old(self).is_active(),
        ensures
            final(self).wf(),
            final(self).is_done(),
            final(self).worker_count_spec() == old(self).worker_count_spec(),
            final(self).submitted() =~= old(self).submitted(),
            final(self).executed() =~= old(self).executed() + old(self).queued(),
            final(self).executed() =~= final(self).submitted(),
            final(self).queued() =~= Seq::<J>::empty(),
    {
        let n = self.workers.len();
        // Step 1: one terminate message per registered worker.
        let mut k: usize = 0;
        while k < n
            invariant
                k <= n,
                n == self.workers@.len(),
                self.workers@ =~= old(self).workers@,
                self.submitted@ =~= old(self).submitted@,
                self.executed@ =~= old(self).executed@,
                jobs_of(self.queue@) =~= jobs_of(old(self).queue@),
                terminate_count(self.queue@) == k,
            decreases n - k,
        {
            proof {
                lemma_push(self.queue@, Message::<J>::Terminate);
            }
            self.queue.push(Message::Terminate);
            k = k + 1;
        }
        // Step 2: drain the queue; jobs run to completion, terminate
        // messages retire workers one by one.
        let mut t: usize = 0;
        while self.queue.len() > 0
            invariant
                t <= n,
                n == self.workers@.len(),
                forall|i: int|
                    0 <= i < n ==> (#[trigger] self.workers@[i]).id == old(self).workers@[i].id,
                forall|i: int|
                    0 <= i < n ==> (#[trigger] self.workers@[i]).state == (if i < t {
                        WorkerState::Terminated
                    } else {
                        old(self).workers@[i].state
                    }),
                terminate_count(self.queue@) == n - t,
                self.submitted@ =~= old(self).submitted@,
                self.submitted@ =~= self.executed@ + jobs_of(self.queue@),
                old(self).is_active(),
                old(self).wf(),
            decreases self.queue@.len(),
        {
            let ghost q0 = self.queue@;
            proof {
                lemma_peel_front(q0);
            }
            let msg = self.queue.remove(0);
            proof {
                assert(self.queue@ =~= q0.drop_first());
            }
            match msg {
                Message::NewJob(job) => {
                    let ghost jg = job;
                    self.executed = Ghost(self.executed@.push(jg));
                    proof {
                        assert(self.submitted@ =~= self.executed@ + jobs_of(self.queue@));
                    }
                    job.run();
                },
                Message::Terminate => {
                    let mut w = self.workers[t];
                    w.state = WorkerState::Terminated;
                    self.workers[t] = w;
                    t = t + 1;
                },
            }
        }
        proof {
            lemma_queue_len(self.queue@);
            assert(jobs_of(self.queue@) =~= Seq::<J>::empty());
        }
    }

    /// How many workers the pool holds.
    pub fn worker_count(&self) -> (r: usize)
        ensures
            r == self.worker_count_spec(),
    {
        self.workers.len()
    }

    /// The identifier of worker `i`: workers are registered in identifier
    /// order, `0` up to the pool size.
    pub fn worker_id(&self, i: usize) -> (r: usize)
        requires
            self.wf(),
            i < self.worker_count_spec(),
        ensures
            r == i,
    {
        self.workers[i].id
    }

    /// The loop state of worker `i`.
    pub fn worker_state(&self, i: usize) -> (r: WorkerState)
        requires
            i < self.worker_count_spec(),
        ensures
            r == self.worker_states()[i as int],
    {
        self.workers[i].state
    }

    /// How many submitted jobs have not yet been run.
    pub fn pending_jobs(&self) -> (r: usize)
        requires
            self.wf(),
            self.is_active(),
        ensures
            r == self.queued().len(),
    {
        proof {
            lemma_queue_len(self.queue@);
        }
        self.queue.len()
    }

    /// Whether every worker has exited its loop.
    pub fn all_terminated(&self) -> (r: bool)
        ensures
            r == (forall|i: int|
                0 <= i < self.worker_states().len() ==> self.worker_states()[i]
                    == WorkerState::Terminated),
    {
        let n = self.workers.len();
        let mut i: usize = 0;
        while i < n
            invariant
                i <= n,
                n == self.workers@.len(),
                forall|k: int|
                    0 <= k < i ==> (#[trigger] self.workers@[k]).state == WorkerState::Terminated,
            decreases n - i,
        {
            match self.workers[i].state {
                WorkerState::Terminated => {},
                _ => {
                    proof {
                        assert(self.worker_states()[i as int] == self.workers@[i as int].state);
                    }
                    return false;
                },
            }
            i = i + 1;
        }
        true
    }
}

/// Law: no job is lost and none is duplicated. In every well-formed pool
/// the submission trace is exactly the execution trace followed by the
/// pending jobs; hence what has run is a prefix of what was submitted, in
/// submission order, and once the queue is drained the two traces are
/// equal — every submitted job was run exactly once.
pub proof fn lemma_jobs_conserved<J: Runnable>(p: &ThreadPool<J>)
    requires
        p.wf(),
    ensures
        p.submitted() =~= p.executed() + p.queued(),
        p.executed() =~= p.submitted().take(p.executed().len() as int),
        p.queued().len() == 0 ==> p.executed() =~= p.submitted(),
{
}

/// Law: a single worker serializes in submission order. Whatever runs
/// next is the oldest pending job — after `run_next_job` the execution
/// trace has grown by exactly the front of the pending queue, so with one
/// worker an earlier submission always completes before a later one
/// starts. This restates the `run_next_job` contract as a relation
/// between the traces before and after one dispatch.
pub proof fn lemma_fifo_dispatch<J: Runnable>(pre: &ThreadPool<J>, post: &ThreadPool<J>)
    requires
        pre.wf(),
        post.wf(),
        pre.queued().len() > 0,
        post.executed() =~= pre.executed().push(pre.queued()[0]),
        post.queued() =~= pre.queued().drop_first(),
    ensures
        post.executed() =~= pre.submitted().take(pre.executed().len() as int + 1),
        post.queued().len() == pre.queued().len() - 1,
{
    assert(pre.submitted() =~= pre.executed() + pre.queued());
}

} // verus!
