//! The pool: a fixed collection of workers, the shared channel, and the
//! two-phase shutdown protocol.
//!
//! The pool is modeled over plain values. A job is the `u64` token its
//! producer hands to `execute`; running a job shows as appending its token
//! to the executed log. The accounting invariant ties the three records
//! together: the submission log is exactly the executed log followed by the
//! jobs still queued, so no job is ever lost, duplicated, or reordered on
//! its way from the queue to a worker.

use vstd::prelude::*;

use crate::channel::MessageQueue;
use crate::message::Message;
use crate::message::jobs_of;
use crate::message::jobs_precede_terminates;
use crate::message::lemma_all_terminates_no_jobs;
use crate::message::lemma_append;
use crate::message::lemma_length_decomposition;
use crate::message::lemma_no_terminates;
use crate::message::terminates_of;
use crate::worker::Action;
use crate::worker::HandleState;
use crate::worker::Worker;
use crate::worker::WorkerState;

verus! {

/// A fixed-size worker pool. `workers` is fixed at construction; `queue` is
/// the shared channel; `submitted` and `executed` record the job tokens
/// handed to `execute` and the jobs workers have run, in order.
pub struct ThreadPool {
    pub workers: Vec<Worker>,
    pub queue: MessageQueue,
    pub submitted: Vec<u64>,
    pub executed: Vec<u64>,
}

impl ThreadPool {
    pub open spec fn num_workers(self) -> nat {
        self.workers@.len()
    }

    /// The jobs still queued, in the order workers will take them.
    pub open spec fn queued_jobs(self) -> Seq<u64> {
        jobs_of(self.queue@)
    }

    /// Every submitted job is either already executed or still queued, in
    /// order, and nothing else was ever executed.
    pub open spec fn accounted(self) -> bool {
        self.submitted@ == self.executed@ + jobs_of(self.queue@)
    }

    /// Worker `i` sits at slot `i` and its handle respects its state.
    pub open spec fn workers_wf(self) -> bool {
        forall|i: int|
            0 <= i < self.workers@.len() ==> (#[trigger] self.workers@[i]).wf()
                && self.workers@[i].id == i
    }

    /// The pool before disposal: every worker is running with its handle
    /// present, and no terminate signal has been sent.
    pub open spec fn is_live(self) -> bool {
        &&& forall|i: int|
            0 <= i < self.workers@.len() ==> (#[trigger] self.workers@[i]).state is Running
                && self.workers@[i].handle is Joinable
        &&& terminates_of(self.queue@) == 0
    }

    /// The pool after disposal: every worker has exited and been joined,
    /// and the queue is empty.
    pub open spec fn is_disposed(self) -> bool {
        &&& forall|i: int|
            0 <= i < self.workers@.len() ==> (#[trigger] self.workers@[i]).state is Terminated
                && self.workers@[i].handle is Joined
        &&& self.queue@.len() == 0
    }

    /// Well-formedness: a pool has at least one worker, accounts for every
    /// job, and is either live or disposed.
    pub open spec fn wf(self) -> bool {
        &&& self.num_workers() > 0
        &&& self.accounted()
        &&& self.workers_wf()
        &&& (self.is_live() || self.is_disposed())
    }

    /// Create a new pool of exactly `size` workers, all running, sharing a
    /// fresh empty channel. A pool of zero workers could never make
    /// progress, so `size` must be positive; the caller owns that check.
    pub fn new(size: usize) -> (p: ThreadPool)
        requires
            size > 0,
        ensures
            p.wf(),
            p.is_live(),
            p.num_workers() == size,
            p.submitted@ == Seq::<u64>::empty(),
            p.executed@ == Seq::<u64>::empty(),
            p.queue@ == Seq::<Message>::empty(),
    {
        let mut workers: Vec<Worker> = Vec::new();
        let mut id: usize = 0;
        while id < size
            invariant
                id <= size,
                workers@.len() == id,
                forall|i: int|
                    0 <= i < id ==> (#[trigger] workers@[i]).id == i
                        && workers@[i].state is Running && workers@[i].handle is Joinable,
            decreases size - id,
        {
            workers.push(Worker::new(id));
            id += 1;
        }
        ThreadPool { workers, queue: MessageQueue::new(), submitted: Vec::new(), executed: Vec::new() }
    }

    /// The zero-size precondition surfaced as a result: `None` exactly when
    /// `size` is zero, otherwise a fresh live pool of `size` workers.
    /// Callers treat `None` as non-recoverable in practice.
    pub fn try_new(size: usize) -> (r: Option<ThreadPool>)
        ensures
            match r {
                None => size == 0,
                Some(p) => size > 0 && p.wf() && p.is_live() && p.num_workers() == size
                    && p.submitted@ == Seq::<u64>::empty() && p.executed@ == Seq::<u64>::empty(),
            },
    {
        if size == 0 {
            None
        } else {
            Some(ThreadPool::new(size))
        }
    }

    /// Submit a job: wrap the producer's token in a job message and enqueue
    /// it behind every message already queued. Fire-and-forget: the caller
    /// never waits for execution, and nothing else about the pool changes.
    pub fn execute(&mut self, job: u64)
        requires
            old(self).wf(),
            old(self).is_live(),
        ensures
            final(self).wf(),
            final(self).is_live(),
            final(self).workers@ == old(self).workers@,
            final(self).submitted@ == old(self).submitted@.push(job),
            final(self).executed@ == old(self).executed@,
            final(self).queue@ == old(self).queue@.push(Message::NewJob(job)),
    {
        let ghost q0 = self.queue@;
        self.queue.enqueue(Message::NewJob(job));
        self.submitted.push(job);
        proof {
            assert(self.queue@ =~= q0 + seq![Message::NewJob(job)]);
            lemma_append(q0, seq![Message::NewJob(job)]);
            crate::message::lemma_singleton(Message::NewJob(job));
            assert(self.submitted@ =~= self.executed@ + jobs_of(self.queue@));
        }
    }

    /// One scheduling step while the pool is live: the idle worker at slot
    /// `i` takes the message at the head of the shared queue and acts on it.
    /// Returns the action taken, or `None` when the queue was empty (the
    /// real worker would block waiting). Before disposal only job messages
    /// are queued, so the head job moves from the queue to the executed log
    /// and the worker keeps running.
    pub fn step_worker(&mut self, i: usize) -> (a: Option<Action>)
        requires
            old(self).wf(),
            old(self).is_live(),
            i < old(self).num_workers(),
        ensures
            final(self).wf(),
            final(self).is_live(),
            final(self).workers@ == old(self).workers@,
            final(self).submitted@ == old(self).submitted@,
            match a {
                None => old(self).queue@.len() == 0 && final(self).queue@ == old(self).queue@
                    && final(self).executed@ == old(self).executed@,
                Some(act) => old(self).queue@.len() > 0 && old(self).queue@[0] is NewJob
                    && act == Action::RunJob(old(self).queued_jobs()[0])
                    && final(self).queue@ == old(self).queue@.drop_first()
                    && final(self).executed@ == old(self).executed@.push(old(self).queued_jobs()[0]),
            },
    {
        if self.queue.is_empty() {
            return None;
        }
        proof {
            lemma_no_terminates(self.queue@);
        }
        let m = self.queue.dequeue();
        let mut w = self.workers[i];
        let act = w.handle_message(m);
        self.workers[i] = w;
        proof {
            assert(self.workers@ =~= old(self).workers@);
        }
        match act {
            Action::RunJob(j) => {
                self.executed.push(j);
                proof {
                    assert(old(self).queue@ =~= seq![Message::NewJob(j)] + self.queue@);
                    assert(old(self).queued_jobs() =~= seq![j] + jobs_of(self.queue@));
                    assert(self.submitted@ =~= self.executed@ + jobs_of(self.queue@));
                }
                Some(Action::RunJob(j))
            },
            Action::Exit => {
                proof {
                    assert(false);
                }
                None
            },
        }
    }

    /// Two-phase shutdown, invoked when the pool's owner releases it. The
    /// signal phase sends exactly one terminate per worker, so the
    /// terminates queue FIFO behind every pending job and no queued job is
    /// dropped. The join phase then consumes each worker's handle once its
    /// thread has exited. Disposal returns only when every worker has
    /// exited and every job submitted before it began has been executed;
    /// disposing an already-disposed pool changes nothing.
    pub fn dispose(&mut self)
        requires
            old(self).wf(),
        ensures
            final(self).wf(),
            final(self).is_disposed(),
            final(self).num_workers() == old(self).num_workers(),
            final(self).submitted@ == old(self).submitted@,
            final(self).executed@ == final(self).submitted@,
            old(self).is_disposed() ==> final(self).workers@ == old(self).workers@
                && final(self).queue@ == old(self).queue@ && final(self).executed@ == old(
                self,
            ).executed@,
    {
        if self.workers[0].is_joined() {
            // Already disposed: joining is idempotent, so there is nothing
            // left to signal or to join.
            proof {
                assert(self.queue@.len() == 0);
                assert(jobs_of(self.queue@) =~= Seq::<u64>::empty());
                assert(self.executed@ =~= self.submitted@);
            }
            return ;
        }
        assert(self.is_live());
        let n = self.workers.len();
        let ghost q0 = self.queue@;

        // Signal phase: one terminate per worker, all of them behind every
        // job already queued.
        proof {
            lemma_no_terminates(q0);
        }
        let mut k: usize = 0;
        while k < n
            invariant
                k <= n,
                n == self.workers@.len(),
                self.workers@ == old(self).workers@,
                self.submitted@ == old(self).submitted@,
                self.executed@ == old(self).executed@,
                jobs_of(self.queue@) == jobs_of(q0),
                terminates_of(self.queue@) == k,
                jobs_precede_terminates(self.queue@),
                self.accounted(),
            decreases n - k,
        {
            let ghost prev = self.queue@;
            self.queue.enqueue(Message::Terminate);
            k += 1;
            proof {
                assert(self.queue@ =~= prev + seq![Message::Terminate]);
                lemma_append(prev, seq![Message::Terminate]);
                crate::message::lemma_singleton(Message::Terminate);
                assert(jobs_of(self.queue@) =~= jobs_of(prev));
                assert forall|a: int, b: int|
                    0 <= a <= b < self.queue@.len() && self.queue@[a] is Terminate implies self.queue@[b] is Terminate by {
                    if b < self.queue@.len() - 1 {
                        assert(self.queue@[a] == prev[a]);
                        assert(self.queue@[b] == prev[b]);
                    } else {
                        assert(self.queue@[b] == Message::Terminate);
                    }
                }
            }
        }

        // Join phase: for each worker in turn, wait until it has taken its
        // terminate off the queue, then consume its handle. A worker
        // finishes every job ahead of its terminate before it exits.
        let mut i: usize = 0;
        while i < n
            invariant
                i <= n,
                n >= 1,
                n == self.workers@.len(),
                n == old(self).num_workers(),
                self.submitted@ == old(self).submitted@,
                self.accounted(),
                self.workers_wf(),
                forall|w: int|
                    0 <= w < i ==> (#[trigger] self.workers@[w]).state is Terminated
                        && self.workers@[w].handle is Joined,
                forall|w: int|
                    i <= w < n ==> (#[trigger] self.workers@[w]).state is Running
                        && self.workers@[w].handle is Joinable,
                terminates_of(self.queue@) == n - i,
                jobs_precede_terminates(self.queue@),
                i >= 1 ==> jobs_of(self.queue@).len() == 0,
            decreases n - i,
        {
            while self.workers[i].is_running()
                invariant
                    i < n,
                    n == self.workers@.len(),
                    n == old(self).num_workers(),
                    self.submitted@ == old(self).submitted@,
                    self.accounted(),
                    self.workers_wf(),
                    forall|w: int|
                        0 <= w < i ==> (#[trigger] self.workers@[w]).state is Terminated
                            && self.workers@[w].handle is Joined,
                    forall|w: int|
                        i < w < n ==> (#[trigger] self.workers@[w]).state is Running
                            && self.workers@[w].handle is Joinable,
                    self.workers@[i as int].handle is Joinable,
                    terminates_of(self.queue@) == (if self.workers@[i as int].state is Running {
                        (n - i) as nat
                    } else {
                        (n - i - 1) as nat
                    }),
                    jobs_precede_terminates(self.queue@),
                    i >= 1 ==> jobs_of(self.queue@).len() == 0,
                    !(self.workers@[i as int].state is Running) ==> jobs_of(self.queue@).len()
                        == 0,
                decreases self.queue@.len(),
            {
                proof {
                    lemma_length_decomposition(self.queue@);
                }
                let ghost q = self.queue@;
                let m = self.queue.dequeue();
                let mut w = self.workers[i];
                let act = w.handle_message(m);
                self.workers[i] = w;
                proof {
                    assert forall|a: int, b: int|
                        0 <= a <= b < self.queue@.len() && self.queue@[a] is Terminate implies self.queue@[b] is Terminate by {
                        assert(self.queue@[a] == q[a + 1]);
                        assert(self.queue@[b] == q[b + 1]);
                    }
                }
                match act {
                    Action::RunJob(j) => {
                        self.executed.push(j);
                        proof {
                            assert(jobs_of(q) =~= seq![j] + jobs_of(self.queue@));
                            assert(self.submitted@ =~= self.executed@ + jobs_of(self.queue@));
                        }
                    },
                    Action::Exit => {
                        proof {
                            assert(q[0] is Terminate);
                            assert forall|a: int| 0 <= a < q.len() implies #[trigger] q[a] is Terminate by {
                                assert(q[0] is Terminate && q[a] is Terminate);
                            }
                            lemma_all_terminates_no_jobs(q);
                            lemma_all_terminates_no_jobs(self.queue@);
                            assert(forall|a: int|
                                0 <= a < self.queue@.len() ==> #[trigger] self.queue@[a] == q[a
                                    + 1]);
                        }
                    },
                }
            }
            let mut w = self.workers[i];
            w.join();
            self.workers[i] = w;
            i += 1;
        }
        proof {
            lemma_length_decomposition(self.queue@);
            assert(self.queue@.len() == 0);
            assert(jobs_of(self.queue@) =~= Seq::<u64>::empty());
            assert(self.executed@ =~= self.submitted@);
        }
    }

    pub fn size(&self) -> (n: usize)
        ensures
            n == self.num_workers(),
    {
        self.workers.len()
    }

    pub fn pending_messages(&self) -> (n: usize)
        ensures
            n == self.queue@.len(),
    {
        self.queue.len()
    }

    /// The tokens of the jobs submitted so far, in submission order.
    pub fn submitted_log(&self) -> (log: &Vec<u64>)
        ensures
            log@ == self.submitted@,
    {
        &self.submitted
    }

    /// The tokens of the jobs executed so far, in the order workers took
    /// them off the queue.
    pub fn executed_log(&self) -> (log: &Vec<u64>)
        ensures
            log@ == self.executed@,
    {
        &self.executed
    }

    /// The worker at slot `i`, for inspection.
    pub fn worker(&self, i: usize) -> (w: &Worker)
        requires
            i < self.num_workers(),
        ensures
            *w == self.workers@[i as int],
    {
        &self.workers[i]
    }
}

/// Every job is executed at most once and in dequeue order: in any
/// well-formed pool state, the executed log is exactly the front of the
/// submission log, and the jobs still queued are exactly the rest of it.
/// Together with `dispose`, which drains the queue, every submitted job is
/// executed exactly once.
pub proof fn lemma_executed_is_prefix_of_submitted(p: ThreadPool)
    requires
        p.wf(),
    ensures
        p.submitted@ == p.executed@ + p.queued_jobs(),
        p.executed@ == p.submitted@.take(p.executed@.len() as int),
        p.queued_jobs() == p.submitted@.skip(p.executed@.len() as int),
{
    assert(p.executed@ =~= p.submitted@.take(p.executed@.len() as int));
    assert(p.queued_jobs() =~= p.submitted@.skip(p.executed@.len() as int));
}

} // verus!
