//! The pool: a fixed set of workers around one shared FIFO queue.
//!
//! `ThreadPool` is the dispatch protocol of a fixed-size worker pool,
//! stated over plain values: the workers with their loop states, the
//! queue of jobs submitted and not yet delivered, and the flag that
//! says whether the producer handle still exists. Each operation of
//! the protocol is an exec function with a full contract: construction
//! (`new`), submission (`execute`), one observable receive by a worker
//! (`worker_receive`), the death of a worker whose job panicked
//! (`worker_failed`), the shutdown signal (`shutdown`), and the
//! teardown wait (`drain`).
//!
//! Two ghost histories tie the operations together: every job ever
//! submitted, in submission order, and every job ever handed to a
//! worker, in delivery order. The well-formedness invariant says that
//! the delivered history followed by the still-pending queue is
//! exactly the submitted history — so delivery is FIFO, nothing is
//! lost, nothing is delivered twice, and nothing is delivered before
//! it was submitted.

use vstd::prelude::*;

use crate::worker::Worker;
use crate::worker::WorkerState;

verus! {

/// How many of the workers are still in their consumption loop.
pub open spec fn count_running(workers: Seq<Worker>) -> int
    decreases workers.len(),
{
    if workers.len() == 0 {
        0
    } else {
        count_running(workers.drop_last()) + if workers.last().state is Running {
            1int
        } else {
            0int
        }
    }
}

/// There are never fewer than zero nor more than all workers running.
pub proof fn lemma_count_running_bounds(workers: Seq<Worker>)
    ensures
        0 <= count_running(workers) <= workers.len(),
    decreases workers.len(),
{
    if workers.len() > 0 {
        lemma_count_running_bounds(workers.drop_last());
    }
}

/// A pool whose workers are all running has as many running workers as
/// it has workers.
pub proof fn lemma_count_running_all(workers: Seq<Worker>)
    requires
        forall|i: int| 0 <= i < workers.len() ==> (#[trigger] workers[i]).state is Running,
    ensures
        count_running(workers) == workers.len(),
    decreases workers.len(),
{
    if workers.len() > 0 {
        assert(workers[workers.len() - 1].state is Running);
        assert forall|i: int| 0 <= i < workers.drop_last().len() implies (#[trigger] workers
            .drop_last()[i]).state is Running by {
            assert(workers.drop_last()[i] == workers[i]);
        }
        lemma_count_running_all(workers.drop_last());
    }
}

/// A pool none of whose workers is running has no running worker to
/// count.
pub proof fn lemma_count_running_zero(workers: Seq<Worker>)
    requires
        forall|i: int| 0 <= i < workers.len() ==> !((#[trigger] workers[i]).state is Running),
    ensures
        count_running(workers) == 0,
    decreases workers.len(),
{
    if workers.len() > 0 {
        assert(!(workers[workers.len() - 1].state is Running));
        assert forall|i: int| 0 <= i < workers.drop_last().len() implies !((#[trigger] workers
            .drop_last()[i]).state is Running) by {
            assert(workers.drop_last()[i] == workers[i]);
        }
        lemma_count_running_zero(workers.drop_last());
    }
}

/// Replacing one worker changes the running count by exactly the
/// difference the replacement makes.
pub proof fn lemma_count_running_update(workers: Seq<Worker>, i: int, w: Worker)
    requires
        0 <= i < workers.len(),
    ensures
        count_running(workers.update(i, w)) == count_running(workers) + (if w.state is Running {
            1int
        } else {
            0int
        }) - (if workers[i].state is Running {
            1int
        } else {
            0int
        }),
    decreases workers.len(),
{
    let updated = workers.update(i, w);
    assert(updated.len() == workers.len());
    if i == workers.len() - 1 {
        assert(updated.drop_last() =~= workers.drop_last());
        assert(updated.last() == w);
    } else {
        assert(updated.drop_last() =~= workers.drop_last().update(i, w));
        assert(updated.last() == workers.last());
        lemma_count_running_update(workers.drop_last(), i, w);
    }
}

/// A fixed-size worker pool: the workers in construction order, the
/// producer-facing half of the shared queue, and the queue's pending
/// contents, together with the ghost histories of what was submitted
/// and what was delivered.
#[verifier::reject_recursive_types(J)]
pub struct ThreadPool<J> {
    /// The workers, in construction order; the worker at position `i`
    /// has id `i`. The size is fixed when the pool is built.
    pub workers: Vec<Worker>,
    /// The jobs submitted and not yet delivered to any worker, oldest
    /// first.
    pub queue: Vec<J>,
    /// Whether the producer handle still exists. It is given up
    /// exactly once, as the sole shutdown signal; no stop message ever
    /// travels through the queue.
    pub accepting: bool,
    /// Every job ever submitted, in submission order.
    pub submitted: Ghost<Seq<J>>,
    /// Every job ever delivered to a worker, in delivery order. Each
    /// delivered job went to exactly one worker, which ran it once.
    pub delivered: Ghost<Seq<J>>,
}

impl<J> ThreadPool<J> {
    /// The number of workers, fixed at construction.
    pub open spec fn size(self) -> nat {
        self.workers@.len()
    }

    /// The state of the worker at position `i`.
    pub open spec fn worker_state(self, i: int) -> WorkerState {
        self.workers@[i].state
    }

    /// Whether the producer handle still exists, so that submission is
    /// still possible.
    pub open spec fn is_accepting(self) -> bool {
        self.accepting
    }

    /// The jobs submitted and not yet delivered, oldest first.
    pub open spec fn jobs_pending(self) -> Seq<J> {
        self.queue@
    }

    /// Every job ever submitted, in submission order.
    pub open spec fn jobs_submitted(self) -> Seq<J> {
        self.submitted@
    }

    /// Every job ever delivered to a worker, in delivery order.
    pub open spec fn jobs_delivered(self) -> Seq<J> {
        self.delivered@
    }

    /// How many workers are still in their consumption loop.
    pub open spec fn num_running(self) -> int {
        count_running(self.workers@)
    }

    /// Well-formedness: the pool has at least one worker, the worker
    /// at position `i` carries id `i`, and the delivered history
    /// followed by the pending queue is exactly the submitted history.
    /// The last clause is the dispatch invariant: FIFO delivery, no
    /// job lost, none delivered twice, none delivered before it was
    /// submitted.
    pub open spec fn wf(self) -> bool {
        &&& self.workers@.len() >= 1
        &&& forall|i: int| 0 <= i < self.workers@.len() ==> (#[trigger] self.workers@[i]).id == i
        &&& self.jobs_delivered() + self.jobs_pending() =~= self.jobs_submitted()
    }

    /// Builds a pool of exactly `size` workers, all running, wired to
    /// one fresh, empty shared queue whose producer handle the pool
    /// holds. A pool of zero workers could never drain its queue, so a
    /// zero size is a caller bug and is ruled out up front.
    pub fn new(size: usize) -> (pool: ThreadPool<J>)
        requires
            size >= 1,
        ensures
            pool.wf(),
            pool.size() == size,
            forall|i: int| 0 <= i < size ==> #[trigger] pool.worker_state(i) is Running,
            pool.num_running() == size,
            pool.is_accepting(),
            pool.jobs_pending() == Seq::<J>::empty(),
            pool.jobs_submitted() == Seq::<J>::empty(),
            pool.jobs_delivered() == Seq::<J>::empty(),
    {
        let mut workers: Vec<Worker> = Vec::new();
        let mut i: usize = 0;
        while i < size
            invariant
                i <= size,
                workers@.len() == i,
                forall|k: int|
                    0 <= k < i ==> (#[trigger] workers@[k]).id == k && workers@[k].state
                        is Running,
            decreases size - i,
        {
            workers.push(Worker { id: i, state: WorkerState::Running });
            i = i + 1;
        }
        proof {
            lemma_count_running_all(workers@);
            assert(Seq::<J>::empty() + Seq::<J>::empty() =~= Seq::<J>::empty());
        }
        ThreadPool {
            workers,
            queue: Vec::new(),
            accepting: true,
            submitted: Ghost(Seq::empty()),
            delivered: Ghost(Seq::empty()),
        }
    }

    /// Submits one job: it is appended to the shared queue and will be
    /// delivered to exactly one worker, after everything submitted
    /// before it. Submission never blocks and is only possible while
    /// the producer handle exists; submitting after shutdown has begun
    /// is a caller bug and is ruled out up front.
    pub fn execute(&mut self, job: J)
        requires
            old(self).wf(),
            old(self).is_accepting(),
        ensures
            final(self).wf(),
            final(self).jobs_submitted() == old(self).jobs_submitted().push(job),
            final(self).jobs_pending() == old(self).jobs_pending().push(job),
            final(self).jobs_delivered() == old(self).jobs_delivered(),
            final(self).workers@ == old(self).workers@,
            final(self).size() == old(self).size(),
            final(self).num_running() == old(self).num_running(),
            final(self).is_accepting(),
    {
        self.queue.push(job);
        self.submitted = Ghost(self.submitted@.push(job));
        proof {
            assert((old(self).delivered@ + old(self).queue@).push(job) =~= old(self).delivered@
                + old(self).queue@.push(job));
            assert(self.delivered@ + self.queue@ =~= self.submitted@);
        }
    }

    /// One observable receive by the worker at position `i`, which
    /// must still be running. The shared queue serializes its
    /// consumers, so exactly one worker observes any given job. While
    /// the queue is empty and the producer handle still exists the
    /// worker sits blocked inside the receive and nothing is
    /// observable, so this transition asks that a job is pending or
    /// that shutdown has begun. Then:
    /// - if a job is pending, the oldest one is delivered to this
    ///   worker and to no other, and the worker keeps running;
    /// - otherwise the worker observes the disconnect signal, stops,
    ///   and its thread exits.
    pub fn worker_receive(&mut self, i: usize) -> (received: Option<J>)
        requires
            old(self).wf(),
            i < old(self).size(),
            old(self).worker_state(i as int) is Running,
            old(self).jobs_pending().len() > 0 || !old(self).is_accepting(),
        ensures
            final(self).wf(),
            final(self).size() == old(self).size(),
            final(self).is_accepting() == old(self).is_accepting(),
            final(self).jobs_submitted() == old(self).jobs_submitted(),
            old(self).jobs_pending().len() > 0 ==> {
                &&& received == Some(old(self).jobs_pending()[0])
                &&& final(self).jobs_pending() =~= old(self).jobs_pending().drop_first()
                &&& final(self).jobs_delivered() == old(self).jobs_delivered().push(
                    old(self).jobs_pending()[0],
                )
                &&& final(self).workers@ == old(self).workers@
                &&& final(self).num_running() == old(self).num_running()
            },
            old(self).jobs_pending().len() == 0 ==> {
                &&& received is None
                &&& final(self).jobs_pending() == old(self).jobs_pending()
                &&& final(self).jobs_delivered() == old(self).jobs_delivered()
                &&& final(self).worker_state(i as int) is Stopped
                &&& forall|k: int|
                    0 <= k < old(self).size() && k != i ==> (#[trigger] final(self).worker_state(
                        k,
                    )) == old(self).worker_state(k)
                &&& final(self).num_running() == old(self).num_running() - 1
            },
    {
        if self.queue.len() > 0 {
            let job = self.queue.remove(0);
            self.delivered = Ghost(self.delivered@.push(job));
            proof {
                assert(self.queue@ =~= old(self).queue@.drop_first());
                assert(old(self).delivered@.push(old(self).queue@[0]) + old(
                    self,
                ).queue@.drop_first() =~= old(self).delivered@ + old(self).queue@);
                assert(self.delivered@ + self.queue@ =~= self.submitted@);
            }
            Some(job)
        } else {
            let stopped = Worker { id: i, state: WorkerState::Stopped };
            let slot = &mut self.workers[i];
            *slot = stopped;
            proof {
                lemma_count_running_update(old(self).workers@, i as int, stopped);
                assert(self.delivered@ + self.queue@ =~= self.submitted@);
            }
            None
        }
    }

    /// The worker at position `i` dies ungracefully: the job it was
    /// running panicked, and the panic is not caught, so the backing
    /// thread terminates with it. The job had already been delivered
    /// and is not re-queued; the pool simply keeps one fewer effective
    /// worker for the rest of its life.
    pub fn worker_failed(&mut self, i: usize)
        requires
            old(self).wf(),
            i < old(self).size(),
            old(self).worker_state(i as int) is Running,
        ensures
            final(self).wf(),
            final(self).size() == old(self).size(),
            final(self).is_accepting() == old(self).is_accepting(),
            final(self).jobs_pending() == old(self).jobs_pending(),
            final(self).jobs_submitted() == old(self).jobs_submitted(),
            final(self).jobs_delivered() == old(self).jobs_delivered(),
            final(self).worker_state(i as int) is Failed,
            forall|k: int|
                0 <= k < old(self).size() && k != i ==> (#[trigger] final(self).worker_state(k))
                    == old(self).worker_state(k),
            final(self).num_running() == old(self).num_running() - 1,
    {
        let failed = Worker { id: i, state: WorkerState::Failed };
        let slot = &mut self.workers[i];
        *slot = failed;
        proof {
            lemma_count_running_update(old(self).workers@, i as int, failed);
        }
    }

    /// Releases the producer handle. This is the sole shutdown signal:
    /// no stop message travels through the queue, and every job
    /// already pending is still delivered before any worker observes
    /// the disconnect. The call is idempotent; nothing else about the
    /// pool changes.
    pub fn shutdown(&mut self)
        ensures
            !final(self).is_accepting(),
            final(self).workers@ == old(self).workers@,
            final(self).size() == old(self).size(),
            final(self).num_running() == old(self).num_running(),
            final(self).jobs_pending() == old(self).jobs_pending(),
            final(self).jobs_submitted() == old(self).jobs_submitted(),
            final(self).jobs_delivered() == old(self).jobs_delivered(),
            old(self).wf() ==> final(self).wf(),
    {
        self.accepting = false;
    }

    /// The teardown wait, after the producer handle has been released:
    /// the caller blocks while the still-running workers first drain
    /// every pending job, in order, and then observe the disconnect
    /// signal one by one and stop. When it returns, no worker is
    /// running any more, the queue is empty, and every job ever
    /// submitted has been delivered to exactly one worker. The wait
    /// cannot make progress without a single running worker, so it
    /// asks for one unless the queue is already empty.
    pub fn drain(&mut self) -> (drained: Vec<J>)
        requires
            old(self).wf(),
            !old(self).is_accepting(),
            old(self).num_running() > 0 || old(self).jobs_pending().len() == 0,
        ensures
            final(self).wf(),
            final(self).size() == old(self).size(),
            !final(self).is_accepting(),
            final(self).num_running() == 0,
            final(self).jobs_pending().len() == 0,
            drained@ == old(self).jobs_pending(),
            final(self).jobs_submitted() == old(self).jobs_submitted(),
            final(self).jobs_delivered() == old(self).jobs_delivered() + old(self).jobs_pending(),
            final(self).jobs_delivered() =~= final(self).jobs_submitted(),
            forall|k: int|
                0 <= k < old(self).size() && old(self).worker_state(k) is Running ==> (
                #[trigger] final(self).worker_state(k)) is Stopped,
            forall|k: int|
                0 <= k < old(self).size() && !(old(self).worker_state(k) is Running) ==> (
                #[trigger] final(self).worker_state(k)) == old(self).worker_state(k),
    {
        let mut drained: Vec<J> = Vec::new();
        loop
            invariant
                self.wf(),
                !self.is_accepting(),
                self.size() == old(self).size(),
                self.jobs_submitted() == old(self).jobs_submitted(),
                old(self).jobs_pending() =~= drained@ + self.jobs_pending(),
                self.jobs_delivered() =~= old(self).jobs_delivered() + drained@,
                self.num_running() > 0 || self.jobs_pending().len() == 0,
                forall|k: int|
                    0 <= k < old(self).size() && old(self).worker_state(k) is Running ==> (
                    #[trigger] self.worker_state(k)) is Running || self.worker_state(k)
                        is Stopped,
                forall|k: int|
                    0 <= k < old(self).size() && !(old(self).worker_state(k) is Running) ==> (
                    #[trigger] self.worker_state(k)) == old(self).worker_state(k),
            ensures
                self.jobs_pending().len() == 0,
                self.num_running() == 0,
                forall|k: int|
                    0 <= k < self.size() ==> !((#[trigger] self.worker_state(k)) is Running),
            decreases self.jobs_pending().len() + self.num_running(),
        {
            proof {
                lemma_count_running_bounds(self.workers@);
            }
            match self.find_running() {
                None => {
                    proof {
                        assert forall|k: int| 0 <= k < self.workers@.len() implies !((
                        #[trigger] self.workers@[k]).state is Running) by {
                            assert(!(self.worker_state(k) is Running));
                        }
                        lemma_count_running_zero(self.workers@);
                    }
                    break ;
                },
                Some(i) => {
                    let ghost prev = *self;
                    let ghost prev_drained = drained@;
                    let received = self.worker_receive(i);
                    match received {
                        Some(job) => {
                            drained.push(job);
                            proof {
                                let first = prev.jobs_pending()[0];
                                assert(prev_drained.push(first) + prev.jobs_pending().drop_first()
                                    =~= prev_drained + prev.jobs_pending());
                                assert(old(self).jobs_pending() =~= drained@
                                    + self.jobs_pending());
                                assert((old(self).jobs_delivered() + prev_drained).push(first)
                                    =~= old(self).jobs_delivered() + prev_drained.push(first));
                                assert(self.jobs_delivered() =~= old(self).jobs_delivered()
                                    + drained@);
                            }
                        },
                        None => {},
                    }
                    proof {
                        assert forall|k: int|
                            0 <= k < old(self).size() && old(self).worker_state(k)
                                is Running implies ((#[trigger] self.worker_state(k)) is Running
                            || self.worker_state(k) is Stopped) by {
                            if prev.jobs_pending().len() > 0 {
                                assert(self.workers@ == prev.workers@);
                                assert(self.worker_state(k) == prev.worker_state(k));
                            } else if k != i as int {
                                assert(self.worker_state(k) == prev.worker_state(k));
                            }
                        }
                        assert forall|k: int|
                            0 <= k < old(self).size() && !(old(self).worker_state(k)
                                is Running) implies ((#[trigger] self.worker_state(k)) == old(
                            self,
                        ).worker_state(k)) by {
                            assert(prev.worker_state(k) == old(self).worker_state(k));
                            if prev.jobs_pending().len() > 0 {
                                assert(self.workers@ == prev.workers@);
                            } else {
                                assert(prev.worker_state(i as int) is Running);
                                assert(k != i as int);
                            }
                            assert(self.worker_state(k) == prev.worker_state(k));
                        }
                        lemma_count_running_bounds(self.workers@);
                        if prev.jobs_pending().len() > 0 {
                            assert(self.jobs_pending().len() == prev.jobs_pending().len() - 1);
                            assert(self.num_running() == prev.num_running());
                        } else {
                            assert(self.jobs_pending().len() == prev.jobs_pending().len());
                            assert(self.num_running() == prev.num_running() - 1);
                        }
                        assert(self.jobs_pending().len() + self.num_running() < prev.jobs_pending().len() + prev.num_running());
                    }
                },
            }
        }
        proof {
            assert(old(self).jobs_pending() =~= drained@);
            assert(self.jobs_delivered() =~= old(self).jobs_delivered() + old(
                self,
            ).jobs_pending());
        }
        drained
    }

    /// Looks for a worker that is still in its consumption loop.
    fn find_running(&self) -> (found: Option<usize>)
        ensures
            match found {
                Some(i) => i < self.size() && self.worker_state(i as int) is Running,
                None => forall|k: int|
                    0 <= k < self.size() ==> !(#[trigger] self.worker_state(k) is Running),
            },
    {
        let mut i: usize = 0;
        while i < self.workers.len()
            invariant
                i <= self.workers@.len(),
                forall|k: int| 0 <= k < i ==> !(#[trigger] self.worker_state(k) is Running),
            decreases self.workers@.len() - i,
        {
            if self.workers[i].state == WorkerState::Running {
                return Some(i);
            }
            i = i + 1;
        }
        None
    }

    /// Counts the workers that are still in their consumption loop.
    pub fn running_count(&self) -> (count: usize)
        ensures
            count == self.num_running(),
    {
        let mut count: usize = 0;
        let mut i: usize = 0;
        while i < self.workers.len()
            invariant
                i <= self.workers@.len(),
                count == count_running(self.workers@.subrange(0, i as int)),
                count <= i,
            decreases self.workers@.len() - i,
        {
            proof {
                let prefix = self.workers@.subrange(0, i as int);
                let extended = self.workers@.subrange(0, i as int + 1);
                assert(extended.drop_last() =~= prefix);
                assert(extended.last() == self.workers@[i as int]);
            }
            if self.workers[i].state == WorkerState::Running {
                count = count + 1;
            }
            i = i + 1;
        }
        proof {
            assert(self.workers@.subrange(0, self.workers@.len() as int) =~= self.workers@);
        }
        count
    }
}

/// Exactly-once dispatch, read off the well-formedness invariant: what
/// has been delivered is, in order, a prefix of what has been
/// submitted — so no job is delivered before it is submitted, none is
/// delivered twice, and delivery respects submission order. Once the
/// queue is empty, every submitted job has been delivered to exactly
/// one worker.
pub proof fn lemma_delivery_exactly_once<J>(pool: ThreadPool<J>)
    requires
        pool.wf(),
    ensures
        pool.jobs_delivered().len() <= pool.jobs_submitted().len(),
        pool.jobs_delivered() =~= pool.jobs_submitted().take(pool.jobs_delivered().len() as int),
        pool.jobs_pending().len() == 0 ==> pool.jobs_delivered() =~= pool.jobs_submitted(),
{
    assert(pool.jobs_delivered() + pool.jobs_pending() =~= pool.jobs_submitted());
}

} // verus!
