//! Workers: the consuming half of the pool.
//!
//! A worker is one long-lived execution thread together with its
//! consumption loop. The loop blocks on the shared queue; each time the
//! queue hands something back, the worker either runs the delivered job
//! to completion or, on the disconnect signal, exits for good. The
//! decision taken at the head of that loop is pure and is verified
//! here; the blocking receive itself, and the thread that hosts the
//! loop, live outside the verified library.

use vstd::prelude::*;

verus! {

/// The lifecycle of a worker's backing thread.
#[derive(Clone, Copy, PartialEq, Eq, Structural, Debug)]
pub enum WorkerState {
    /// The initial state: the loop is consuming jobs from the shared
    /// queue, blocking while the queue is empty and still open.
    Running,
    /// The terminal clean state, reached only by the loop itself when
    /// it observes the disconnect signal: the queue is empty and the
    /// producer handle is gone.
    Stopped,
    /// The ungraceful end: a job panicked while the worker ran it, and
    /// the backing thread died with it. The pool is left with one
    /// fewer effective worker; joining such a worker at teardown is a
    /// fatal condition.
    Failed,
}

/// One pool-owned worker: an ordinal identity and the state of its
/// consumption loop. A worker holds no other state between jobs.
#[derive(Clone, Copy, PartialEq, Eq, Structural, Debug)]
pub struct Worker {
    /// The worker's ordinal id, fixed at construction.
    pub id: usize,
    /// Where the worker's loop stands.
    pub state: WorkerState,
}

/// What one blocking receive on the shared queue hands back to a
/// worker: either exactly one job, or the disconnect signal (the queue
/// is empty and the producer handle no longer exists).
pub enum WorkerEvent<J> {
    Delivered(J),
    Disconnected,
}

/// What the worker's loop does next with what it received.
pub enum WorkerAction<J> {
    /// Invoke the job synchronously to completion on this thread, then
    /// loop back to receive again.
    Run(J),
    /// Leave the loop and let the thread exit.
    Exit,
}

/// The decision at the head of the worker's loop: a delivered job is
/// run, the disconnect signal ends the loop. Nothing else ever stops a
/// worker from the outside.
pub fn worker_decide<J>(event: WorkerEvent<J>) -> (action: WorkerAction<J>)
    ensures
        match event {
            WorkerEvent::Delivered(job) => action == WorkerAction::Run(job),
            WorkerEvent::Disconnected => action == WorkerAction::<J>::Exit,
        },
{
    match event {
        WorkerEvent::Delivered(job) => WorkerAction::Run(job),
        WorkerEvent::Disconnected => WorkerAction::Exit,
    }
}

} // verus!
