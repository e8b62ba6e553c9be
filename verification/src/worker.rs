//! One worker: a long-lived thread that repeatedly takes the next message
//! from the shared channel and acts on it.
//!
//! The worker's loop is a two-state machine: it runs until it dequeues a
//! terminate signal, and nothing else ends it. Its thread handle is modeled
//! as an explicit joinable/joined state so that "already joined" is
//! representable and disposal cannot join a thread twice.

use vstd::prelude::*;

use crate::message::Message;

verus! {

/// The state of a worker's loop: running until a terminate signal arrives,
/// then terminated for good.
#[derive(PartialEq, Eq, Structural, Clone, Copy, Debug)]
pub enum WorkerState {
    Running,
    Terminated,
}

/// Whether the worker's thread handle is still present or has been consumed
/// by the one join the pool performs during shutdown.
#[derive(PartialEq, Eq, Structural, Clone, Copy, Debug)]
pub enum HandleState {
    Joinable,
    Joined,
}

/// What a running worker does with one dequeued message: run the job it
/// names, or exit its loop.
#[derive(PartialEq, Eq, Structural, Clone, Copy, Debug)]
pub enum Action {
    RunJob(u64),
    Exit,
}

/// A worker: an integer identity for diagnostics, the state of its loop,
/// and the state of its thread handle.
#[derive(PartialEq, Eq, Structural, Clone, Copy, Debug)]
pub struct Worker {
    pub id: usize,
    pub state: WorkerState,
    pub handle: HandleState,
}

impl Worker {
    /// A worker's handle is consumed only after its loop has ended: the pool
    /// joins a thread only once it has been told to terminate.
    pub open spec fn wf(self) -> bool {
        self.handle is Joined ==> self.state is Terminated
    }

    /// Construction: the worker's thread is spawned at once, so it starts
    /// running, with its handle present.
    pub fn new(id: usize) -> (w: Worker)
        ensures
            w.id == id,
            w.state is Running,
            w.handle is Joinable,
            w.wf(),
    {
        Worker { id, state: WorkerState::Running, handle: HandleState::Joinable }
    }

    /// The body of the worker's loop: a job keeps the worker running and is
    /// executed exactly once, by this worker alone; a terminate signal ends
    /// the loop. Nothing else changes.
    pub fn handle_message(&mut self, m: Message) -> (a: Action)
        requires
            old(self).state is Running,
        ensures
            final(self).id == old(self).id,
            final(self).handle == old(self).handle,
            match m {
                Message::NewJob(j) => a == Action::RunJob(j) && final(self).state is Running,
                Message::Terminate => a == Action::Exit && final(self).state is Terminated,
            },
    {
        match m {
            Message::NewJob(j) => Action::RunJob(j),
            Message::Terminate => {
                self.state = WorkerState::Terminated;
                Action::Exit
            },
        }
    }

    /// Joining the worker's thread. The real join blocks until the thread
    /// has exited, so it returns only once the worker has terminated; the
    /// model states that as a precondition. Consumes the handle; joining an
    /// already-joined worker is a no-op, which makes disposal idempotent.
    pub fn join(&mut self)
        requires
            old(self).state is Terminated,
        ensures
            final(self).id == old(self).id,
            final(self).state == old(self).state,
            final(self).handle is Joined,
            final(self).wf(),
    {
        self.handle = HandleState::Joined;
    }

    pub fn get_id(&self) -> (id: usize)
        ensures
            id == self.id,
    {
        self.id
    }

    pub fn is_running(&self) -> (b: bool)
        ensures
            b == (self.state is Running),
    {
        matches!(self.state, WorkerState::Running)
    }

    pub fn is_joined(&self) -> (b: bool)
        ensures
            b == (self.handle is Joined),
    {
        matches!(self.handle, HandleState::Joined)
    }
}

} // verus!
