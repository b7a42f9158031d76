//! One worker: its identity and the two-state loop that it runs.

use vstd::prelude::*;
use crate::message::ControlMessage;

verus! {

/// The state of a worker's loop. `Terminated` is absorbing.
#[derive(Debug, Clone, Copy, PartialEq, Eq, Structural)]
pub enum WorkerState {
    Running,
    Terminated,
}

/// A worker of a pool, known by an identifier that is unique in its pool.
pub struct Worker {
    id: usize,
    state: WorkerState,
}

impl Worker {
    pub closed spec fn spec_id(&self) -> usize {
        self.id
    }

    pub closed spec fn spec_state(&self) -> WorkerState {
        self.state
    }

    /// A worker about to enter its loop.
    pub fn new(id: usize) -> (worker: Self)
        ensures
            worker.id() == id,
            worker.state() is Running,
    {
        Worker { id, state: WorkerState::Running }
    }

    #[verifier::when_used_as_spec(spec_id)]
    pub fn id(&self) -> (id: usize)
        ensures
            id == self.spec_id(),
    {
        self.id
    }

    #[verifier::when_used_as_spec(spec_state)]
    pub fn state(&self) -> (state: WorkerState)
        ensures
            state == self.spec_state(),
    {
        self.state
    }

    pub fn is_running(&self) -> (running: bool)
        ensures
            running == (self.state() is Running),
    {
        match self.state {
            WorkerState::Running => true,
            WorkerState::Terminated => false,
        }
    }

    /// Acts on a message that this worker has taken off the channel, after it
    /// has let go of the channel. A running worker executes a work item to its
    /// end and keeps running; on `Terminate` it leaves its loop. A worker that
    /// has left its loop executes nothing and stays out.
    pub fn handle<F: FnOnce()>(&mut self, message: ControlMessage<F>)
        requires
            message matches ControlMessage::Work(job) ==> call_requires(job, ()),
        ensures
            final(self).id() == old(self).id(),
            final(self).state() == if message is Terminate {
                WorkerState::Terminated
            } else {
                old(self).state()
            },
            old(self).state() is Running ==> (message matches ControlMessage::Work(job)
                ==> call_ensures(job, (), ())),
    {
        match message {
            ControlMessage::Work(job) => {
                if self.is_running() {
                    job();
                }
            },
            ControlMessage::Terminate => {
                self.state = WorkerState::Terminated;
            },
        }
    }

    /// Leaves the loop without a message: the step for a worker that finds
    /// the guard of the channel poisoned, which is fatal to its loop.
    pub fn abort(&mut self)
        ensures
            final(self).id() == old(self).id(),
            final(self).state() is Terminated,
    {
        self.state = WorkerState::Terminated;
    }
}

} // verus!
