//! The order of a pool's teardown: what its owner does next, step by step.

use vstd::prelude::*;

verus! {

/// What the owner of a pool does next while tearing it down.
#[derive(Debug, Clone, Copy, PartialEq, Eq, Structural)]
pub enum TeardownStep {
    /// Enqueue one `Terminate` sentinel.
    SendTerminate,
    /// Wait until the worker with this identifier has left its loop.
    Join(usize),
    /// Nothing is left to do.
    Done,
}

/// The progress of a teardown of `size` workers. It sends one sentinel per
/// worker in a first pass, and only then joins the workers, in the order of
/// their identifiers.
pub struct Teardown {
    size: usize,
    sent: usize,
    joined: usize,
}

impl Teardown {
    pub closed spec fn size(&self) -> nat {
        self.size as nat
    }

    /// How many sentinels have been handed out for sending.
    pub closed spec fn sent(&self) -> nat {
        self.sent as nat
    }

    /// How many joins have been handed out.
    pub closed spec fn joined(&self) -> nat {
        self.joined as nat
    }

    /// No join is handed out before every sentinel has been.
    pub open spec fn wf(&self) -> bool {
        &&& self.sent() <= self.size()
        &&& self.joined() <= self.size()
        &&& self.joined() > 0 ==> self.sent() == self.size()
    }

    /// A teardown that has not begun.
    pub fn new(size: usize) -> (teardown: Self)
        ensures
            teardown.wf(),
            teardown.size() == size,
            teardown.sent() == 0,
            teardown.joined() == 0,
    {
        Teardown { size, sent: 0, joined: 0 }
    }

    /// Whether the first step has been handed out.
    pub fn begun(&self) -> (begun: bool)
        ensures
            begun == (self.sent() > 0),
    {
        self.sent > 0
    }

    /// Whether every step has been handed out.
    pub fn finished(&self) -> (finished: bool)
        ensures
            finished == (self.sent() == self.size() && self.joined() == self.size()),
    {
        self.sent == self.size && self.joined == self.size
    }

    /// Hands out the next step. The owner carries it out to its end before it
    /// asks for another.
    pub fn next(&mut self) -> (step: TeardownStep)
        requires
            old(self).wf(),
        ensures
            final(self).wf(),
            final(self).size() == old(self).size(),
            old(self).sent() < old(self).size() ==> {
                &&& step == TeardownStep::SendTerminate
                &&& final(self).sent() == old(self).sent() + 1
                &&& final(self).joined() == old(self).joined()
            },
            old(self).sent() == old(self).size() && old(self).joined() < old(self).size() ==> {
                &&& step matches TeardownStep::Join(id) && id == old(self).joined()
                &&& final(self).sent() == old(self).sent()
                &&& final(self).joined() == old(self).joined() + 1
            },
            old(self).sent() == old(self).size() && old(self).joined() == old(self).size() ==> {
                &&& step == TeardownStep::Done
                &&& final(self).sent() == old(self).sent()
                &&& final(self).joined() == old(self).joined()
            },
    {
        if self.sent < self.size {
            self.sent = self.sent + 1;
            TeardownStep::SendTerminate
        } else if self.joined < self.size {
            let id = self.joined;
            self.joined = self.joined + 1;
            TeardownStep::Join(id)
        } else {
            TeardownStep::Done
        }
    }
}

} // verus!
