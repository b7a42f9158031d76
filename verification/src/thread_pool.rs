//! The pool itself: a fixed set of workers behind one dispatch channel, with
//! submission and an orderly teardown.
//!
//! The pool holds the state and the rules, and starts no thread. A worker
//! makes progress when it is given a turn, and teardown gives the turns that
//! are still owed. Every operation is a step, or a short run, of the
//! transition system in `model`, so that what `laws` proves of all runs
//! holds of what this pool does. A runtime that gives each worker a thread
//! of its own builds on `Worker`, `ControlMessage` and `Teardown` instead.

use vstd::prelude::*;
use crate::channel::{DispatchChannel, DispatchFailure};
use crate::message::{sentinels, ControlMessage};
use crate::model::{
    counts_when_all_idle, counts_when_all_terminated, live_count, Phase, PoolState,
};
use crate::teardown::{Teardown, TeardownStep};
use crate::worker::{Worker, WorkerState};

verus! {

/// What came of offering a worker one iteration of its loop.
#[derive(Debug, Clone, Copy, PartialEq, Eq, Structural)]
pub enum Turn {
    /// The worker took a work item off the channel and executed it.
    Ran,
    /// The channel was empty: the worker would have waited.
    Blocked,
    /// No worker with this identifier is in its loop.
    Stopped,
}

/// The phase in which a worker in `state` rests between two turns.
pub open spec fn phase<W>(state: WorkerState) -> Phase<W> {
    match state {
        WorkerState::Running => Phase::Idle,
        WorkerState::Terminated => Phase::Terminated,
    }
}

/// Every work item in `queue` may be called.
pub open spec fn ready<F: FnOnce()>(queue: Seq<ControlMessage<F>>) -> bool {
    forall|i: int|
        0 <= i < queue.len() ==> (#[trigger] queue[i] matches ControlMessage::Work(job)
            ==> call_requires(job, ()))
}

/// Every work item in `queue` has been called and has returned.
pub open spec fn executed<F: FnOnce()>(queue: Seq<ControlMessage<F>>) -> bool {
    forall|i: int|
        0 <= i < queue.len() ==> (#[trigger] queue[i] matches ControlMessage::Work(job)
            ==> call_ensures(job, (), ()))
}

/// A pool of a fixed number of workers that execute submitted work items,
/// each once, in the order of submission.
pub struct ThreadPool<F> {
    workers: Vec<Worker>,
    channel: DispatchChannel<F>,
    teardown: Teardown,
}

impl<F> View for ThreadPool<F> {
    type V = PoolState<F>;

    closed spec fn view(&self) -> PoolState<F> {
        PoolState {
            queue: self.channel@.queue,
            workers: Seq::new(self.workers@.len(), |i: int| phase(self.workers@[i].state())),
            terminates_sent: self.teardown.sent(),
        }
    }
}

impl<F: FnOnce()> ThreadPool<F> {
    /// What holds of a pool at every moment of its teardown and outside it.
    spec fn coherent(&self) -> bool {
        &&& self.workers@.len() >= 1
        &&& self.teardown.wf()
        &&& self.teardown.size() == self.workers@.len()
        &&& forall|i: int| 0 <= i < self.workers@.len() ==> (#[trigger] self.workers@[i]).id() == i
        &&& forall|i: int|
            0 <= i < self.workers@.len() ==> ((#[trigger] self.workers@[i]).state() is Terminated
                <==> i < self.teardown.joined())
        &&& self.channel@.consumers == self.workers@.len() - self.teardown.joined()
        &&& ready(self.channel@.queue)
    }

    /// The pool is either in service, with every worker in its loop and no
    /// sentinel queued, or torn down, with nothing queued and nobody left.
    pub closed spec fn wf(&self) -> bool {
        &&& self.coherent()
        &&& self.teardown.joined() == 0 || self.teardown.joined() == self.teardown.size()
        &&& self.teardown.joined() == 0 ==> {
            &&& self.teardown.sent() == 0
            &&& forall|i: int|
                0 <= i < self.channel@.queue.len() ==> #[trigger] self.channel@.queue[i] is Work
        }
        &&& self.teardown.joined() > 0 ==> self.channel@.queue.len() == 0
    }

    /// What a well-formed pool looks like from outside.
    pub proof fn wf_view(&self)
        requires
            self.wf(),
        ensures
            self@.size() >= 1,
            self@.in_service() || self@ == PoolState::<F>::closed(self@.size()),
            ready(self@.queue),
    {
        if self.teardown.joined() > 0 {
            assert(self@.queue =~= Seq::empty());
            assert(self@.workers =~= PoolState::<F>::closed(self@.size()).workers);
        } else {
            assert(self@.alive(0));
        }
    }

    /// A pool of `size` workers, all in their loops, with nothing queued.
    pub fn new(size: usize) -> (pool: Self)
        requires
            size >= 1,
        ensures
            pool.wf(),
            pool@ == PoolState::<F>::init(size as nat),
    {
        let mut workers: Vec<Worker> = Vec::new();
        let mut id: usize = 0;
        while id < size
            invariant
                id <= size,
                workers@.len() == id,
                forall|i: int| 0 <= i < id ==> (#[trigger] workers@[i]).id() == i,
                forall|i: int| 0 <= i < id ==> (#[trigger] workers@[i]).state() is Running,
            decreases size - id,
        {
            workers.push(Worker::new(id));
            id = id + 1;
        }
        let pool = ThreadPool {
            workers,
            channel: DispatchChannel::new(size),
            teardown: Teardown::new(size),
        };
        assert(pool@.workers =~= PoolState::<F>::init(size as nat).workers);
        pool
    }

    /// A pool of `size` workers, or nothing where `size` is zero: a pool
    /// without workers could never execute anything.
    pub fn try_new(size: usize) -> (pool: Option<Self>)
        ensures
            pool is Some <==> size >= 1,
            pool matches Some(pool) ==> pool.wf() && pool@ == PoolState::<F>::init(size as nat),
    {
        if size >= 1 {
            Some(Self::new(size))
        } else {
            None
        }
    }

    /// The number of workers that the pool was made with.
    pub fn size(&self) -> (size: usize)
        requires
            self.wf(),
        ensures
            size == self@.size(),
    {
        self.workers.len()
    }

    /// The number of workers that are in their loops.
    pub fn live_workers(&self) -> (live: usize)
        requires
            self.wf(),
        ensures
            live == live_count(self@.workers),
    {
        proof {
            if self.teardown.joined() > 0 {
                counts_when_all_terminated(self@.workers);
            } else {
                counts_when_all_idle(self@.workers);
            }
        }
        self.channel.consumers()
    }

    /// The number of work items that wait for a worker.
    pub fn pending(&self) -> (pending: usize)
        requires
            self.wf(),
        ensures
            pending == self@.queue.len(),
    {
        self.channel.len()
    }

    /// Enqueues `job` behind everything already submitted and returns at
    /// once, or refuses it when the pool has been torn down.
    pub fn submit(&mut self, job: F) -> (accepted: Result<(), DispatchFailure>)
        requires
            old(self).wf(),
            call_requires(job, ()),
        ensures
            final(self).wf(),
            accepted is Ok <==> old(self)@.has_consumer(),
            accepted is Ok ==> final(self)@ == old(self)@.submit(job),
            accepted is Err ==> final(self)@ == old(self)@,
    {
        proof {
            self.wf_view();
            if self.teardown.joined() > 0 {
                assert forall|id: int| !self@.alive(id) by {}
            } else {
                assert(self@.alive(0));
            }
        }
        let accepted = self.channel.send(ControlMessage::Work(job));
        proof {
            if accepted is Ok {
                assert(final(self)@.workers =~= old(self)@.workers);
            }
        }
        accepted
    }

    /// Enqueues `job` on a pool that is in service.
    pub fn execute(&mut self, job: F)
        requires
            old(self).wf(),
            old(self)@.has_consumer(),
            call_requires(job, ()),
        ensures
            final(self).wf(),
            final(self)@ == old(self)@.submit(job),
    {
        let _ = self.submit(job);
    }

    /// Offers worker `id` one iteration of its loop: it takes the oldest
    /// message while it holds the channel, lets go of the channel, and only
    /// then executes the work item.
    pub fn turn(&mut self, id: usize) -> (turn: Turn)
        requires
            old(self).wf(),
        ensures
            final(self).wf(),
            !old(self)@.alive(id as int) ==> turn == Turn::Stopped && final(self)@ == old(self)@,
            old(self)@.alive(id as int) && old(self)@.queue.len() == 0 ==> turn == Turn::Blocked
                && final(self)@ == old(self)@,
            old(self)@.alive(id as int) && old(self)@.queue.len() > 0 ==> {
                &&& turn == Turn::Ran
                &&& old(self)@.can_take(id as int)
                &&& old(self)@.take(id as int).can_finish(id as int)
                &&& final(self)@ == old(self)@.take(id as int).finish(id as int)
                &&& old(self)@.queue.first() matches ControlMessage::Work(job)
                    && call_ensures(job, (), ())
            },
    {
        if id >= self.workers.len() || !self.workers[id].is_running() {
            return Turn::Stopped;
        }
        match self.channel.recv() {
            None => Turn::Blocked,
            Some(message) => {
                assert(message == old(self)@.queue[0]);
                self.workers[id].handle(message);
                proof {
                    assert forall|i: int| 0 <= i < self.channel@.queue.len() implies (
                        #[trigger] self.channel@.queue[i]
                    ) == old(self)@.queue[i + 1] by {}
                    assert(final(self)@.workers =~= old(self)@.take(id as int).finish(
                        id as int,
                    ).workers);
                }
                Turn::Ran
            },
        }
    }

    /// Gives worker `id` turns until it has left its loop: it executes the
    /// work that stands in front of the sentinels, then takes one sentinel.
    fn join(&mut self, id: usize, Ghost(work): Ghost<nat>)
        requires
            old(self).workers@.len() >= 1,
            id < old(self).workers@.len(),
            old(self).workers@[id as int].state() is Running,
            ready(old(self).channel@.queue),
            work < old(self).channel@.queue.len(),
            forall|i: int| 0 <= i < work ==> #[trigger] old(self).channel@.queue[i] is Work,
            forall|i: int|
                work <= i < old(self).channel@.queue.len()
                    ==> #[trigger] old(self).channel@.queue[i] is Terminate,
        ensures
            final(self).teardown == old(self).teardown,
            final(self).workers@.len() == old(self).workers@.len(),
            forall|i: int|
                0 <= i < old(self).workers@.len() ==> (#[trigger] final(self).workers@[i]).id()
                    == old(self).workers@[i].id(),
            forall|i: int|
                0 <= i < old(self).workers@.len() && i != id
                    ==> (#[trigger] final(self).workers@[i]).state()
                    == old(self).workers@[i].state(),
            final(self).workers@[id as int].state() is Terminated,
            final(self).channel@.consumers == if old(self).channel@.consumers > 0 {
                old(self).channel@.consumers - 1
            } else {
                0
            },
            final(self).channel@.queue == sentinels::<F>(
                (old(self).channel@.queue.len() - work - 1) as nat,
            ),
            executed(old(self).channel@.queue),
    {
        let ghost queued = self.channel@.queue;
        while self.workers[id].is_running()
            invariant
                id < self.workers@.len(),
                self.teardown == old(self).teardown,
                self.workers@.len() == old(self).workers@.len(),
                forall|i: int|
                    0 <= i < self.workers@.len() ==> (#[trigger] self.workers@[i]).id()
                        == old(self).workers@[i].id(),
                forall|i: int|
                    0 <= i < self.workers@.len() && i != id
                        ==> (#[trigger] self.workers@[i]).state()
                        == old(self).workers@[i].state(),
                self.channel@.consumers == old(self).channel@.consumers,
                queued == old(self).channel@.queue,
                work < queued.len(),
                ready(queued),
                forall|i: int| 0 <= i < work ==> #[trigger] queued[i] is Work,
                forall|i: int| work <= i < queued.len() ==> #[trigger] queued[i] is Terminate,
                self.channel@.queue.len() <= queued.len(),
                self.channel@.queue == queued.skip(queued.len() - self.channel@.queue.len()),
                executed(queued.take(queued.len() - self.channel@.queue.len())),
                self.workers@[id as int].state() is Running ==> self.channel@.queue.len()
                    >= queued.len() - work,
                self.workers@[id as int].state() is Terminated ==> self.channel@.queue.len()
                    == queued.len() - work - 1,
            decreases self.channel@.queue.len(),
        {
            let ghost before = self.channel@.queue;
            let ghost taken = queued.len() - before.len();
            match self.channel.recv() {
                Some(message) => {
                    assert(message == queued[taken]);
                    self.workers[id].handle(message);
                    proof {
                        assert(self.channel@.queue == queued.skip(taken + 1));
                        assert forall|i: int| 0 <= i < taken + 1 implies (
                            #[trigger] queued.take(taken + 1)[i] matches ControlMessage::Work(job)
                                ==> call_ensures(job, (), ())
                        ) by {
                            if i < taken {
                                assert(queued.take(taken)[i] == queued[i]);
                            }
                        }
                    }
                },
                None => {},
            }
        }
        self.channel.release();
        proof {
            assert(self.channel@.queue =~= sentinels::<F>((queued.len() - work - 1) as nat));
            assert forall|i: int| 0 <= i < queued.len() implies (
                #[trigger] queued[i] matches ControlMessage::Work(job)
                    ==> call_ensures(job, (), ())
            ) by {
                if i < work {
                    assert(queued.take(work as int + 1)[i] == queued[i]);
                }
            }
        }
    }

    /// Tears the pool down and returns once every worker has left its loop.
    /// One sentinel per worker is enqueued before any worker is joined; the
    /// workers are then joined in the order of their identifiers. Every work
    /// item that was waiting is executed first. On a pool that has been torn
    /// down this does nothing.
    pub fn shutdown(&mut self)
        requires
            old(self).wf(),
        ensures
            final(self).wf(),
            final(self)@ == PoolState::<F>::closed(old(self)@.size()),
            executed(old(self)@.queue),
    {
        let ghost waiting = self.channel@.queue;
        loop
            invariant
                self.coherent(),
                self.workers@.len() == old(self).workers@.len(),
                waiting == old(self)@.queue,
                forall|i: int| 0 <= i < waiting.len() ==> #[trigger] waiting[i] is Work,
                self.teardown.joined() == 0 ==> self.channel@.queue == waiting
                    + sentinels::<F>(self.teardown.sent()),
                self.teardown.joined() > 0 ==> executed(waiting) && self.channel@.queue
                    == sentinels::<F>((self.teardown.size() - self.teardown.joined()) as nat),
            ensures
                self.coherent(),
                self.workers@.len() == old(self).workers@.len(),
                self.teardown.sent() == self.teardown.size(),
                self.teardown.joined() == self.teardown.size(),
                executed(waiting),
                self.channel@.queue.len() == 0,
            decreases 2 * self.teardown.size() - self.teardown.sent() - self.teardown.joined(),
        {
            let ghost queue = self.channel@.queue;
            match self.teardown.next() {
                TeardownStep::SendTerminate => {
                    let _ = self.channel.send(ControlMessage::Terminate);
                    assert(self.channel@.queue =~= waiting + sentinels::<F>(self.teardown.sent()));
                },
                TeardownStep::Join(id) => {
                    let ghost work: nat = if id == 0 {
                        waiting.len()
                    } else {
                        0
                    };
                    self.join(id, Ghost(work));
                    proof {
                        assert(self.channel@.queue =~= sentinels::<F>(
                            (self.teardown.size() - self.teardown.joined()) as nat,
                        ));
                        if id == 0 {
                            assert forall|i: int| 0 <= i < waiting.len() implies (
                                #[trigger] waiting[i] matches ControlMessage::Work(job)
                                    ==> call_ensures(job, (), ())
                            ) by {
                                assert(queue[i] == waiting[i]);
                            }
                        }
                    }
                },
                TeardownStep::Done => {
                    break;
                },
            }
        }
        proof {
            assert(final(self)@.queue =~= Seq::empty());
            assert(final(self)@.workers =~= PoolState::<F>::closed(old(self)@.size()).workers);
        }
    }
}

} // verus!
