//! The pool as a transition system: the state that the owner and the workers
//! share, and the atomic steps that any of them can take.

use vstd::multiset::Multiset;
use vstd::prelude::*;
use crate::message::ControlMessage;

verus! {

/// Where one worker stands in its loop.
pub enum Phase<W> {
    /// Running, and waiting for its next message.
    Idle,
    /// Running, and executing the work item it has received.
    Busy(W),
    /// Out of its loop for good.
    Terminated,
}

/// The state of a pool: the messages in flight, every worker's phase, and how
/// far the owner has gone in sending out `Terminate` sentinels.
pub struct PoolState<W> {
    pub queue: Seq<ControlMessage<W>>,
    pub workers: Seq<Phase<W>>,
    pub terminates_sent: nat,
}

/// One atomic step of the pool.
pub enum Step<W> {
    /// The owner enqueues a work item.
    Submit(W),
    /// The owner enqueues one `Terminate` sentinel.
    SendTerminate,
    /// A worker holds the consuming end just long enough to take the head of
    /// the queue.
    Take(nat),
    /// A worker completes the work item it was executing.
    Finish(nat),
}

impl<W> PoolState<W> {
    /// The pool right after construction with `size` workers.
    pub open spec fn init(size: nat) -> Self {
        PoolState {
            queue: Seq::empty(),
            workers: Seq::new(size, |i: int| Phase::Idle),
            terminates_sent: 0,
        }
    }

    /// The pool once teardown is over: nothing queued, nobody alive.
    pub open spec fn closed(size: nat) -> Self {
        PoolState {
            queue: Seq::empty(),
            workers: Seq::new(size, |i: int| Phase::Terminated),
            terminates_sent: size,
        }
    }

    /// The number of workers, which never changes.
    pub open spec fn size(self) -> nat {
        self.workers.len()
    }

    /// Worker `id` exists and has not left its loop.
    pub open spec fn alive(self, id: int) -> bool {
        0 <= id < self.workers.len() && !(self.workers[id] is Terminated)
    }

    /// Some worker still holds the consuming end of the channel.
    pub open spec fn has_consumer(self) -> bool {
        exists|id: int| self.alive(id)
    }

    /// Every worker has left its loop.
    pub open spec fn all_terminated(self) -> bool {
        forall|id: int| 0 <= id < self.workers.len() ==> self.workers[id] is Terminated
    }

    /// The pool is in service: every worker is in its loop and no sentinel
    /// has been sent.
    pub open spec fn in_service(self) -> bool {
        &&& self.terminates_sent == 0
        &&& forall|id: int| 0 <= id < self.workers.len() ==> self.alive(id)
        &&& forall|i: int| 0 <= i < self.queue.len() ==> #[trigger] self.queue[i] is Work
    }

    /// Teardown has begun.
    pub open spec fn draining(self) -> bool {
        self.terminates_sent > 0
    }

    /// The owner appends `item` to the queue.
    pub open spec fn submit(self, item: W) -> Self {
        PoolState { queue: self.queue.push(ControlMessage::Work(item)), ..self }
    }

    /// The owner appends one sentinel to the queue.
    pub open spec fn send_terminate(self) -> Self {
        PoolState {
            queue: self.queue.push(ControlMessage::Terminate),
            terminates_sent: self.terminates_sent + 1,
            ..self
        }
    }

    /// Worker `id` waits for a message and one is there.
    pub open spec fn can_take(self, id: int) -> bool {
        &&& 0 <= id < self.workers.len()
        &&& self.workers[id] is Idle
        &&& self.queue.len() > 0
    }

    /// Worker `id` takes the head of the queue: a work item makes it busy,
    /// a sentinel makes it leave its loop. This one step is the whole of the
    /// worker's exclusive hold on the consuming end, so no two workers ever
    /// hold it together, and none holds it while it executes.
    pub open spec fn take(self, id: int) -> Self {
        PoolState {
            queue: self.queue.skip(1),
            workers: self.workers.update(
                id,
                match self.queue.first() {
                    ControlMessage::Work(item) => Phase::Busy(item),
                    ControlMessage::Terminate => Phase::Terminated,
                },
            ),
            ..self
        }
    }

    /// Worker `id` is executing a work item.
    pub open spec fn can_finish(self, id: int) -> bool {
        0 <= id < self.workers.len() && self.workers[id] is Busy
    }

    /// Worker `id` ends the work item it was executing and waits again.
    pub open spec fn finish(self, id: int) -> Self {
        PoolState { workers: self.workers.update(id, Phase::Idle), ..self }
    }

    /// Whether `step` can be taken in this state. A submission needs a live
    /// consumer; the owner sends at most one sentinel per worker.
    pub open spec fn enabled(self, step: Step<W>) -> bool {
        match step {
            Step::Submit(_) => self.has_consumer(),
            Step::SendTerminate => self.terminates_sent < self.workers.len(),
            Step::Take(id) => self.can_take(id as int),
            Step::Finish(id) => self.can_finish(id as int),
        }
    }

    /// The state after `step`.
    pub open spec fn next(self, step: Step<W>) -> Self {
        match step {
            Step::Submit(item) => self.submit(item),
            Step::SendTerminate => self.send_terminate(),
            Step::Take(id) => self.take(id as int),
            Step::Finish(id) => self.finish(id as int),
        }
    }
}

/// What a worker in `phase` adds to the number of live workers.
pub open spec fn presence<W>(phase: Phase<W>) -> nat {
    match phase {
        Phase::Terminated => 0,
        _ => 1,
    }
}

/// What a worker in `phase` adds to the work in flight.
pub open spec fn load<W>(phase: Phase<W>) -> Multiset<W> {
    match phase {
        Phase::Busy(item) => Multiset::singleton(item),
        _ => Multiset::empty(),
    }
}

/// How many of `workers` have not left their loop.
pub open spec fn live_count<W>(workers: Seq<Phase<W>>) -> nat
    decreases workers.len(),
{
    if workers.len() == 0 {
        0
    } else {
        live_count(workers.drop_last()) + presence(workers.last())
    }
}

/// The work items that `workers` are executing at this moment.
pub open spec fn in_flight<W>(workers: Seq<Phase<W>>) -> Multiset<W>
    decreases workers.len(),
{
    if workers.len() == 0 {
        Multiset::empty()
    } else {
        in_flight(workers.drop_last()).add(load(workers.last()))
    }
}

/// Changing one worker's phase changes the counts by that worker's share.
pub proof fn counts_after_update<W>(workers: Seq<Phase<W>>, id: int, phase: Phase<W>)
    requires
        0 <= id < workers.len(),
    ensures
        live_count(workers.update(id, phase)) + presence(workers[id]) == live_count(workers)
            + presence(phase),
        in_flight(workers.update(id, phase)).add(load(workers[id]))
            =~= in_flight(workers).add(load(phase)),
    decreases workers.len(),
{
    let updated = workers.update(id, phase);
    let rest = workers.drop_last();
    if id == workers.len() - 1 {
        assert(updated.drop_last() == rest);
        assert(in_flight(rest).add(load(phase)).add(load(workers[id]))
            =~= in_flight(rest).add(load(workers[id])).add(load(phase)));
    } else {
        assert(updated.drop_last() == rest.update(id, phase));
        counts_after_update(rest, id, phase);
        let last = load(workers.last());
        let changed = in_flight(rest.update(id, phase));
        assert(changed.add(last).add(load(workers[id]))
            =~= changed.add(load(rest[id])).add(last));
        assert(in_flight(rest).add(load(phase)).add(last)
            =~= in_flight(rest).add(last).add(load(phase)));
    }
}

/// No more workers are alive than there are, and a live worker counts.
pub proof fn counts_of_member<W>(workers: Seq<Phase<W>>, id: int)
    requires
        0 <= id < workers.len(),
    ensures
        live_count(workers) <= workers.len(),
        live_count(workers) >= presence(workers[id]),
    decreases workers.len(),
{
    if workers.len() > 1 {
        if id == workers.len() - 1 {
            counts_of_member(workers.drop_last(), 0);
        } else {
            counts_of_member(workers.drop_last(), id);
        }
    } else {
        assert(live_count(workers.drop_last()) == 0);
    }
}

/// Where nobody is left, nobody counts and nothing is in flight.
pub proof fn counts_when_all_terminated<W>(workers: Seq<Phase<W>>)
    requires
        forall|id: int| 0 <= id < workers.len() ==> workers[id] is Terminated,
    ensures
        live_count(workers) == 0,
        in_flight(workers) =~= Multiset::empty(),
    decreases workers.len(),
{
    if workers.len() > 0 {
        counts_when_all_terminated(workers.drop_last());
    }
}

/// Where every worker waits, every worker counts and nothing is in flight.
pub proof fn counts_when_all_idle<W>(workers: Seq<Phase<W>>)
    requires
        forall|id: int| 0 <= id < workers.len() ==> workers[id] is Idle,
    ensures
        live_count(workers) == workers.len(),
        in_flight(workers) =~= Multiset::empty(),
    decreases workers.len(),
{
    if workers.len() > 0 {
        counts_when_all_idle(workers.drop_last());
    }
}

} // verus!
