//! What holds of every run of the pool, whatever the order in which the
//! owner and the workers take their steps.

use vstd::multiset::Multiset;
use vstd::prelude::*;
use vstd::seq_lib::to_multiset_build;
use crate::message::{
    leading_work, leading_work_push, leading_work_without_terminates, sentinels, terminates,
    terminates_bounded, work_items, work_items_push, work_items_skip, ControlMessage,
};
use crate::model::{
    counts_after_update, counts_of_member, counts_when_all_idle, counts_when_all_terminated,
    in_flight, live_count, load, Phase, PoolState, Step,
};

verus! {

/// A run in progress: the state it has reached and what has happened on the
/// way there.
pub struct Execution<W> {
    pub state: PoolState<W>,
    /// Every work item that was accepted, in the order of submission.
    pub accepted: Seq<W>,
    /// Every work item that a worker took, in the order of taking.
    pub dispatched: Seq<W>,
    /// Every work item whose execution has ended, in the order of ending.
    pub finished: Seq<W>,
    /// How many work items had been accepted when teardown began.
    pub cutoff: nat,
}

impl<W> Execution<W> {
    /// The run of a new pool of `size` workers, before its first step.
    pub open spec fn start(size: nat) -> Self {
        Execution {
            state: PoolState::init(size),
            accepted: Seq::empty(),
            dispatched: Seq::empty(),
            finished: Seq::empty(),
            cutoff: 0,
        }
    }

    /// The run after one more step.
    pub open spec fn advance(self, step: Step<W>) -> Self {
        let state = self.state.next(step);
        match step {
            Step::Submit(item) => Execution { state, accepted: self.accepted.push(item), ..self },
            Step::SendTerminate => Execution {
                state,
                cutoff: if self.state.draining() {
                    self.cutoff
                } else {
                    self.accepted.len()
                },
                ..self
            },
            Step::Take(id) => match self.state.queue.first() {
                ControlMessage::Work(item) => Execution {
                    state,
                    dispatched: self.dispatched.push(item),
                    ..self
                },
                ControlMessage::Terminate => Execution { state, ..self },
            },
            Step::Finish(id) => match self.state.workers[id as int] {
                Phase::Busy(item) => Execution {
                    state,
                    finished: self.finished.push(item),
                    ..self
                },
                _ => Execution { state, ..self },
            },
        }
    }

    /// Each of `steps` can be taken when its turn comes.
    pub open spec fn valid(self, steps: Seq<Step<W>>) -> bool
        decreases steps.len(),
    {
        steps.len() > 0 ==> {
            &&& self.state.enabled(steps.first())
            &&& self.advance(steps.first()).valid(steps.skip(1))
        }
    }

    /// The run after `steps`.
    pub open spec fn run(self, steps: Seq<Step<W>>) -> Self
        decreases steps.len(),
    {
        if steps.len() == 0 {
            self
        } else {
            self.advance(steps.first()).run(steps.skip(1))
        }
    }

    /// The work items that were accepted before teardown began.
    pub open spec fn accepted_before_teardown(self) -> Seq<W> {
        if self.state.draining() {
            self.accepted.take(self.cutoff as int)
        } else {
            self.accepted
        }
    }

    /// The bookkeeping that every run keeps.
    pub open spec fn consistent(self) -> bool {
        &&& self.dispatched + work_items(self.state.queue) =~= self.accepted
        &&& self.finished.to_multiset().add(in_flight(self.state.workers))
            =~= self.dispatched.to_multiset()
        &&& terminates(self.state.queue) + self.state.size() == self.state.terminates_sent
            + live_count(self.state.workers)
        &&& self.state.terminates_sent <= self.state.size()
        &&& self.state.draining() ==> self.cutoff <= self.dispatched.len()
            + leading_work(self.state.queue)
        &&& live_count(self.state.workers) < self.state.size() ==> self.state.draining()
            && self.cutoff <= self.dispatched.len()
    }
}

/// A new pool keeps the books.
pub proof fn start_is_consistent<W>(size: nat)
    ensures
        Execution::<W>::start(size).consistent(),
{
    let start = Execution::<W>::start(size);
    counts_when_all_idle(start.state.workers);
    assert(start.dispatched + work_items(start.state.queue) =~= start.accepted);
    Seq::<W>::empty().to_multiset_ensures();
    assert(Seq::<W>::empty().to_multiset() =~= Multiset::empty());
}

/// Every step that can be taken keeps the books.
pub proof fn step_keeps_consistent<W>(before: Execution<W>, step: Step<W>)
    requires
        before.consistent(),
        before.state.enabled(step),
    ensures
        before.advance(step).consistent(),
{
    let after = before.advance(step);
    let queue = before.state.queue;
    let workers = before.state.workers;
    match step {
        Step::Submit(item) => {
            work_items_push(queue, ControlMessage::Work(item));
            leading_work_push(queue, ControlMessage::Work(item));
            assert(before.dispatched + work_items(queue).push(item)
                =~= (before.dispatched + work_items(queue)).push(item));
        },
        Step::SendTerminate => {
            work_items_push(queue, ControlMessage::<W>::Terminate);
            leading_work_push(queue, ControlMessage::<W>::Terminate);
            if !before.state.draining() {
                if workers.len() > 0 {
                    counts_of_member(workers, 0);
                }
                leading_work_without_terminates(queue);
            }
        },
        Step::Take(id) => {
            let phase = after.state.workers[id as int];
            work_items_skip(queue);
            counts_after_update(workers, id as int, phase);
            counts_of_member(workers, id as int);
            assert(after.state.workers =~= workers.update(id as int, phase));
            assert(in_flight(after.state.workers).add(Multiset::empty())
                =~= in_flight(after.state.workers));
            if let ControlMessage::Work(item) = queue.first() {
                to_multiset_build(before.dispatched, item);
                assert(before.dispatched.push(item) + work_items(queue.skip(1))
                    =~= before.dispatched + (seq![item] + work_items(queue.skip(1))));
            } else {
                assert(in_flight(workers).add(Multiset::empty()) =~= in_flight(workers));
            }
        },
        Step::Finish(id) => {
            let item = workers[id as int]->Busy_0;
            counts_after_update(workers, id as int, Phase::<W>::Idle);
            to_multiset_build(before.finished, item);
            assert(after.state.workers =~= workers.update(id as int, Phase::Idle));
            assert(in_flight(workers).add(Multiset::empty()) =~= in_flight(workers));
        },
    }
}

/// Every run keeps the books, from any point at which they were kept.
pub proof fn run_keeps_consistent<W>(from: Execution<W>, steps: Seq<Step<W>>)
    requires
        from.consistent(),
        from.valid(steps),
    ensures
        from.run(steps).consistent(),
        from.run(steps).state.size() == from.state.size(),
    decreases steps.len(),
{
    if steps.len() > 0 {
        step_keeps_consistent(from, steps.first());
        run_keeps_consistent(from.advance(steps.first()), steps.skip(1));
    }
}

/// Right after construction every worker is in its loop: the pool has as
/// many live workers as it was made with, and none has terminated.
pub proof fn fresh_pool_is_fully_staffed<W>(size: nat)
    ensures
        PoolState::<W>::init(size).size() == size,
        live_count(PoolState::<W>::init(size).workers) == size,
        forall|id: int| 0 <= id < size ==> PoolState::<W>::init(size).alive(id),
{
    counts_when_all_idle(PoolState::<W>::init(size).workers);
}

/// No work item runs twice, and none runs that was not submitted. In every
/// run the items that workers took are the first of the accepted items, in
/// the order of submission; the rest still wait in the queue, in that order.
/// An item that was taken is either being executed or has ended, and has
/// ended no more often than it was taken.
pub proof fn no_item_runs_twice<W>(size: nat, steps: Seq<Step<W>>)
    requires
        Execution::<W>::start(size).valid(steps),
    ensures
        ({
            let end = Execution::<W>::start(size).run(steps);
            &&& end.dispatched + work_items(end.state.queue) == end.accepted
            &&& end.dispatched.is_prefix_of(end.accepted)
            &&& end.finished.to_multiset().add(in_flight(end.state.workers))
                == end.dispatched.to_multiset()
            &&& end.finished.to_multiset().subset_of(end.dispatched.to_multiset())
            &&& end.finished.len() <= end.dispatched.len() <= end.accepted.len()
        }),
{
    let end = Execution::<W>::start(size).run(steps);
    start_is_consistent::<W>(size);
    run_keeps_consistent(Execution::<W>::start(size), steps);
    end.finished.to_multiset_ensures();
    end.dispatched.to_multiset_ensures();
    assert(end.finished.to_multiset().len() + in_flight(end.state.workers).len()
        == end.dispatched.to_multiset().len());
}

/// Every work item that was accepted before teardown began is executed, to
/// its end, before the last worker leaves its loop. In a run at whose end
/// every worker has terminated, teardown has begun, the items accepted before
/// it began were all taken, in the order of submission, and every item that
/// was taken has ended.
pub proof fn accepted_work_completes<W>(size: nat, steps: Seq<Step<W>>)
    requires
        size >= 1,
        Execution::<W>::start(size).valid(steps),
        Execution::<W>::start(size).run(steps).state.all_terminated(),
    ensures
        ({
            let end = Execution::<W>::start(size).run(steps);
            &&& end.state.draining()
            &&& end.accepted_before_teardown().is_prefix_of(end.dispatched)
            &&& end.finished.to_multiset() == end.dispatched.to_multiset()
        }),
{
    let end = Execution::<W>::start(size).run(steps);
    start_is_consistent::<W>(size);
    run_keeps_consistent(Execution::<W>::start(size), steps);
    counts_when_all_terminated(end.state.workers);
    assert(end.accepted_before_teardown() =~= end.dispatched.take(end.cutoff as int));
    assert(end.finished.to_multiset().add(Multiset::empty()) =~= end.finished.to_multiset());
}

/// Teardown cannot stall. Once one sentinel per worker has been sent, every
/// worker that is still in its loop can take its next step: it either ends
/// the item it is executing or finds a message to take.
pub proof fn teardown_never_stalls<W>(size: nat, steps: Seq<Step<W>>, id: int)
    requires
        Execution::<W>::start(size).valid(steps),
        Execution::<W>::start(size).run(steps).state.terminates_sent == size,
        Execution::<W>::start(size).run(steps).state.alive(id),
    ensures
        ({
            let end = Execution::<W>::start(size).run(steps);
            end.state.can_take(id) || end.state.can_finish(id)
        }),
{
    let end = Execution::<W>::start(size).run(steps);
    start_is_consistent::<W>(size);
    run_keeps_consistent(Execution::<W>::start(size), steps);
    counts_of_member(end.state.workers, id);
    terminates_bounded(end.state.queue);
}

impl<W> PoolState<W> {
    /// An upper bound on the number of steps that the workers can still take
    /// if nothing more is sent.
    pub open spec fn remaining_effort(self) -> nat {
        2 * self.queue.len() + in_flight(self.workers).len()
    }
}

/// Every step of a worker uses up some of the remaining effort.
pub proof fn worker_step_reduces_effort<W>(state: PoolState<W>, step: Step<W>)
    requires
        state.enabled(step),
        step is Take || step is Finish,
    ensures
        state.next(step).remaining_effort() < state.remaining_effort(),
{
    let id = match step {
        Step::Take(id) => id as int,
        Step::Finish(id) => id as int,
        _ => 0,
    };
    let phase = state.next(step).workers[id];
    assert(state.next(step).workers =~= state.workers.update(id, phase));
    counts_after_update(state.workers, id, phase);
    let before = in_flight(state.workers);
    let after = in_flight(state.next(step).workers);
    assert(after.add(load(state.workers[id])).len() == before.add(load(phase)).len());
    assert(after.len() + load(state.workers[id]).len() == before.len() + load(phase).len());
}

/// The workers of a pool take only finitely many steps on what has been
/// sent: a run made of workers' steps alone is no longer than the remaining
/// effort at its start.
pub proof fn worker_steps_are_bounded<W>(from: Execution<W>, steps: Seq<Step<W>>)
    requires
        from.valid(steps),
        forall|i: int| 0 <= i < steps.len() ==> steps[i] is Take || steps[i] is Finish,
    ensures
        steps.len() + from.run(steps).state.remaining_effort() <= from.state.remaining_effort(),
    decreases steps.len(),
{
    if steps.len() > 0 {
        worker_step_reduces_effort(from.state, steps.first());
        assert forall|i: int| 0 <= i < steps.skip(1).len() implies steps.skip(1)[i] is Take
            || steps.skip(1)[i] is Finish by {
            assert(steps.skip(1)[i] == steps[i + 1]);
        }
        worker_steps_are_bounded(from.advance(steps.first()), steps.skip(1));
    }
}

/// A run in two parts is the run of the first part, carried on by the
/// second.
pub proof fn run_in_two_parts<W>(from: Execution<W>, first: Seq<Step<W>>, second: Seq<Step<W>>)
    requires
        from.valid(first),
        from.run(first).valid(second),
    ensures
        from.valid(first + second),
        from.run(first + second) == from.run(first).run(second),
    decreases first.len(),
{
    if first.len() == 0 {
        assert(first + second =~= second);
    } else {
        assert((first + second).first() == first.first());
        assert((first + second).skip(1) =~= first.skip(1) + second);
        run_in_two_parts(from.advance(first.first()), first.skip(1), second);
    }
}

/// The owner sends `count` sentinels in a row.
proof fn send_sentinels<W>(from: Execution<W>, count: nat) -> (steps: Seq<Step<W>>)
    requires
        from.state.terminates_sent + count <= from.state.size(),
    ensures
        from.valid(steps),
        from.run(steps).state == (PoolState {
            queue: from.state.queue + sentinels(count),
            terminates_sent: from.state.terminates_sent + count,
            ..from.state
        }),
        from.run(steps).accepted == from.accepted,
        from.run(steps).dispatched == from.dispatched,
        from.run(steps).finished == from.finished,
    decreases count,
{
    if count == 0 {
        assert(from.state.queue + sentinels::<W>(0) =~= from.state.queue);
        Seq::empty()
    } else {
        let next = from.advance(Step::SendTerminate);
        let rest = send_sentinels(next, (count - 1) as nat);
        let steps = seq![Step::SendTerminate] + rest;
        assert(steps.first() == Step::<W>::SendTerminate);
        assert(steps.skip(1) =~= rest);
        assert(next.state.queue + sentinels::<W>((count - 1) as nat) =~= from.state.queue
            + sentinels::<W>(count));
        steps
    }
}

/// The first worker takes and executes the `work` items at the head of the
/// queue, one after the other.
proof fn first_worker_drains<W>(from: Execution<W>, work: nat) -> (steps: Seq<Step<W>>)
    requires
        from.state.size() >= 1,
        from.state.workers[0] is Idle,
        work <= from.state.queue.len(),
        forall|i: int| 0 <= i < work ==> #[trigger] from.state.queue[i] is Work,
    ensures
        from.valid(steps),
        from.run(steps).state == (PoolState {
            queue: from.state.queue.skip(work as int),
            ..from.state
        }),
        from.run(steps).accepted == from.accepted,
        from.run(steps).dispatched == from.dispatched
            + work_items(from.state.queue.take(work as int)),
        from.run(steps).finished == from.finished
            + work_items(from.state.queue.take(work as int)),
    decreases work,
{
    let queue = from.state.queue;
    if work == 0 {
        assert(queue.skip(0) =~= queue);
        assert(work_items(queue.take(0)) =~= Seq::<W>::empty());
        assert(from.dispatched + Seq::<W>::empty() =~= from.dispatched);
        assert(from.finished + Seq::<W>::empty() =~= from.finished);
        Seq::empty()
    } else {
        let item = queue[0]->Work_0;
        let taken = from.advance(Step::Take(0));
        let done = taken.advance(Step::Finish(0));
        assert(done.state.workers =~= from.state.workers);
        assert(done.state.queue == queue.skip(1));
        assert forall|i: int| 0 <= i < work - 1 implies #[trigger] done.state.queue[i] is Work by {
            assert(queue[i + 1] is Work);
        }
        let rest = first_worker_drains(done, (work - 1) as nat);
        let steps = seq![Step::Take(0), Step::Finish(0)] + rest;
        assert(steps.first() == Step::<W>::Take(0));
        assert(steps.skip(1).first() == Step::<W>::Finish(0));
        assert(steps.skip(1).skip(1) =~= rest);
        assert(taken.valid(steps.skip(1)));
        assert(taken.run(steps.skip(1)) == done.run(rest));
        assert(queue.skip(1).skip(work - 1) =~= queue.skip(work as int));
        work_items_skip(queue.take(work as int));
        assert(queue.take(work as int).skip(1) =~= queue.skip(1).take(work - 1));
        let head = work_items(queue.skip(1).take(work - 1));
        assert(from.dispatched.push(item) + head =~= from.dispatched + (seq![item] + head));
        assert(from.finished.push(item) + head =~= from.finished + (seq![item] + head));
        steps
    }
}

/// The workers from `next` on take one sentinel each, in the order of their
/// identifiers.
proof fn workers_leave<W>(from: Execution<W>, next: nat) -> (steps: Seq<Step<W>>)
    requires
        next <= from.state.size(),
        from.state.queue == sentinels::<W>((from.state.size() - next) as nat),
        forall|id: int| 0 <= id < next ==> from.state.workers[id] is Terminated,
        forall|id: int| next <= id < from.state.size() ==> from.state.workers[id] is Idle,
    ensures
        from.valid(steps),
        from.run(steps).state == (PoolState {
            queue: Seq::empty(),
            workers: Seq::new(from.state.size(), |id: int| Phase::Terminated),
            ..from.state
        }),
        from.run(steps).accepted == from.accepted,
        from.run(steps).dispatched == from.dispatched,
        from.run(steps).finished == from.finished,
    decreases from.state.size() - next,
{
    if next == from.state.size() {
        assert(from.state.queue =~= Seq::empty());
        assert(from.state.workers =~= Seq::new(from.state.size(), |id: int| Phase::Terminated));
        Seq::empty()
    } else {
        let left = from.advance(Step::Take(next));
        assert(left.state.queue =~= sentinels::<W>((from.state.size() - next - 1) as nat));
        let rest = workers_leave(left, next + 1);
        let steps = seq![Step::Take(next)] + rest;
        assert(steps.first() == Step::<W>::Take(next));
        assert(steps.skip(1) =~= rest);
        steps
    }
}

/// The teardown that a pool carries out is a run like any other. From a
/// pool in service whose workers all wait, the owner sends one sentinel per
/// worker, the first worker executes what was queued, and every worker takes
/// its sentinel: that run ends with the pool closed, and in it every work
/// item that was queued is taken and ended, in the order of the queue.
pub proof fn teardown_is_a_run<W>(from: Execution<W>) -> (steps: Seq<Step<W>>)
    requires
        from.state.size() >= 1,
        from.state.in_service(),
        forall|id: int| 0 <= id < from.state.size() ==> from.state.workers[id] is Idle,
    ensures
        from.valid(steps),
        from.run(steps).state == PoolState::<W>::closed(from.state.size()),
        from.run(steps).accepted == from.accepted,
        from.run(steps).dispatched == from.dispatched + work_items(from.state.queue),
        from.run(steps).finished == from.finished + work_items(from.state.queue),
{
    let size = from.state.size();
    let queue = from.state.queue;
    let sending = send_sentinels(from, size);
    let sent = from.run(sending);
    assert forall|i: int| 0 <= i < queue.len() implies #[trigger] sent.state.queue[i] is Work by {
        assert(sent.state.queue[i] == queue[i]);
    }
    let draining = first_worker_drains(sent, queue.len());
    let drained = sent.run(draining);
    assert(sent.state.queue.take(queue.len() as int) =~= queue);
    assert(drained.state.queue =~= sentinels::<W>(size));
    let leaving = workers_leave(drained, 0);
    run_in_two_parts(sent, draining, leaving);
    run_in_two_parts(from, sending, draining + leaving);
    sending + (draining + leaving)
}

} // verus!
