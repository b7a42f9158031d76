//! The messages that flow from the pool's owner to its workers.

use vstd::prelude::*;

verus! {

/// What travels through the dispatch channel: either a unit of work or the
/// sentinel that tells the receiving worker to leave its loop.
pub enum ControlMessage<W> {
    Work(W),
    Terminate,
}

/// The work items carried by a sequence of messages, in their order.
pub open spec fn work_items<W>(queue: Seq<ControlMessage<W>>) -> Seq<W>
    decreases queue.len(),
{
    if queue.len() == 0 {
        Seq::empty()
    } else {
        match queue.last() {
            ControlMessage::Work(item) => work_items(queue.drop_last()).push(item),
            ControlMessage::Terminate => work_items(queue.drop_last()),
        }
    }
}

/// How many `Terminate` sentinels a sequence of messages holds.
pub open spec fn terminates<W>(queue: Seq<ControlMessage<W>>) -> nat
    decreases queue.len(),
{
    if queue.len() == 0 {
        0
    } else {
        match queue.last() {
            ControlMessage::Work(_) => terminates(queue.drop_last()),
            ControlMessage::Terminate => terminates(queue.drop_last()) + 1,
        }
    }
}

/// How many work items stand in front of the first `Terminate` sentinel.
pub open spec fn leading_work<W>(queue: Seq<ControlMessage<W>>) -> nat
    decreases queue.len(),
{
    if queue.len() == 0 {
        0
    } else {
        match queue.first() {
            ControlMessage::Work(_) => leading_work(queue.skip(1)) + 1,
            ControlMessage::Terminate => 0,
        }
    }
}

/// `count` sentinels in a row.
pub open spec fn sentinels<W>(count: nat) -> Seq<ControlMessage<W>> {
    Seq::new(count, |i: int| ControlMessage::Terminate)
}

/// Appending a message appends its work item, if it carries one.
pub proof fn work_items_push<W>(queue: Seq<ControlMessage<W>>, message: ControlMessage<W>)
    ensures
        work_items(queue.push(message)) == match message {
            ControlMessage::Work(item) => work_items(queue).push(item),
            ControlMessage::Terminate => work_items(queue),
        },
        terminates(queue.push(message)) == match message {
            ControlMessage::Work(_) => terminates(queue),
            ControlMessage::Terminate => terminates(queue) + 1,
        },
{
    assert(queue.push(message).drop_last() == queue);
}

/// Removing the head removes its work item from the front, if it carries one.
pub proof fn work_items_skip<W>(queue: Seq<ControlMessage<W>>)
    requires
        queue.len() > 0,
    ensures
        work_items(queue) == match queue.first() {
            ControlMessage::Work(item) => seq![item] + work_items(queue.skip(1)),
            ControlMessage::Terminate => work_items(queue.skip(1)),
        },
        terminates(queue) == match queue.first() {
            ControlMessage::Work(_) => terminates(queue.skip(1)),
            ControlMessage::Terminate => terminates(queue.skip(1)) + 1,
        },
    decreases queue.len(),
{
    if queue.len() == 1 {
        assert(queue.drop_last() == queue.skip(1));
        assert(work_items(queue.skip(1)) == Seq::<W>::empty());
        match queue.first() {
            ControlMessage::Work(item) => {
                assert(Seq::<W>::empty().push(item) == seq![item] + Seq::<W>::empty());
            },
            ControlMessage::Terminate => {},
        }
    } else {
        work_items_skip(queue.drop_last());
        assert(queue.drop_last().skip(1) == queue.skip(1).drop_last());
        assert(queue.drop_last().first() == queue.first());
        assert(queue.skip(1).last() == queue.last());
        match (queue.first(), queue.last()) {
            (ControlMessage::Work(head), ControlMessage::Work(tail)) => {
                assert((seq![head] + work_items(queue.skip(1).drop_last())).push(tail) == seq![head]
                    + work_items(queue.skip(1).drop_last()).push(tail));
            },
            _ => {},
        }
    }
}

/// Appending a message never shortens the run of work items at the front.
pub proof fn leading_work_push<W>(queue: Seq<ControlMessage<W>>, message: ControlMessage<W>)
    ensures
        leading_work(queue.push(message)) >= leading_work(queue),
    decreases queue.len(),
{
    if queue.len() > 0 {
        assert(queue.push(message).first() == queue.first());
        assert(queue.push(message).skip(1) == queue.skip(1).push(message));
        leading_work_push(queue.skip(1), message);
    }
}

/// A queue holds no more sentinels than messages.
pub proof fn terminates_bounded<W>(queue: Seq<ControlMessage<W>>)
    ensures
        terminates(queue) <= queue.len(),
    decreases queue.len(),
{
    if queue.len() > 0 {
        terminates_bounded(queue.drop_last());
    }
}

/// A queue with no sentinel holds nothing but work.
pub proof fn leading_work_without_terminates<W>(queue: Seq<ControlMessage<W>>)
    requires
        terminates(queue) == 0,
    ensures
        leading_work(queue) == queue.len(),
        work_items(queue).len() == queue.len(),
    decreases queue.len(),
{
    if queue.len() > 0 {
        work_items_skip(queue);
        leading_work_without_terminates(queue.skip(1));
    }
}

} // verus!
