//! The dispatch channel: one first-in, first-out queue of control messages,
//! fed by the pool's owner and drained by its workers.

use std::collections::VecDeque;
use vstd::prelude::*;
use crate::message::ControlMessage;

verus! {

/// A message was offered to a channel whose consuming end nobody holds any
/// longer. The message has not been enqueued.
#[derive(Debug, Clone, Copy, PartialEq, Eq)]
pub struct DispatchFailure;

/// What a channel holds: the queued messages, oldest first, and the number of
/// holders of its consuming end.
pub struct ChannelState<W> {
    pub queue: Seq<ControlMessage<W>>,
    pub consumers: nat,
}

/// An unbounded queue of control messages. Its consuming end is shared by
/// `consumers` holders; once the last of them lets go, sending fails.
pub struct DispatchChannel<W> {
    queue: VecDeque<ControlMessage<W>>,
    consumers: usize,
}

impl<W> View for DispatchChannel<W> {
    type V = ChannelState<W>;

    closed spec fn view(&self) -> ChannelState<W> {
        ChannelState { queue: self.queue@, consumers: self.consumers as nat }
    }
}

impl<W> DispatchChannel<W> {
    /// An empty channel whose consuming end has `consumers` holders.
    pub fn new(consumers: usize) -> (channel: Self)
        ensures
            channel@.queue == Seq::<ControlMessage<W>>::empty(),
            channel@.consumers == consumers,
    {
        DispatchChannel { queue: VecDeque::new(), consumers }
    }

    /// Appends `message` behind everything already queued, or refuses it when
    /// no consumer is left. Never blocks.
    pub fn send(&mut self, message: ControlMessage<W>) -> (sent: Result<(), DispatchFailure>)
        ensures
            sent is Ok <==> old(self)@.consumers > 0,
            sent is Ok ==> final(self)@ == (ChannelState {
                queue: old(self)@.queue.push(message),
                ..old(self)@
            }),
            sent is Err ==> final(self)@ == old(self)@,
    {
        if self.consumers == 0 {
            Err(DispatchFailure)
        } else {
            self.queue.push_back(message);
            Ok(())
        }
    }

    /// Takes the oldest message off the queue. `None` stands for the case in
    /// which a consumer would have to wait: the queue is empty. The call is
    /// the whole of a consumer's exclusive hold on the consuming end: it ends
    /// before the consumer acts on what it took.
    pub fn recv(&mut self) -> (message: Option<ControlMessage<W>>)
        ensures
            message is None <==> old(self)@.queue.len() == 0,
            message is None ==> final(self)@ == old(self)@,
            message matches Some(head) ==> {
                &&& head == old(self)@.queue.first()
                &&& final(self)@ == (ChannelState {
                    queue: old(self)@.queue.skip(1),
                    ..old(self)@
                })
            },
    {
        let message = self.queue.pop_front();
        proof {
            let queue = old(self)@.queue;
            if message is Some {
                assert(queue.subrange(1, queue.len() as int) == queue.skip(1));
            }
        }
        message
    }

    /// One holder of the consuming end lets go of it.
    pub fn release(&mut self)
        ensures
            final(self)@.queue == old(self)@.queue,
            final(self)@.consumers == if old(self)@.consumers > 0 {
                old(self)@.consumers - 1
            } else {
                0
            },
    {
        if self.consumers > 0 {
            self.consumers = self.consumers - 1;
        }
    }

    /// The number of queued messages.
    pub fn len(&self) -> (len: usize)
        ensures
            len == self@.queue.len(),
    {
        self.queue.len()
    }

    /// The number of holders of the consuming end.
    pub fn consumers(&self) -> (consumers: usize)
        ensures
            consumers == self@.consumers,
    {
        self.consumers
    }
}

} // verus!
