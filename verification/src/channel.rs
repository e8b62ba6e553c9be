//! The shared job queue: an unbounded FIFO channel carrying messages from
//! the pool to its workers.
//!
//! Several workers share one receiving end, serialized by mutual exclusion,
//! so each message is delivered to exactly one of them: here that shows as
//! `dequeue` removing the head outright. Enqueuing never blocks. The real
//! dequeue blocks until a message is available; the model states that as a
//! precondition that a message is present, and the pool only dequeues when
//! one is.

use vstd::prelude::*;

use crate::message::Message;

verus! {

/// A FIFO queue of messages. The view is the queued messages in arrival
/// order, head first.
pub struct MessageQueue {
    pub items: Vec<Message>,
}

impl MessageQueue {
    pub open spec fn view(self) -> Seq<Message> {
        self.items@
    }

    /// An empty channel, created when the pool is constructed.
    pub fn new() -> (q: MessageQueue)
        ensures
            q@ == Seq::<Message>::empty(),
    {
        MessageQueue { items: Vec::new() }
    }

    /// Enqueue `m` behind every message already queued. Never blocks.
    pub fn enqueue(&mut self, m: Message)
        ensures
            final(self)@ == old(self)@.push(m),
    {
        self.items.push(m);
    }

    /// Dequeue the message at the head. The real receive blocks until a
    /// message arrives; a caller of the model must have one queued.
    pub fn dequeue(&mut self) -> (m: Message)
        requires
            old(self)@.len() > 0,
        ensures
            m == old(self)@[0],
            final(self)@ == old(self)@.drop_first(),
    {
        let m = self.items.remove(0);
        proof {
            assert(self.items@ =~= old(self)@.drop_first());
        }
        m
    }

    pub fn len(&self) -> (n: usize)
        ensures
            n == self@.len(),
    {
        self.items.len()
    }

    pub fn is_empty(&self) -> (b: bool)
        ensures
            b == (self@.len() == 0),
    {
        self.items.len() == 0
    }
}

} // verus!
