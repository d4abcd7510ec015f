//! The bounded relay between the stream reader and the publisher loop.
//!
//! A fixed-capacity FIFO queue of classified events. A push against a full
//! queue refuses the event and hands it back unchanged — nothing is ever
//! dropped; the caller waits and retries, which is the pipeline's only
//! backpressure. The producer closes the relay when its input ends, and a
//! drained closed relay is the consumer's end-of-input signal.

use vstd::prelude::*;
use crate::models::StreamMessage;

verus! {

/// A fixed-capacity FIFO queue of stream events.
pub struct BoundedRelay {
    queue: Vec<StreamMessage>,
    capacity: usize,
    closed: bool,
}

impl BoundedRelay {
    /// The queued events, oldest first.
    pub closed spec fn contents(&self) -> Seq<StreamMessage> {
        self.queue@
    }

    /// The fixed capacity this relay was built with.
    pub closed spec fn cap(&self) -> nat {
        self.capacity as nat
    }

    /// Whether the producer has closed the relay.
    pub closed spec fn is_closed(&self) -> bool {
        self.closed
    }

    /// The relay never holds more than its capacity.
    pub closed spec fn wf(&self) -> bool {
        self.queue@.len() <= self.capacity
    }

    /// A fresh open relay with the given capacity.
    pub fn new(capacity: usize) -> (r: BoundedRelay)
        ensures
            r.wf(),
            r.contents() == Seq::<StreamMessage>::empty(),
            r.cap() == capacity,
            !r.is_closed(),
    {
        BoundedRelay { queue: Vec::new(), capacity, closed: false }
    }

    /// Offers one event. On a full or closed relay the event comes back
    /// unchanged and the queue is untouched; otherwise it joins the tail.
    pub fn try_push(&mut self, event: StreamMessage) -> (r: Result<(), StreamMessage>)
        requires
            old(self).wf(),
        ensures
            final (self).wf(),
            final (self).cap() == old(self).cap(),
            final (self).is_closed() == old(self).is_closed(),
            (old(self).is_closed() || old(self).contents().len() == old(self).cap()) ==> (
            r matches Err(back) && back == event && final (self).contents() == old(
                self,
            ).contents()),
            (!old(self).is_closed() && old(self).contents().len() < old(self).cap()) ==> (
            r matches Ok(u) && final (self).contents() == old(self).contents().push(event)),
    {
        if self.closed || self.queue.len() == self.capacity {
            return Err(event);
        }
        self.queue.push(event);
        Ok(())
    }

    /// Takes the oldest event, or nothing from an empty queue.
    pub fn pop(&mut self) -> (r: Option<StreamMessage>)
        requires
            old(self).wf(),
        ensures
            final (self).wf(),
            final (self).cap() == old(self).cap(),
            final (self).is_closed() == old(self).is_closed(),
            old(self).contents().len() == 0 ==> r is None && final (self).contents() == old(
                self,
            ).contents(),
            old(self).contents().len() > 0 ==> (r matches Some(ev) && ev == old(
                self,
            ).contents()[0] && final (self).contents() == old(self).contents().drop_first()),
    {
        if self.queue.len() == 0 {
            return None;
        }
        let ev = self.queue.remove(0);
        proof {
            assert(final (self).queue@ =~= old(self).queue@.drop_first());
        }
        Some(ev)
    }

    /// Marks the relay closed; queued events stay readable.
    pub fn close(&mut self)
        requires
            old(self).wf(),
        ensures
            final (self).wf(),
            final (self).cap() == old(self).cap(),
            final (self).is_closed(),
            final (self).contents() == old(self).contents(),
    {
        self.closed = true;
    }

    /// How many events are queued.
    pub fn len(&self) -> (r: usize)
        ensures
            r == self.contents().len(),
    {
        self.queue.len()
    }

    /// Whether a push would be refused for want of room.
    pub fn is_full(&self) -> (r: bool)
        ensures
            r == (self.contents().len() == self.cap()),
    {
        self.queue.len() == self.capacity
    }

    /// Whether the producer has closed the relay.
    pub fn is_shut(&self) -> (r: bool)
        ensures
            r == self.is_closed(),
    {
        self.closed
    }

    /// The fixed capacity.
    pub fn capacity(&self) -> (r: usize)
        ensures
            r == self.cap(),
    {
        self.capacity
    }
}

/// Backpressure without loss: against a relay at capacity a push changes
/// nothing and returns the event to its producer, and once one event is
/// popped the next push succeeds and keeps arrival order.
pub proof fn lemma_full_relay_keeps_every_event(
    q: Seq<StreamMessage>,
    cap: nat,
    event: StreamMessage,
)
    requires
        q.len() == cap,
        cap > 0,
    ensures
        q.drop_first().push(event).len() == cap,
        q.drop_first().push(event)[cap - 1] == event,
        forall|i: int| 0 <= i < cap - 1 ==> q.drop_first().push(event)[i] == q[i + 1],
{
}

} // verus!
