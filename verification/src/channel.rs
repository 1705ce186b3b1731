//! The typed channel connecting the submission shard to the treasury shard:
//! reliable, ordered, first-in first-out delivery of settlement messages.
//!
//! There is no shared memory between the shards; everything the treasury
//! learns arrives through here, in emission order.

use vstd::prelude::*;

use crate::coordinator::OutgoingMessage;

verus! {

/// The queue of settlement messages emitted but not yet delivered.
pub struct MessageChannel {
    queue: Vec<OutgoingMessage>,
}

impl MessageChannel {
    /// The pending messages, oldest first.
    pub closed spec fn view(&self) -> Seq<OutgoingMessage> {
        self.queue@
    }

    /// Creates an empty channel.
    pub fn new() -> (r: MessageChannel)
        ensures
            r@ == Seq::<OutgoingMessage>::empty(),
    {
        MessageChannel { queue: Vec::new() }
    }

    /// How many messages are pending.
    pub fn len(&self) -> (r: usize)
        ensures
            r == self@.len(),
    {
        self.queue.len()
    }

    /// Queues a message behind everything already pending.
    pub fn send(&mut self, message: OutgoingMessage)
        ensures
            final(self)@ == old(self)@.push(message),
    {
        self.queue.push(message);
    }

    /// Delivers the oldest pending message, or nothing if none is pending;
    /// messages leave in exactly the order they were sent.
    pub fn deliver(&mut self) -> (r: Option<OutgoingMessage>)
        ensures
            old(self)@.len() == 0 ==> r is None && final(self)@ == old(self)@,
            old(self)@.len() > 0 ==> r == Some(old(self)@[0]) && final(self)@ == old(
                self,
            )@.drop_first(),
    {
        if self.queue.len() == 0 {
            return None;
        }
        let message = self.queue.remove(0);
        assert(self.queue@ =~= old(self).queue@.drop_first());
        Some(message)
    }
}

} // verus!
