//! The coordination bus: a broadcast channel of messages. Every message sent
//! is appended to the pending queue of every subscriber; each subscriber
//! polls its own queue in order. Ordering within one producer is preserved;
//! the bus never blocks a producer.

use vstd::prelude::*;
use crate::types::{clone_message, message_model, Message, MessageModel};

verus! {

/// The in-process broadcast state: one pending queue per subscriber.
pub struct Bus {
    queues: Vec<Vec<Message>>,
}

impl Bus {
    /// How many subscribers there are.
    pub closed spec fn receiver_count(self) -> nat {
        self.queues@.len()
    }

    /// The messages a subscriber has not yet polled, oldest first.
    pub closed spec fn pending(self, i: int) -> Seq<MessageModel> {
        self.queues@[i]@.map_values(|m: Message| message_model(m))
    }

    /// A bus with no subscribers.
    pub fn new() -> (b: Bus)
        ensures
            b.receiver_count() == 0,
    {
        Bus { queues: Vec::new() }
    }

    /// Registers a new subscriber; it sees only future messages.
    pub fn subscribe(&mut self) -> (id: usize)
        ensures
            id == old(self).receiver_count(),
            final(self).receiver_count() == old(self).receiver_count() + 1,
            final(self).pending(id as int) == Seq::<MessageModel>::empty(),
            forall|i: int|
                0 <= i < old(self).receiver_count() ==> final(self).pending(i) == old(self).pending(
                    i,
                ),
    {
        let id = self.queues.len();
        self.queues.push(Vec::new());
        proof {
            assert(self.pending(id as int) =~= Seq::<MessageModel>::empty());
        }
        id
    }

    /// Broadcasts one message: it is appended to every subscriber's queue.
    #[verifier::loop_isolation(false)]
    pub fn send(&mut self, m: &Message)
        ensures
            final(self).receiver_count() == old(self).receiver_count(),
            forall|i: int|
                0 <= i < old(self).receiver_count() ==> final(self).pending(i) == old(self).pending(
                    i,
                ).push(message_model(*m)),
    {
        let n = self.queues.len();
        let mut i: usize = 0;
        while i < n
            invariant
                i <= n,
                n == self.receiver_count(),
                self.receiver_count() == old(self).receiver_count(),
                forall|j: int| i <= j < n ==> self.queues@[j] == old(self).queues@[j],
                forall|j: int|
                    0 <= j < i ==> self.pending(j) == old(self).pending(j).push(message_model(*m)),
            decreases n - i,
        {
            let ghost pre = *self;
            let copy = clone_message(m);
            let q = &mut self.queues[i];
            q.push(copy);
            proof {
                assert forall|j: int| 0 <= j < i + 1 implies self.pending(j) == old(self).pending(
                    j,
                ).push(message_model(*m)) by {
                    if j < i {
                        assert(self.queues@[j] == pre.queues@[j]);
                        assert(self.pending(j) =~= pre.pending(j));
                        assert(pre.pending(j) == old(self).pending(j).push(message_model(*m)));
                    } else {
                        assert(pre.queues@[j] == old(self).queues@[j]);
                        assert(self.queues@[j]@ == pre.queues@[j]@.push(copy));
                        assert(self.pending(j) =~= old(self).pending(j).push(message_model(*m)));
                    }
                }
            }
            i = i + 1;
        }
    }

    /// Takes the oldest pending message of a subscriber, if there is one.
    pub fn poll(&mut self, id: usize) -> (r: Option<Message>)
        requires
            id < old(self).receiver_count(),
        ensures
            final(self).receiver_count() == old(self).receiver_count(),
            forall|i: int|
                0 <= i < old(self).receiver_count() && i != id ==> final(self).pending(i) == old(
                    self,
                ).pending(i),
            match r {
                None => old(self).pending(id as int).len() == 0 && final(self).pending(id as int)
                    == old(self).pending(id as int),
                Some(m) => old(self).pending(id as int).len() > 0 && message_model(m) == old(
                    self,
                ).pending(id as int)[0] && final(self).pending(id as int) == old(self).pending(
                    id as int,
                ).skip(1),
            },
    {
        let q = &mut self.queues[id];
        if q.len() == 0 {
            return None;
        }
        let m = q.remove(0);
        proof {
            assert(self.pending(id as int) =~= old(self).pending(id as int).skip(1));
        }
        Some(m)
    }
}

} // verus!
