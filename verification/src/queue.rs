//! The ordered client queue. Index 0 holds command authority. Each member
//! owns an outbound mailbox of wire lines; whoever drains a mailbox into the
//! socket does so outside the library. Every change of the queue is followed
//! at once by a queue-state broadcast to every member, so each member's
//! latest advertised position and cardinality are the true ones.

use vstd::prelude::*;
use crate::json::{build_queue_state_line, queue_state_line};
use crate::types::{clone_bytes, Endpoint};

verus! {

/// One queue member: its address, its pending outbound lines, and the queue
/// state last advertised to it.
pub struct QueueEntry {
    pub address: Endpoint,
    pub outbox: Vec<Vec<u8>>,
    pub advertised_position: u32,
    pub advertised_count: u32,
}

/// The pending lines of a member, as byte sequences.
pub open spec fn outbox_lines(e: QueueEntry) -> Seq<Seq<u8>> {
    Seq::new(e.outbox@.len(), |i: int| e.outbox@[i]@)
}

/// The FIFO queue of connected control clients.
pub struct ClientQueue {
    entries: Vec<QueueEntry>,
}

impl ClientQueue {
    /// The members in queue order.
    pub closed spec fn entries(self) -> Seq<QueueEntry> {
        self.entries@
    }

    /// The members' addresses in queue order.
    pub open spec fn addresses(self) -> Seq<Endpoint> {
        self.entries().map_values(|e: QueueEntry| e.address)
    }

    /// Whether some member has the address.
    pub open spec fn contains_address(self, a: Endpoint) -> bool {
        exists|i: int| 0 <= i < self.entries().len() && self.entries()[i].address == a
    }

    /// The structural part of well-formedness: the queue is small enough to
    /// advertise and no two members share an address.
    pub open spec fn base_wf(self) -> bool {
        &&& self.entries().len() <= u32::MAX
        &&& forall|i: int, j: int|
            0 <= i < j < self.entries().len() ==> self.entries()[i].address != self.entries()[j].address
    }

    /// Queue well-formedness, which doubles as the broadcast law: addresses
    /// are unique, and every member's most recently advertised queue state
    /// reports its true index and the true cardinality.
    pub open spec fn wf(self) -> bool {
        &&& self.base_wf()
        &&& forall|i: int|
            0 <= i < self.entries().len() ==> (#[trigger] self.entries()[i]).advertised_position
                == i
        &&& forall|i: int|
            0 <= i < self.entries().len() ==> (#[trigger] self.entries()[i]).advertised_count
                == self.entries().len()
    }

    /// Broadcast law: in a well-formed queue every member's most recently
    /// advertised queue state reports its true index and the true
    /// cardinality; every mutation re-establishes this before returning.
    pub proof fn lemma_latest_broadcast_truthful(self, j: int)
        requires
            self.wf(),
            0 <= j < self.entries().len(),
        ensures
            self.entries()[j].advertised_position == j,
            self.entries()[j].advertised_count == self.entries().len(),
    {
    }

    /// An empty queue.
    pub fn new() -> (q: ClientQueue)
        ensures
            q.wf(),
            q.entries().len() == 0,
    {
        ClientQueue { entries: Vec::new() }
    }

    /// How many members the queue has.
    pub fn len(&self) -> (n: usize)
        ensures
            n == self.entries().len(),
    {
        self.entries.len()
    }

    /// The address of the member at `i`.
    pub fn address_at(&self, i: usize) -> (a: Endpoint)
        requires
            i < self.entries().len(),
        ensures
            a == self.entries()[i as int].address,
    {
        self.entries[i].address
    }

    /// Takes all pending lines of the member at `i`, leaving its mailbox
    /// empty.
    pub fn take_outbox(&mut self, i: usize) -> (lines: Vec<Vec<u8>>)
        requires
            old(self).wf(),
            i < old(self).entries().len(),
        ensures
            final(self).wf(),
            lines@ == old(self).entries()[i as int].outbox@,
            final(self).entries().len() == old(self).entries().len(),
            forall|j: int|
                0 <= j < final(self).entries().len() && j != i ==> final(self).entries()[j] == old(
                    self,
                ).entries()[j],
            final(self).entries()[i as int].address == old(self).entries()[i as int].address,
            final(self).entries()[i as int].outbox@.len() == 0,
            final(self).entries()[i as int].advertised_position == old(self).entries()[
                i as int
            ].advertised_position,
            final(self).entries()[i as int].advertised_count == old(self).entries()[
                i as int
            ].advertised_count,
    {
        let entry = &mut self.entries[i];
        let mut taken: Vec<Vec<u8>> = Vec::new();
        core::mem::swap(&mut entry.outbox, &mut taken);
        taken
    }

    /// The index a member with the address holds, if any.
    pub fn index_of(&self, client: Endpoint) -> (r: Option<usize>)
        ensures
            match r {
                Some(i) => i < self.entries().len() && self.entries()[i as int].address == client,
                None => !self.contains_address(client),
            },
    {
        let n = self.entries.len();
        let mut i: usize = 0;
        while i < n
            invariant
                i <= n,
                n == self.entries().len(),
                forall|j: int| 0 <= j < i ==> self.entries()[j].address != client,
            decreases n - i,
        {
            if self.entries[i].address == client {
                return Some(i);
            }
            i = i + 1;
        }
        None
    }

    /// Pushes one line to the mailbox of the member with the address; a line
    /// for an address not in the queue is dropped.
    pub fn send(&mut self, client: Endpoint, message: Vec<u8>)
        requires
            old(self).wf(),
        ensures
            final(self).wf(),
            final(self).entries().len() == old(self).entries().len(),
            forall|j: int|
                0 <= j < final(self).entries().len() && old(self).entries()[j].address != client
                    ==> final(self).entries()[j] == old(self).entries()[j],
            forall|j: int|
                0 <= j < final(self).entries().len() && old(self).entries()[j].address == client
                    ==> {
                    &&& (#[trigger] final(self).entries()[j]).address == client
                    &&& outbox_lines(final(self).entries()[j]) == outbox_lines(
                        old(self).entries()[j],
                    ).push(message@)
                    &&& final(self).entries()[j].advertised_position == old(self).entries()[
                        j
                    ].advertised_position
                    &&& final(self).entries()[j].advertised_count == old(self).entries()[
                        j
                    ].advertised_count
                },
    {
        let r = self.index_of(client);
        match r {
            Some(i) => {
                let entry = &mut self.entries[i];
                entry.outbox.push(message);
                proof {
                    assert(outbox_lines(self.entries()[i as int]) =~= outbox_lines(
                        old(self).entries()[i as int],
                    ).push(message@));
                }
            },
            None => {
            },
        }
    }

    /// Pushes one line to every member's mailbox.
    pub fn send_to_all(&mut self, message: &Vec<u8>)
        requires
            old(self).wf(),
        ensures
            final(self).wf(),
            final(self).entries().len() == old(self).entries().len(),
            forall|j: int|
                0 <= j < final(self).entries().len() ==> {
                    &&& (#[trigger] final(self).entries()[j]).address == old(self).entries()[
                        j
                    ].address
                    &&& outbox_lines(final(self).entries()[j]) == outbox_lines(
                        old(self).entries()[j],
                    ).push(message@)
                    &&& final(self).entries()[j].advertised_position == old(self).entries()[
                        j
                    ].advertised_position
                    &&& final(self).entries()[j].advertised_count == old(self).entries()[
                        j
                    ].advertised_count
                },
    {
        let n = self.entries.len();
        let mut i: usize = 0;
        while i < n
            invariant
                i <= n,
                n == self.entries().len(),
                self.entries().len() == old(self).entries().len(),
                self.wf(),
                forall|j: int| i <= j < n ==> self.entries()[j] == old(self).entries()[j],
                forall|j: int|
                    0 <= j < i ==> {
                        &&& (#[trigger] self.entries()[j]).address == old(self).entries()[j].address
                        &&& outbox_lines(self.entries()[j]) == outbox_lines(
                            old(self).entries()[j],
                        ).push(message@)
                        &&& self.entries()[j].advertised_position == old(self).entries()[
                            j
                        ].advertised_position
                        &&& self.entries()[j].advertised_count == old(self).entries()[
                            j
                        ].advertised_count
                    },
            decreases n - i,
        {
            let line = clone_bytes(message);
            let entry = &mut self.entries[i];
            entry.outbox.push(line);
            proof {
                assert(outbox_lines(self.entries()[i as int]) =~= outbox_lines(
                    old(self).entries()[i as int],
                ).push(message@));
            }
            i = i + 1;
        }
    }

    /// Re-advertises the queue state: every member's mailbox gets a line with
    /// its index and the cardinality, and the advertised fields record it.
    pub fn send_client_states(&mut self)
        requires
            old(self).base_wf(),
        ensures
            final(self).wf(),
            final(self).entries().len() == old(self).entries().len(),
            forall|j: int|
                0 <= j < final(self).entries().len() ==> {
                    &&& (#[trigger] final(self).entries()[j]).address == old(self).entries()[
                        j
                    ].address
                    &&& outbox_lines(final(self).entries()[j]) == outbox_lines(
                        old(self).entries()[j],
                    ).push(queue_state_line(j as u32, final(self).entries().len() as u32))
                },
    {
        let n = self.entries.len();
        let mut i: usize = 0;
        while i < n
            invariant
                i <= n,
                n == self.entries().len(),
                self.entries().len() == old(self).entries().len(),
                n <= u32::MAX,
                forall|j: int, k: int|
                    0 <= j < k < n ==> self.entries()[j].address != self.entries()[k].address,
                forall|j: int| i <= j < n ==> self.entries()[j] == old(self).entries()[j],
                forall|j: int|
                    0 <= j < i ==> {
                        &&& (#[trigger] self.entries()[j]).address == old(self).entries()[j].address
                        &&& outbox_lines(self.entries()[j]) == outbox_lines(
                            old(self).entries()[j],
                        ).push(queue_state_line(j as u32, n as u32))
                        &&& self.entries()[j].advertised_position == j
                        &&& self.entries()[j].advertised_count == n
                    },
            decreases n - i,
        {
            let line = build_queue_state_line(i as u32, n as u32);
            let entry = &mut self.entries[i];
            entry.outbox.push(line);
            entry.advertised_position = i as u32;
            entry.advertised_count = n as u32;
            proof {
                assert(outbox_lines(self.entries()[i as int]) =~= outbox_lines(
                    old(self).entries()[i as int],
                ).push(queue_state_line(i as u32, n as u32)));
            }
            i = i + 1;
        }
    }

    /// Adds a new member at the tail and broadcasts the changed queue state.
    /// Returns the member's position.
    pub fn enqueue(&mut self, address: Endpoint) -> (position: usize)
        requires
            old(self).wf(),
            !old(self).contains_address(address),
            old(self).entries().len() < u32::MAX,
        ensures
            final(self).wf(),
            position == old(self).entries().len(),
            final(self).entries().len() == old(self).entries().len() + 1,
            final(self).entries()[position as int].address == address,
            outbox_lines(final(self).entries()[position as int]) == seq![
                queue_state_line(position as u32, final(self).entries().len() as u32),
            ],
            forall|j: int|
                0 <= j < position ==> {
                    &&& (#[trigger] final(self).entries()[j]).address == old(self).entries()[
                        j
                    ].address
                    &&& outbox_lines(final(self).entries()[j]) == outbox_lines(
                        old(self).entries()[j],
                    ).push(queue_state_line(j as u32, final(self).entries().len() as u32))
                },
    {
        let position = self.entries.len();
        let entry = QueueEntry {
            address,
            outbox: Vec::new(),
            advertised_position: position as u32,
            advertised_count: (position + 1) as u32,
        };
        self.entries.push(entry);
        self.send_client_states();
        proof {
            assert(outbox_lines(self.entries()[position as int]) =~= seq![
                queue_state_line(position as u32, self.entries().len() as u32),
            ]);
        }
        position
    }

    /// Removes the member with the address, if it is there, and broadcasts
    /// the changed queue state to the remaining members. Removing an unknown
    /// address changes nothing.
    pub fn remove(&mut self, client: Endpoint)
        requires
            old(self).wf(),
        ensures
            final(self).wf(),
            !old(self).contains_address(client) ==> *final(self) == *old(self),
            old(self).contains_address(client) ==> {
                &&& final(self).entries().len() == old(self).entries().len() - 1
                &&& !final(self).contains_address(client)
                &&& exists|i: int|
                    {
                        &&& 0 <= i < old(self).entries().len()
                        &&& old(self).entries()[i].address == client
                        &&& final(self).addresses() == old(self).addresses().remove(i)
                    }
                &&& forall|j: int|
                    0 <= j < final(self).entries().len() ==> outbox_lines(
                        #[trigger] final(self).entries()[j],
                    ).len() > 0 && outbox_lines(final(self).entries()[j]).last()
                        == queue_state_line(j as u32, final(self).entries().len() as u32)
            },
    {
        let r = self.index_of(client);
        match r {
            Some(i) => {
                self.entries.remove(i);
                let ghost mid = *self;
                proof {
                    assert(mid.addresses() =~= old(self).addresses().remove(i as int));
                }
                self.send_client_states();
                proof {
                    assert(self.addresses() =~= mid.addresses());
                    assert forall|j: int|
                        0 <= j < self.entries().len() implies !(self.entries()[j].address
                        == client) by {
                        if j < i {
                            assert(self.entries()[j].address == old(self).entries()[j].address);
                        } else {
                            assert(self.entries()[j].address == old(self).entries()[
                                j + 1
                            ].address);
                        }
                    }
                    assert forall|j: int| 0 <= j < self.entries().len() implies outbox_lines(
                        #[trigger] self.entries()[j],
                    ).len() > 0 && outbox_lines(self.entries()[j]).last() == queue_state_line(
                        j as u32,
                        self.entries().len() as u32,
                    ) by {
                        assert(outbox_lines(self.entries()[j]) == outbox_lines(
                            mid.entries()[j],
                        ).push(queue_state_line(j as u32, self.entries().len() as u32)));
                    }
                }
            },
            None => {
            },
        }
    }
}

} // verus!
