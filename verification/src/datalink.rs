//! The virtual datalink: a pair of bounded queues of whole IP packets that stands
//! between the tunnel and the TCP/IP stack in place of a network interface. It does
//! not look into the packets.

use std::collections::VecDeque;
use vstd::prelude::*;

verus! {

/// The number of packets that each direction holds unless told otherwise.
pub const DEFAULT_CAPACITY: usize = 16;

/// The largest packet of the link unless told otherwise: what is left of 1500 bytes
/// once the tunnel has taken its share.
pub const DEFAULT_MTU: usize = 1420;

/// The packets of a queue after one more was offered: it stands at the end if the queue
/// had room, and is left out if it had none.
pub open spec fn offered(packets: Seq<Vec<u8>>, capacity: usize, packet: Vec<u8>) -> Seq<Vec<u8>> {
    if packets.len() < capacity {
        packets.push(packet)
    } else {
        packets
    }
}

/// The packets of a queue after the oldest was taken.
pub open spec fn taken(packets: Seq<Vec<u8>>) -> Seq<Vec<u8>> {
    if packets.len() > 0 {
        packets.drop_first()
    } else {
        packets
    }
}

/// A queue of packets that holds no more than its capacity.
#[derive(Clone, Debug, PartialEq, Eq)]
pub struct PacketQueue {
    pub capacity: usize,
    /// The packets, oldest first.
    pub packets: VecDeque<Vec<u8>>,
}

impl PacketQueue {
    /// The queue holds no more than its capacity.
    pub open spec fn wf(&self) -> bool {
        self.packets@.len() <= self.capacity
    }

    /// True if the queue takes one more packet.
    pub open spec fn has_room(&self) -> bool {
        self.packets@.len() < self.capacity
    }

    /// An empty queue.
    pub fn new(capacity: usize) -> (queue: PacketQueue)
        ensures
            queue.capacity == capacity,
            queue.packets@ == Seq::<Vec<u8>>::empty(),
            queue.wf(),
    {
        PacketQueue { capacity, packets: VecDeque::new() }
    }

    /// The number of packets in the queue.
    pub fn len(&self) -> (len: usize)
        ensures
            len == self.packets@.len(),
    {
        self.packets.len()
    }

    /// Puts a packet at the end of the queue. A full queue stays as it is and hands the
    /// packet back, for the caller to offer again.
    pub fn push(&mut self, packet: Vec<u8>) -> (refused: Option<Vec<u8>>)
        ensures
            final(self).capacity == old(self).capacity,
            final(self).packets@ == offered(old(self).packets@, old(self).capacity, packet),
            old(self).has_room() ==> refused is None,
            !old(self).has_room() ==> refused == Some(packet),
            old(self).wf() ==> final(self).wf(),
    {
        if self.packets.len() < self.capacity {
            self.packets.push_back(packet);
            None
        } else {
            Some(packet)
        }
    }

    /// Takes the oldest packet off the queue, if there is one.
    pub fn pop(&mut self) -> (packet: Option<Vec<u8>>)
        ensures
            final(self).capacity == old(self).capacity,
            final(self).packets@ == taken(old(self).packets@),
            old(self).packets@.len() == 0 ==> packet is None,
            old(self).packets@.len() > 0 ==> packet == Some(old(self).packets@[0]),
            old(self).wf() ==> final(self).wf(),
    {
        let packet = self.packets.pop_front();
        proof {
            if old(self).packets@.len() > 0 {
                assert(self.packets@ =~= old(self).packets@.drop_first());
            }
        }
        packet
    }
}

/// The two directions of the link.
#[derive(Clone, Debug, PartialEq, Eq)]
pub struct VirtualDatalink {
    /// The largest packet that the stack may send.
    pub mtu: usize,
    /// Packets from the tunnel that the stack has not received yet.
    pub ingress: PacketQueue,
    /// Packets from the stack that the tunnel has not taken yet.
    pub egress: PacketQueue,
}

impl VirtualDatalink {
    /// Neither direction holds more than its capacity.
    pub open spec fn wf(&self) -> bool {
        self.ingress.wf() && self.egress.wf()
    }

    /// A link with empty queues.
    pub fn new(capacity: usize, mtu: usize) -> (link: VirtualDatalink)
        ensures
            link.mtu == mtu,
            link.ingress.capacity == capacity,
            link.egress.capacity == capacity,
            link.ingress.packets@ == Seq::<Vec<u8>>::empty(),
            link.egress.packets@ == Seq::<Vec<u8>>::empty(),
            link.wf(),
    {
        VirtualDatalink {
            mtu,
            ingress: PacketQueue::new(capacity),
            egress: PacketQueue::new(capacity),
        }
    }

    /// A link of 16 packets each way and an MTU of 1420 bytes.
    pub fn with_defaults() -> (link: VirtualDatalink)
        ensures
            link.mtu == DEFAULT_MTU,
            link.ingress.capacity == DEFAULT_CAPACITY,
            link.egress.capacity == DEFAULT_CAPACITY,
            link.ingress.packets@ == Seq::<Vec<u8>>::empty(),
            link.egress.packets@ == Seq::<Vec<u8>>::empty(),
            link.wf(),
    {
        VirtualDatalink::new(DEFAULT_CAPACITY, DEFAULT_MTU)
    }

    /// The tunnel hands over a decrypted packet for the stack. If the ingress queue is
    /// full, the link stays as it is and hands the packet back.
    pub fn inject(&mut self, packet: Vec<u8>) -> (refused: Option<Vec<u8>>)
        ensures
            final(self).mtu == old(self).mtu,
            final(self).egress == old(self).egress,
            final(self).ingress.capacity == old(self).ingress.capacity,
            final(self).ingress.packets@ == offered(
                old(self).ingress.packets@,
                old(self).ingress.capacity,
                packet,
            ),
            old(self).ingress.has_room() ==> refused is None,
            !old(self).ingress.has_room() ==> refused == Some(packet),
            old(self).wf() ==> final(self).wf(),
    {
        self.ingress.push(packet)
    }

    /// The stack receives the next packet from the tunnel, if one waits.
    pub fn receive(&mut self) -> (packet: Option<Vec<u8>>)
        ensures
            final(self).mtu == old(self).mtu,
            final(self).egress == old(self).egress,
            final(self).ingress.capacity == old(self).ingress.capacity,
            final(self).ingress.packets@ == taken(old(self).ingress.packets@),
            old(self).ingress.packets@.len() == 0 ==> packet is None,
            old(self).ingress.packets@.len() > 0 ==> packet == Some(old(self).ingress.packets@[0]),
            old(self).wf() ==> final(self).wf(),
    {
        self.ingress.pop()
    }

    /// The stack transmits a packet to the tunnel. If the egress queue is full, the
    /// link stays as it is and hands the packet back.
    pub fn transmit(&mut self, packet: Vec<u8>) -> (refused: Option<Vec<u8>>)
        ensures
            final(self).mtu == old(self).mtu,
            final(self).ingress == old(self).ingress,
            final(self).egress.capacity == old(self).egress.capacity,
            final(self).egress.packets@ == offered(
                old(self).egress.packets@,
                old(self).egress.capacity,
                packet,
            ),
            old(self).egress.has_room() ==> refused is None,
            !old(self).egress.has_room() ==> refused == Some(packet),
            old(self).wf() ==> final(self).wf(),
    {
        self.egress.push(packet)
    }

    /// The tunnel takes the next packet from the stack, if one waits.
    pub fn emit(&mut self) -> (packet: Option<Vec<u8>>)
        ensures
            final(self).mtu == old(self).mtu,
            final(self).ingress == old(self).ingress,
            final(self).egress.capacity == old(self).egress.capacity,
            final(self).egress.packets@ == taken(old(self).egress.packets@),
            old(self).egress.packets@.len() == 0 ==> packet is None,
            old(self).egress.packets@.len() > 0 ==> packet == Some(old(self).egress.packets@[0]),
            old(self).wf() ==> final(self).wf(),
    {
        self.egress.pop()
    }
}

/// One thing that happens to a queue.
pub enum QueueStep {
    /// This packet is offered.
    Offer(Vec<u8>),
    /// The oldest packet is taken, if there is one.
    Take,
}

/// The packets of a queue after one step.
pub open spec fn queue_step(packets: Seq<Vec<u8>>, capacity: usize, step: QueueStep) -> Seq<Vec<u8>> {
    match step {
        QueueStep::Offer(packet) => offered(packets, capacity, packet),
        QueueStep::Take => taken(packets),
    }
}

/// The packets of a queue after a sequence of steps.
pub open spec fn queue_run(packets: Seq<Vec<u8>>, capacity: usize, steps: Seq<QueueStep>) -> Seq<
    Vec<u8>,
>
    decreases steps.len(),
{
    if steps.len() == 0 {
        packets
    } else {
        queue_step(queue_run(packets, capacity, steps.drop_last()), capacity, steps.last())
    }
}

/// The packets that went into a queue over a sequence of steps, in order: those that
/// were offered while it had room.
pub open spec fn went_in(packets: Seq<Vec<u8>>, capacity: usize, steps: Seq<QueueStep>) -> Seq<
    Vec<u8>,
>
    decreases steps.len(),
{
    if steps.len() == 0 {
        Seq::empty()
    } else {
        let before = queue_run(packets, capacity, steps.drop_last());
        match steps.last() {
            QueueStep::Offer(packet) if before.len() < capacity => went_in(
                packets,
                capacity,
                steps.drop_last(),
            ).push(packet),
            _ => went_in(packets, capacity, steps.drop_last()),
        }
    }
}

/// The packets that came out of a queue over a sequence of steps, in order.
pub open spec fn came_out(packets: Seq<Vec<u8>>, capacity: usize, steps: Seq<QueueStep>) -> Seq<
    Vec<u8>,
>
    decreases steps.len(),
{
    if steps.len() == 0 {
        Seq::empty()
    } else {
        let before = queue_run(packets, capacity, steps.drop_last());
        match steps.last() {
            QueueStep::Take if before.len() > 0 => came_out(
                packets,
                capacity,
                steps.drop_last(),
            ).push(before[0]),
            _ => came_out(packets, capacity, steps.drop_last()),
        }
    }
}

/// Packets leave a queue whole, in the order in which they went in, none lost and none
/// twice: what came out, followed by what is still in the queue, is what was in it at the
/// start followed by what went in. And the queue never outgrows its capacity.
pub proof fn lemma_queue_keeps_order(packets: Seq<Vec<u8>>, capacity: usize, steps: Seq<QueueStep>)
    ensures
        came_out(packets, capacity, steps) + queue_run(packets, capacity, steps) == packets
            + went_in(packets, capacity, steps),
        packets.len() <= capacity ==> queue_run(packets, capacity, steps).len() <= capacity,
    decreases steps.len(),
{
    if steps.len() == 0 {
        assert(came_out(packets, capacity, steps) + queue_run(packets, capacity, steps) =~= packets
            + went_in(packets, capacity, steps));
    } else {
        let earlier = steps.drop_last();
        lemma_queue_keeps_order(packets, capacity, earlier);
        let before = queue_run(packets, capacity, earlier);
        let out = came_out(packets, capacity, earlier);
        let into = went_in(packets, capacity, earlier);
        assert(out + before == packets + into);
        match steps.last() {
            QueueStep::Offer(packet) => {
                if before.len() < capacity {
                    assert(out + before.push(packet) =~= (out + before).push(packet));
                    assert(packets + into.push(packet) =~= (packets + into).push(packet));
                }
            },
            QueueStep::Take => {
                if before.len() > 0 {
                    assert(out.push(before[0]) + before.drop_first() =~= out + before);
                }
            },
        }
    }
}

} // verus!
