//! The event channel: a bounded first-in, first-out queue of key messages with
//! one producer, the scanner, and one consumer, the keypad facade.
//!
//! Neither end waits here. A producer that must not lose a message offers it
//! again until it is taken; a consumer that waits looks again until its time
//! is up. The channel never drops, reorders or alters what it has accepted.

use crate::grid::legal_message;
use std::collections::VecDeque;
use vstd::prelude::*;

verus! {

/// The queue after a message was offered: the message goes to the back when
/// there is room, and a full queue stays as it was.
pub open spec fn offered(queue: Seq<u32>, capacity: nat, msg: u32) -> Seq<u32> {
    if queue.len() < capacity {
        queue.push(msg)
    } else {
        queue
    }
}

/// The queue after each of `msgs` was offered in turn.
pub open spec fn offered_all(queue: Seq<u32>, capacity: nat, msgs: Seq<u32>) -> Seq<u32>
    decreases msgs.len(),
{
    if msgs.len() == 0 {
        queue
    } else {
        offered_all(offered(queue, capacity, msgs[0]), capacity, msgs.skip(1))
    }
}

/// The queue after one receive: the oldest message is gone, and an empty
/// queue stays empty.
pub open spec fn after_receive(queue: Seq<u32>) -> Seq<u32> {
    if queue.len() > 0 {
        queue.skip(1)
    } else {
        queue
    }
}

/// What `n` receives in a row hand out, oldest first. An empty queue hands out
/// nothing.
pub open spec fn received(queue: Seq<u32>, n: nat) -> Seq<u32>
    decreases n,
{
    if n == 0 || queue.len() == 0 {
        Seq::empty()
    } else {
        seq![queue[0]] + received(queue.skip(1), (n - 1) as nat)
    }
}

/// Whether every message of a queue carries a cell of the grid.
pub open spec fn all_legal(queue: Seq<u32>) -> bool {
    forall|i: int| 0 <= i < queue.len() ==> legal_message(#[trigger] queue[i] as int)
}

/// A bounded queue of key messages.
pub struct EventChannel {
    queue: VecDeque<u32>,
    capacity: usize,
}

impl View for EventChannel {
    type V = Seq<u32>;

    closed spec fn view(&self) -> Seq<u32> {
        self.queue@
    }
}

impl EventChannel {
    /// The number of messages that the channel can hold.
    pub closed spec fn limit(&self) -> nat {
        self.capacity as nat
    }

    /// The channel holds no more than its capacity, and only legal messages.
    pub open spec fn wf(&self) -> bool {
        &&& self@.len() <= self.limit()
        &&& all_legal(self@)
    }

    /// An empty channel that holds up to `capacity` messages.
    pub fn new(capacity: usize) -> (channel: EventChannel)
        ensures
            channel.wf(),
            channel@ == Seq::<u32>::empty(),
            channel.limit() == capacity,
    {
        EventChannel { queue: VecDeque::new(), capacity }
    }

    /// The number of messages that the channel can hold.
    pub fn capacity(&self) -> (n: usize)
        ensures
            n == self.limit(),
    {
        self.capacity
    }

    /// The number of messages waiting.
    pub fn len(&self) -> (n: usize)
        ensures
            n == self@.len(),
    {
        self.queue.len()
    }

    /// Whether no message is waiting.
    pub fn is_empty(&self) -> (b: bool)
        ensures
            b == (self@.len() == 0),
    {
        self.queue.len() == 0
    }

    /// Whether the channel has no room for another message.
    pub fn is_full(&self) -> (b: bool)
        ensures
            b == (self@.len() >= self.limit()),
    {
        self.queue.len() >= self.capacity
    }

    /// Offers a message without waiting. The message is accepted, and goes to
    /// the back of the queue, exactly when the channel is not full; otherwise
    /// the channel is left as it was, and the producer may offer again.
    pub fn try_send(&mut self, msg: u32) -> (accepted: bool)
        requires
            old(self).wf(),
            legal_message(msg as int),
        ensures
            final(self).wf(),
            final(self).limit() == old(self).limit(),
            accepted == (old(self)@.len() < old(self).limit()),
            final(self)@ == offered(old(self)@, old(self).limit(), msg),
    {
        if self.queue.len() < self.capacity {
            self.queue.push_back(msg);
            true
        } else {
            false
        }
    }

    /// Takes the oldest message without waiting, if there is one.
    pub fn try_receive(&mut self) -> (msg: Option<u32>)
        requires
            old(self).wf(),
        ensures
            final(self).wf(),
            final(self).limit() == old(self).limit(),
            msg is Some <==> old(self)@.len() > 0,
            msg is Some ==> msg == Some(old(self)@[0]) && legal_message(msg->0 as int),
            final(self)@ == after_receive(old(self)@),
    {
        let msg = self.queue.pop_front();
        proof {
            if old(self)@.len() > 0 {
                assert(old(self)@.skip(1) =~= old(self)@.subrange(1, old(self)@.len() as int));
            }
        }
        msg
    }
}

/// Messages that are offered while there is room queue up behind what is
/// already waiting, in the order in which they were offered.
pub proof fn lemma_offers_queue_in_order(queue: Seq<u32>, capacity: nat, msgs: Seq<u32>)
    requires
        queue.len() + msgs.len() <= capacity,
    ensures
        offered_all(queue, capacity, msgs) == queue + msgs,
    decreases msgs.len(),
{
    if msgs.len() == 0 {
        assert(queue + msgs =~= queue);
    } else {
        lemma_offers_queue_in_order(queue.push(msgs[0]), capacity, msgs.skip(1));
        assert(queue.push(msgs[0]) + msgs.skip(1) =~= queue + msgs);
    }
}

/// Receiving hands out the front of the queue, oldest first.
pub proof fn lemma_received_is_front(queue: Seq<u32>, n: nat)
    ensures
        received(queue, n) == queue.take(if n <= queue.len() { n as int } else { queue.len() as int }),
    decreases n,
{
    if n == 0 || queue.len() == 0 {
        assert(received(queue, n) =~= queue.take(0));
    } else {
        lemma_received_is_front(queue.skip(1), (n - 1) as nat);
        let k = if n <= queue.len() { n as int } else { queue.len() as int };
        assert(seq![queue[0]] + queue.skip(1).take(k - 1) =~= queue.take(k));
    }
}

/// First in, first out: what is sent into a channel with room comes out in
/// the order in which it went in, nothing lost and nothing added.
pub proof fn lemma_fifo(capacity: nat, msgs: Seq<u32>)
    requires
        msgs.len() <= capacity,
    ensures
        received(offered_all(Seq::empty(), capacity, msgs), msgs.len()) == msgs,
{
    lemma_offers_queue_in_order(Seq::empty(), capacity, msgs);
    assert(Seq::<u32>::empty() + msgs =~= msgs);
    lemma_received_is_front(msgs, msgs.len());
    assert(msgs.take(msgs.len() as int) =~= msgs);
}

} // verus!
