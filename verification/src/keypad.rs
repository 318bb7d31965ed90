//! The keypad facade over an event channel, and the rule by which a driver
//! that polls a hardware queue waits for a key.

use crate::channel::{after_receive, offered, EventChannel};
use crate::grid::{decode_key, legal_message, message_key};
use crate::hardware::KeypadDriver;
use crate::key::Key;
use vstd::prelude::*;

verus! {

/// What a driver that polls for a key does next.
#[derive(Debug, Copy, Clone, PartialEq, Eq, Structural)]
pub enum WaitStep {
    /// A message is waiting: report it, and leave it in the queue.
    Ready,
    /// No message is waiting and the time is up: report that none is.
    TimedOut,
    /// Look again.
    Poll,
}

/// The verdict of one look at the queue. The queue is tested first: a message
/// that is waiting is reported, whatever the time, so that a wait says whether
/// a message is available now.
pub open spec fn wait_verdict(elapsed_ms: u64, timeout_ms: u64, ready: bool) -> WaitStep {
    if ready {
        WaitStep::Ready
    } else if elapsed_ms >= timeout_ms {
        WaitStep::TimedOut
    } else {
        WaitStep::Poll
    }
}

/// One look at the queue, `elapsed_ms` after the wait began.
pub fn wait_step(elapsed_ms: u64, timeout_ms: u64, ready: bool) -> (step: WaitStep)
    ensures
        step == wait_verdict(elapsed_ms, timeout_ms, ready),
{
    if ready {
        WaitStep::Ready
    } else if elapsed_ms >= timeout_ms {
        WaitStep::TimedOut
    } else {
        WaitStep::Poll
    }
}

/// The keys that a queue of legal messages stands for.
pub open spec fn keys_of(queue: Seq<u32>) -> Seq<Key> {
    queue.map_values(|msg: u32| message_key(msg as int))
}

/// A keypad fed through an event channel that it owns. Whoever stands for the
/// scanner delivers messages; the run loop reads keys.
pub struct Keypad {
    channel: EventChannel,
    asked: Option<u64>,
}

impl View for Keypad {
    type V = Seq<u32>;

    closed spec fn view(&self) -> Seq<u32> {
        self.channel@
    }
}

impl Keypad {
    #[verifier::type_invariant]
    spec fn channel_wf(self) -> bool {
        self.channel.wf()
    }

    /// The number of messages that the keypad's channel can hold.
    pub closed spec fn limit(&self) -> nat {
        self.channel.limit()
    }

    /// A keypad that reads from `channel`.
    pub fn new(channel: EventChannel) -> (keypad: Keypad)
        requires
            channel.wf(),
        ensures
            keypad@ == channel@,
            keypad.limit() == channel.limit(),
            keypad.asked() is None,
    {
        Keypad { channel, asked: None }
    }

    /// The producer's end: offers a message without waiting. The message is
    /// accepted exactly when the channel is not full.
    pub fn deliver(&mut self, msg: u32) -> (accepted: bool)
        requires
            legal_message(msg as int),
        ensures
            final(self).limit() == old(self).limit(),
            accepted == (old(self)@.len() < old(self).limit()),
            final(self)@ == offered(old(self)@, old(self).limit(), msg),
            final(self).asked() == old(self).asked(),
    {
        proof {
            use_type_invariant(&*self);
        }
        let mut channel = EventChannel::new(0);
        core::mem::swap(&mut self.channel, &mut channel);
        let accepted = channel.try_send(msg);
        self.channel = channel;
        accepted
    }

    /// Waits and reads in one: the oldest key, if one is waiting. The keypad
    /// owns its channel, so nothing can arrive while it waits, and it does not
    /// wait.
    pub fn read_key_within(&mut self, timeout_ms: u64) -> (key: Option<Key>)
        ensures
            final(self).limit() == old(self).limit(),
            final(self).asked() == Some(timeout_ms),
            key is Some <==> old(self)@.len() > 0,
            key is Some ==> key == Some(message_key(old(self)@[0] as int)),
            final(self)@ == after_receive(old(self)@),
    {
        if self.wait_for_key(timeout_ms) {
            self.read_key()
        } else {
            None
        }
    }

    /// The time for which the keypad was last asked to wait, if it ever was.
    pub fn last_wait(&self) -> (timeout_ms: Option<u64>)
        ensures
            timeout_ms == self.asked(),
    {
        self.asked
    }

    /// The number of messages waiting.
    pub fn waiting(&self) -> (n: usize)
        ensures
            n == self@.len(),
    {
        self.channel.len()
    }
}

impl KeypadDriver for Keypad {
    /// The keys that the waiting messages stand for.
    open spec fn pending(&self) -> Seq<Key> {
        keys_of(self@)
    }

    /// The time for which the keypad was last asked to wait.
    closed spec fn asked(&self) -> Option<u64> {
        self.asked
    }

    /// Takes the oldest message and hands out its key. A key is handed out
    /// once: its message is gone from the queue.
    fn read_key(&mut self) -> (key: Option<Key>)
        ensures
            final(self).limit() == old(self).limit(),
            key is Some <==> old(self)@.len() > 0,
            key is Some ==> key == Some(message_key(old(self)@[0] as int)),
            final(self)@ == after_receive(old(self)@),
    {
        proof {
            use_type_invariant(&*self);
        }
        let mut channel = EventChannel::new(0);
        core::mem::swap(&mut self.channel, &mut channel);
        let msg = channel.try_receive();
        self.channel = channel;
        match msg {
            Some(msg) => decode_key(msg),
            None => None,
        }
    }

    /// Says whether a key is waiting, and takes nothing. The keypad owns its
    /// channel, so nothing can arrive while it waits, and it does not wait.
    fn wait_for_key(&mut self, timeout_ms: u64) -> (ready: bool)
        ensures
            final(self)@ == old(self)@,
            final(self).limit() == old(self).limit(),
            ready == (old(self)@.len() > 0),
    {
        proof {
            use_type_invariant(&*self);
        }
        self.asked = Some(timeout_ms);
        !self.channel.is_empty()
    }
}

} // verus!
