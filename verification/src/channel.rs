//! The dispatch channel: an unbounded first-in, first-out queue between the
//! pool, which sends, and its workers, which receive one message at a time.
//!
//! The channel holds no lock of its own. Its methods take `&mut self`, so a
//! caller that shares it between threads puts it behind a lock and thereby
//! gives each receiver exclusive access for exactly one extraction.

use std::collections::VecDeque;
use vstd::prelude::*;

verus! {

/// Why a receive produced no message.
#[derive(Clone, Copy, Debug, PartialEq, Eq, Structural)]
pub enum ReceiveError {
    /// Nothing is queued, but the sending side is still open: a message may
    /// yet arrive, and the receiver waits.
    Empty,
    /// Nothing is queued and the sending side has been closed: no message
    /// will ever arrive.
    Disconnected,
}

/// The mathematical state of a channel.
pub struct ChannelView<M> {
    /// Accepted messages that no receiver has taken yet, oldest first.
    pub queue: Seq<M>,
    /// The sending side has not been disposed of.
    pub sender_open: bool,
    /// The receiving side has not been withdrawn.
    pub receiver_open: bool,
}

impl<M> ChannelView<M> {
    /// A fresh channel: nothing queued, both sides open.
    pub open spec fn opened() -> Self {
        ChannelView { queue: Seq::empty(), sender_open: true, receiver_open: true }
    }

    /// Whether a send is accepted: only a withdrawn receiving side refuses it.
    pub open spec fn accepts(self) -> bool {
        self.receiver_open
    }

    /// The state after an attempt to send `message`: appended behind
    /// everything already accepted, or nothing changed where it is refused.
    pub open spec fn send(self, message: M) -> Self {
        if self.accepts() {
            ChannelView { queue: self.queue.push(message), ..self }
        } else {
            self
        }
    }

    /// The state after the attempt to send each of `messages` in order.
    pub open spec fn send_all(self, messages: Seq<M>) -> Self {
        if self.accepts() {
            ChannelView { queue: self.queue + messages, ..self }
        } else {
            self
        }
    }

    /// What a receive hands out: the oldest message, or the reason there is
    /// none.
    pub open spec fn next(self) -> Result<M, ReceiveError> {
        if self.queue.len() > 0 {
            Ok(self.queue[0])
        } else if self.sender_open {
            Err(ReceiveError::Empty)
        } else {
            Err(ReceiveError::Disconnected)
        }
    }

    /// The state after a receive: the oldest message, if any, is gone.
    pub open spec fn receive(self) -> Self {
        if self.queue.len() > 0 {
            ChannelView { queue: self.queue.drop_first(), ..self }
        } else {
            self
        }
    }

    /// The state after the sending side is disposed of.
    pub open spec fn close_sender(self) -> Self {
        ChannelView { sender_open: false, ..self }
    }

    /// The state after the receiving side is withdrawn.
    pub open spec fn close_receiver(self) -> Self {
        ChannelView { receiver_open: false, ..self }
    }
}

/// A first-in, first-out queue of messages with two sides that can be closed
/// independently.
pub struct DispatchChannel<M> {
    queue: VecDeque<M>,
    sender_open: bool,
    receiver_open: bool,
}

impl<M> View for DispatchChannel<M> {
    type V = ChannelView<M>;

    closed spec fn view(&self) -> ChannelView<M> {
        ChannelView {
            queue: self.queue@,
            sender_open: self.sender_open,
            receiver_open: self.receiver_open,
        }
    }
}

impl<M> DispatchChannel<M> {
    /// Creates an empty channel with both sides open.
    pub fn new() -> (channel: Self)
        ensures
            channel@ == ChannelView::<M>::opened(),
    {
        DispatchChannel { queue: VecDeque::new(), sender_open: true, receiver_open: true }
    }

    /// Accepts `message` behind everything accepted before it, without
    /// waiting for a receiver. Fails, handing the message back, only when the
    /// receiving side has been withdrawn.
    pub fn send(&mut self, message: M) -> (outcome: Result<(), M>)
        ensures
            final(self)@ == old(self)@.send(message),
            old(self)@.accepts() ==> outcome == Ok::<(), M>(()),
            !old(self)@.accepts() ==> outcome == Err::<(), M>(message),
    {
        if self.receiver_open {
            self.queue.push_back(message);
            Ok(())
        } else {
            Err(message)
        }
    }

    /// Takes the oldest message out of the queue. Where the queue is empty it
    /// says whether a message may still arrive (`Empty`) or never will
    /// (`Disconnected`); the caller that wants to block waits and calls again
    /// on `Empty`.
    pub fn receive(&mut self) -> (outcome: Result<M, ReceiveError>)
        ensures
            outcome == old(self)@.next(),
            final(self)@ == old(self)@.receive(),
    {
        match self.queue.pop_front() {
            Some(message) => {
                assert(self.queue@ =~= old(self).queue@.drop_first());
                Ok(message)
            },
            None => {
                if self.sender_open {
                    Err(ReceiveError::Empty)
                } else {
                    Err(ReceiveError::Disconnected)
                }
            },
        }
    }

    /// Disposes of the sending side. Messages already accepted stay queued
    /// and are still delivered.
    pub fn close_sender(&mut self)
        ensures
            final(self)@ == old(self)@.close_sender(),
    {
        self.sender_open = false;
    }

    /// Withdraws the receiving side: every later send is refused.
    pub fn close_receiver(&mut self)
        ensures
            final(self)@ == old(self)@.close_receiver(),
    {
        self.receiver_open = false;
    }

    /// The number of messages waiting to be received.
    pub fn len(&self) -> (n: usize)
        ensures
            n == self@.queue.len(),
    {
        self.queue.len()
    }

    /// Whether no message is waiting.
    pub fn is_empty(&self) -> (empty: bool)
        ensures
            empty == (self@.queue.len() == 0),
    {
        self.queue.len() == 0
    }

    /// Whether the sending side is still open.
    pub fn is_sender_open(&self) -> (open: bool)
        ensures
            open == self@.sender_open,
    {
        self.sender_open
    }

    /// Whether the receiving side is still attached.
    pub fn is_receiver_open(&self) -> (open: bool)
        ensures
            open == self@.receiver_open,
    {
        self.receiver_open
    }
}

} // verus!
