//! The two bounded queues between the short-range side and the long-range
//! side, each an `embassy_sync` channel of messages.
//!
//! A channel keeps its messages in the order in which they were sent and
//! holds no more of them than its capacity. A send to a full channel does
//! not wait: the message is dropped, and what the channel holds stays.
//!
//! Verus does not look inside a channel. What one holds goes by the names
//! [`outbound_queue`] and [`inbound_queue`], and the private functions of
//! this module say of `embassy_sync` what the rest relies on. A value of
//! [`Outbound`] or [`Inbound`] is the only way to its channel, so nothing
//! changes a channel but the calls that are made on that value.

use crate::message::Message;
use embassy_sync::blocking_mutex::raw::NoopRawMutex;
use embassy_sync::channel::{Channel, TrySendError};
use vstd::prelude::*;

verus! {

/// Messages that may wait for the long-range link: a handful of sends in
/// quick succession.
pub const OUTBOUND_CAPACITY: usize = 5;

/// Messages that may wait for the phone: what arrives while it is away.
pub const INBOUND_CAPACITY: usize = 10;

/// What became of a message that was offered to a channel.
#[derive(Debug, Clone, Copy, PartialEq, Eq, Structural)]
pub enum Handoff {
    /// The message waits in the channel, behind those that were there.
    Queued,
    /// The channel was full and the message is lost.
    Dropped,
}

/// What a channel with room for `capacity` messages holds after `message`
/// was offered to it.
pub open spec fn offered(queue: Seq<Message>, message: Message, capacity: nat) -> Seq<Message> {
    if queue.len() < capacity {
        queue.push(message)
    } else {
        queue
    }
}

/// What becomes of a message that is offered to a channel with room for
/// `capacity` messages.
pub open spec fn handoff_to(queue: Seq<Message>, capacity: nat) -> Handoff {
    if queue.len() < capacity {
        Handoff::Queued
    } else {
        Handoff::Dropped
    }
}

/// The channel toward the long-range link: an `embassy_sync` `Channel`
/// with room for 5 messages, which no one else holds.
#[verifier::external_body]
pub struct Outbound {
    channel: Channel<NoopRawMutex, Message, 5>,
}

/// The channel toward the short-range link: an `embassy_sync` `Channel`
/// with room for 10 messages, which no one else holds.
#[verifier::external_body]
pub struct Inbound {
    channel: Channel<NoopRawMutex, Message, 10>,
}

/// The messages that wait in the channel toward the long-range link, the
/// oldest first.
pub uninterp spec fn outbound_queue(ch: Outbound) -> Seq<Message>;

/// The messages that wait in the channel toward the short-range link, the
/// oldest first.
pub uninterp spec fn inbound_queue(ch: Inbound) -> Seq<Message>;

/// `Channel::new` with room for 5 messages: a channel that holds none.
#[verifier::external_body]
fn outbound_new() -> (ch: Outbound)
    ensures
        outbound_queue(ch) == Seq::<Message>::empty(),
{
    Outbound { channel: Channel::new() }
}

/// `Channel::try_send` on a channel of 5: where fewer than 5 messages wait,
/// the message joins them as the last; where 5 wait, the channel stays as it
/// is and the message comes back.
#[verifier::external_body]
fn outbound_try_send(ch: &mut Outbound, message: Message) -> (r: Result<(), Message>)
    ensures
        outbound_queue(*old(ch)).len() < 5 ==> r is Ok && outbound_queue(*final(ch))
            == outbound_queue(*old(ch)).push(message),
        outbound_queue(*old(ch)).len() >= 5 ==> r is Err && r->Err_0 == message
            && outbound_queue(*final(ch)) == outbound_queue(*old(ch)),
{
    match ch.channel.try_send(message) {
        Ok(()) => Ok(()),
        Err(TrySendError::Full(message)) => Err(message),
    }
}

/// `Channel::try_receive` on a channel of 5: hands out the oldest message
/// that waits and takes it off the channel; `None` where none waits.
#[verifier::external_body]
fn outbound_try_receive(ch: &mut Outbound) -> (r: Option<Message>)
    ensures
        outbound_queue(*old(ch)).len() == 0 ==> r.is_none() && outbound_queue(*final(ch))
            == outbound_queue(*old(ch)),
        outbound_queue(*old(ch)).len() > 0 ==> r == Some(outbound_queue(*old(ch))[0])
            && outbound_queue(*final(ch)) == outbound_queue(*old(ch)).drop_first(),
{
    match ch.channel.try_receive() {
        Ok(message) => Some(message),
        Err(_) => None,
    }
}

/// `Channel::new` with room for 10 messages: a channel that holds none.
#[verifier::external_body]
fn inbound_new() -> (ch: Inbound)
    ensures
        inbound_queue(ch) == Seq::<Message>::empty(),
{
    Inbound { channel: Channel::new() }
}

/// `Channel::try_send` on a channel of 10: where fewer than 10 messages
/// wait, the message joins them as the last; where 10 wait, the channel
/// stays as it is and the message comes back.
#[verifier::external_body]
fn inbound_try_send(ch: &mut Inbound, message: Message) -> (r: Result<(), Message>)
    ensures
        inbound_queue(*old(ch)).len() < 10 ==> r is Ok && inbound_queue(*final(ch))
            == inbound_queue(*old(ch)).push(message),
        inbound_queue(*old(ch)).len() >= 10 ==> r is Err && r->Err_0 == message
            && inbound_queue(*final(ch)) == inbound_queue(*old(ch)),
{
    match ch.channel.try_send(message) {
        Ok(()) => Ok(()),
        Err(TrySendError::Full(message)) => Err(message),
    }
}

/// `Channel::try_receive` on a channel of 10: hands out the oldest message
/// that waits and takes it off the channel; `None` where none waits.
#[verifier::external_body]
fn inbound_try_receive(ch: &mut Inbound) -> (r: Option<Message>)
    ensures
        inbound_queue(*old(ch)).len() == 0 ==> r.is_none() && inbound_queue(*final(ch))
            == inbound_queue(*old(ch)),
        inbound_queue(*old(ch)).len() > 0 ==> r == Some(inbound_queue(*old(ch))[0])
            && inbound_queue(*final(ch)) == inbound_queue(*old(ch)).drop_first(),
{
    match ch.channel.try_receive() {
        Ok(message) => Some(message),
        Err(_) => None,
    }
}

impl View for Outbound {
    type V = Seq<Message>;

    open spec fn view(&self) -> Seq<Message> {
        outbound_queue(*self)
    }
}

impl View for Inbound {
    type V = Seq<Message>;

    open spec fn view(&self) -> Seq<Message> {
        inbound_queue(*self)
    }
}

impl Outbound {
    /// A channel in which nothing waits.
    pub fn new() -> (ch: Self)
        ensures
            ch@ == Seq::<Message>::empty(),
    {
        outbound_new()
    }

    /// Offers a message to the channel without waiting. Where fewer than 5
    /// messages wait, it is queued behind them. Where the channel is full,
    /// the message is dropped and the channel holds what it held.
    pub fn offer(&mut self, message: Message) -> (handoff: Handoff)
        ensures
            old(self)@.len() < OUTBOUND_CAPACITY ==> handoff == Handoff::Queued && final(self)@
                == old(self)@.push(message),
            old(self)@.len() >= OUTBOUND_CAPACITY ==> handoff == Handoff::Dropped && final(self)@
                == old(self)@,
            handoff == handoff_to(old(self)@, 5),
            final(self)@ == offered(old(self)@, message, 5),
    {
        match outbound_try_send(self, message) {
            Ok(()) => Handoff::Queued,
            Err(_) => Handoff::Dropped,
        }
    }

    /// Takes the oldest message off the channel; `None` where none waits.
    pub fn take(&mut self) -> (message: Option<Message>)
        ensures
            old(self)@.len() == 0 ==> message.is_none() && final(self)@ == old(self)@,
            old(self)@.len() > 0 ==> message == Some(old(self)@[0]) && final(self)@ == old(
                self,
            )@.drop_first(),
    {
        outbound_try_receive(self)
    }
}

impl Inbound {
    /// A channel in which nothing waits.
    pub fn new() -> (ch: Self)
        ensures
            ch@ == Seq::<Message>::empty(),
    {
        inbound_new()
    }

    /// Offers a message to the channel without waiting. Where fewer than 10
    /// messages wait, it is queued behind them. Where the channel is full,
    /// the message is dropped and the channel holds what it held.
    pub fn offer(&mut self, message: Message) -> (handoff: Handoff)
        ensures
            old(self)@.len() < INBOUND_CAPACITY ==> handoff == Handoff::Queued && final(self)@
                == old(self)@.push(message),
            old(self)@.len() >= INBOUND_CAPACITY ==> handoff == Handoff::Dropped && final(self)@
                == old(self)@,
            handoff == handoff_to(old(self)@, 10),
            final(self)@ == offered(old(self)@, message, 10),
    {
        match inbound_try_send(self, message) {
            Ok(()) => Handoff::Queued,
            Err(_) => Handoff::Dropped,
        }
    }

    /// Takes the oldest message off the channel; `None` where none waits.
    pub fn take(&mut self) -> (message: Option<Message>)
        ensures
            old(self)@.len() == 0 ==> message.is_none() && final(self)@ == old(self)@,
            old(self)@.len() > 0 ==> message == Some(old(self)@[0]) && final(self)@ == old(
                self,
            )@.drop_first(),
    {
        inbound_try_receive(self)
    }
}

} // verus!
