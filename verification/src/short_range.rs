//! What the short-range side decides: a write from the phone becomes a
//! message for the long-range link, and a message from the long-range link
//! becomes a notification to the phone.
//!
//! The attribute server is not in this crate. The task that drives it keeps
//! a [`Link`] and reports every event of the connection to [`step`]. While
//! the phone is connected, each event is followed by one look at the
//! channel from the long-range side, and what is found there is notified.
//! The channels do not depend on the connection: what waits in them when
//! the phone goes away is still there when it comes back.

use crate::channel::{handoff_to, offered, Handoff, Inbound, Outbound};
use crate::error::CodecError;
use crate::message::{decode, decodes_to, encode_failure, frame, Frame, Message};
use vstd::prelude::*;

verus! {

/// What became of a write to the attribute that takes frames from the phone.
#[derive(Debug, Clone, Copy, PartialEq, Eq, Structural)]
pub enum WriteOutcome {
    /// The message waits for the long-range link.
    Queued,
    /// The channel toward the long-range link was full: the message is
    /// lost, and it is for the phone to send it again.
    Dropped,
    /// The payload is no frame.
    Rejected(CodecError),
}

/// What the short-range side has to notify.
#[derive(Debug, Clone, Copy, PartialEq)]
pub enum Notification {
    /// Nothing waits for the phone.
    Idle,
    /// Notify this frame: the payload is the first `len` bytes of its
    /// buffer, and the bytes behind them are zero.
    Notify(Frame),
    /// The oldest message that waited has no frame and is lost.
    Unencodable(CodecError),
}

/// What a write of `data` does to the channel toward the long-range link,
/// which goes from `before` to `after`: the message that `data` decodes to
/// is offered to it.
pub open spec fn written(
    data: Seq<u8>,
    before: Seq<Message>,
    after: Seq<Message>,
    outcome: WriteOutcome,
) -> bool {
    match decode(data) {
        Err(e) => outcome == WriteOutcome::Rejected(e) && after == before,
        Ok(m) => {
            &&& outcome == match handoff_to(before, 5) {
                Handoff::Queued => WriteOutcome::Queued,
                Handoff::Dropped => WriteOutcome::Dropped,
            }
            &&& exists|message: Message| message@ == m && after == offered(before, message, 5)
        },
    }
}

/// What a look at the channel from the long-range link finds, with the
/// channel going from `before` to `after`: the oldest message leaves it and
/// is notified, if it has a frame.
pub open spec fn notified(
    before: Seq<Message>,
    after: Seq<Message>,
    notification: Notification,
) -> bool {
    if before.len() == 0 {
        notification is Idle && after == before
    } else {
        &&& after == before.drop_first()
        &&& match encode_failure(before[0]@, 64) {
            None => {
                &&& notification is Notify
                &&& notification->Notify_0.wf()
                &&& notification->Notify_0.payload() == frame(before[0]@)
            },
            Some(e) => notification == Notification::Unencodable(e),
        }
    }
}

/// Handles a write of `data` to the attribute that takes frames from the
/// phone: decodes it and offers the message to the channel toward the
/// long-range link, without waiting. A payload that is no frame is
/// rejected; a message that finds the channel full is dropped. Nothing is
/// retried.
pub fn on_write(data: &[u8], to_long_range: &mut Outbound) -> (outcome: WriteOutcome)
    ensures
        written(data@, old(to_long_range)@, final(to_long_range)@, outcome),
        outcome is Rejected <==> decode(data@) is Err,
        outcome is Queued ==> final(to_long_range)@.len() == old(to_long_range)@.len() + 1
            && final(to_long_range)@.drop_last() == old(to_long_range)@ && decodes_to(
            data@,
            final(to_long_range)@.last()@,
        ),
        !(outcome is Queued) ==> final(to_long_range)@ == old(to_long_range)@,
{
    match Message::deserialize(data) {
        Ok(message) => match to_long_range.offer(message) {
            Handoff::Queued => WriteOutcome::Queued,
            Handoff::Dropped => WriteOutcome::Dropped,
        },
        Err(e) => WriteOutcome::Rejected(e),
    }
}

/// Takes the oldest message off the channel from the long-range link and
/// encodes it for the attribute that notifies the phone. The message leaves
/// the channel whether or not it has a frame.
pub fn next_notification(from_long_range: &mut Inbound) -> (notification: Notification)
    ensures
        notified(old(from_long_range)@, final(from_long_range)@, notification),
{
    match from_long_range.take() {
        Some(message) => match message.to_frame() {
            Ok(encoded) => Notification::Notify(encoded),
            Err(e) => Notification::Unencodable(e),
        },
        None => Notification::Idle,
    }
}

/// Where the short-range side stands between two events.
#[derive(Debug, Clone, Copy, PartialEq, Eq, Structural)]
pub enum Link {
    /// No phone is connected; the bridge advertises.
    Advertising,
    /// A phone is connected.
    Connected,
}

/// What the task reports.
#[derive(Debug, Clone, Copy, PartialEq)]
pub enum LinkEvent<'a> {
    /// A phone connected.
    Connected,
    /// The phone disconnected.
    Disconnected,
    /// The phone wrote `data` to an attribute; `inbound` tells whether it
    /// is the attribute that takes frames from the phone.
    Write { inbound: bool, data: &'a [u8] },
    /// Any other event of the connection, such as a read.
    Other,
}

/// What a step of the short-range side gives.
#[derive(Debug, Clone, Copy, PartialEq)]
pub struct Turn {
    /// The next state.
    pub link: Link,
    /// What became of the write, where the event was a write of a frame.
    pub write: Option<WriteOutcome>,
    /// What to notify.
    pub notification: Notification,
}

/// What a step of the short-range side does: `turn` for `link` and `event`,
/// with the channel toward the long-range link going from `out_before` to
/// `out_after` and the channel from it from `in_before` to `in_after`.
///
/// - Advertising: a connection is taken up; every other event changes
///   nothing.
/// - Connected, the phone disconnects: the side advertises again. Nothing
///   is notified and both channels keep what they hold.
/// - Connected, a write to the attribute that takes frames: the message is
///   offered to the channel toward the long-range link, see [`written`].
/// - Connected, any event but a disconnect: after the event the oldest
///   message from the long-range link is notified, see [`notified`].
pub open spec fn link_step(
    link: Link,
    event: LinkEvent<'_>,
    out_before: Seq<Message>,
    in_before: Seq<Message>,
    turn: Turn,
    out_after: Seq<Message>,
    in_after: Seq<Message>,
) -> bool {
    match (link, event) {
        (Link::Advertising, LinkEvent::Connected) => {
            &&& turn.link == Link::Connected
            &&& turn.write is None
            &&& turn.notification is Idle
            &&& out_after == out_before
            &&& in_after == in_before
        },
        (Link::Advertising, _) => {
            &&& turn.link == Link::Advertising
            &&& turn.write is None
            &&& turn.notification is Idle
            &&& out_after == out_before
            &&& in_after == in_before
        },
        (Link::Connected, LinkEvent::Disconnected) => {
            &&& turn.link == Link::Advertising
            &&& turn.write is None
            &&& turn.notification is Idle
            &&& out_after == out_before
            &&& in_after == in_before
        },
        (Link::Connected, LinkEvent::Write { inbound: true, data }) => {
            &&& turn.link == Link::Connected
            &&& turn.write is Some
            &&& written(data@, out_before, out_after, turn.write->Some_0)
            &&& notified(in_before, in_after, turn.notification)
        },
        (Link::Connected, _) => {
            &&& turn.link == Link::Connected
            &&& turn.write is None
            &&& out_after == out_before
            &&& notified(in_before, in_after, turn.notification)
        },
    }
}

/// One step of the short-range side: takes the state and the event that
/// the task reports, and gives the next state and what to notify. See
/// [`link_step`] for what each state does with each event.
pub fn step(
    link: Link,
    event: LinkEvent<'_>,
    to_long_range: &mut Outbound,
    from_long_range: &mut Inbound,
) -> (turn: Turn)
    ensures
        link_step(
            link,
            event,
            old(to_long_range)@,
            old(from_long_range)@,
            turn,
            final(to_long_range)@,
            final(from_long_range)@,
        ),
{
    match link {
        Link::Advertising => match event {
            LinkEvent::Connected => Turn {
                link: Link::Connected,
                write: None,
                notification: Notification::Idle,
            },
            _ => Turn { link: Link::Advertising, write: None, notification: Notification::Idle },
        },
        Link::Connected => match event {
            LinkEvent::Disconnected => Turn {
                link: Link::Advertising,
                write: None,
                notification: Notification::Idle,
            },
            LinkEvent::Write { inbound: true, data } => {
                let outcome = on_write(data, to_long_range);
                let notification = next_notification(from_long_range);
                Turn { link: Link::Connected, write: Some(outcome), notification }
            },
            _ => {
                let notification = next_notification(from_long_range);
                Turn { link: Link::Connected, write: None, notification }
            },
        },
    }
}

} // verus!
