//! What the long-range side decides: a message from the phone is
//! transmitted, a frame from the air is acknowledged and handed on.
//!
//! The transceiver is not in this crate. The task that drives it keeps a
//! [`Radio`], does what [`Radio::command`] says, and reports how that ended
//! to [`step`], which gives the next `Radio`:
//!
//! ```text
//! Idle --armed--> Listening --message or frame--> Transmitting --sent--> Rearming
//!                     ^                                |                    |
//!                     +------------- failed -----------+                    |
//!                     +-----------------------------------------------------+
//! ```
//!
//! While it listens, the task waits for whichever comes first, a message in
//! the channel from the short-range side or a frame from the air. A
//! transmission, once started, runs to its end before the task listens
//! again, and nothing is transmitted twice.

use crate::channel::{handoff_to, offered, Handoff, Inbound, Outbound};
use crate::error::CodecError;
use crate::message::{decode, encode_failure, frame, AckMessage, Frame, Message, MessageView};
use vstd::prelude::*;

verus! {

/// What the long-range side has to transmit.
#[derive(Debug, Clone, Copy, PartialEq)]
pub enum Transmission {
    /// Nothing waits for the long-range link.
    Idle,
    /// Transmit the bytes of this frame, then go back to receiving.
    Send(Frame),
    /// The oldest message that waited has no frame and is lost. The message
    /// is not tried again.
    Unencodable(CodecError),
}

/// What to do with a frame that came over the air.
#[derive(Debug, Clone, PartialEq)]
pub enum Reception {
    /// A text or a position: transmit `ack`, the acknowledgment with the
    /// same `seq`, go back to receiving, then offer `message` to the
    /// short-range side.
    Acknowledge { ack: Frame, message: Message },
    /// An acknowledgment: offer it to the short-range side and transmit
    /// nothing.
    Forward(Message),
    /// The bytes are no frame: drop them.
    Discard(CodecError),
}

impl Reception {
    /// The message that the frame held, if it held one.
    pub open spec fn message(self) -> Option<Message> {
        match self {
            Reception::Acknowledge { message, .. } => Some(message),
            Reception::Forward(message) => Some(message),
            Reception::Discard(_) => None,
        }
    }
}

/// What a look at the channel from the short-range side finds, with the
/// channel going from `before` to `after`: the oldest message leaves it and
/// is transmitted, if it has a frame.
pub open spec fn taken(
    before: Seq<Message>,
    after: Seq<Message>,
    transmission: Transmission,
) -> bool {
    if before.len() == 0 {
        transmission is Idle && after == before
    } else {
        &&& after == before.drop_first()
        &&& match encode_failure(before[0]@, 64) {
            None => {
                &&& transmission is Send
                &&& transmission->Send_0.wf()
                &&& transmission->Send_0.payload() == frame(before[0]@)
            },
            Some(e) => transmission == Transmission::Unencodable(e),
        }
    }
}

/// Takes the oldest message off the channel from the short-range side and
/// encodes it for transmission. The message leaves the channel whether or
/// not it has a frame.
pub fn next_transmission(from_short_range: &mut Outbound) -> (transmission: Transmission)
    ensures
        taken(old(from_short_range)@, final(from_short_range)@, transmission),
{
    match from_short_range.take() {
        Some(message) => match message.to_frame() {
            Ok(encoded) => Transmission::Send(encoded),
            Err(e) => Transmission::Unencodable(e),
        },
        None => Transmission::Idle,
    }
}

/// The frame of the acknowledgment that carries `seq`.
pub fn ack_frame(seq: u8) -> (ack: Frame)
    ensures
        ack.wf(),
        ack.payload() == frame(MessageView::Ack { seq }),
        ack.len == 2,
{
    let ack = Message::Ack(AckMessage { seq });
    let mut bytes = [0u8; 64];
    let len = match ack.serialize(&mut bytes) {
        Ok(len) => len,
        Err(_) => 0,
    };
    Frame { bytes, len }
}

/// Decides what to do with the bytes of a frame that came over the air. A
/// text or a position is acknowledged at once, with its own `seq`, and then
/// handed on; an acknowledgment is handed on without a reply; bytes that do
/// not decode are dropped.
pub fn on_frame(data: &[u8]) -> (reception: Reception)
    ensures
        match decode(data@) {
            Err(e) => reception == Reception::Discard(e),
            Ok(m) => {
                &&& reception.message() is Some
                &&& reception.message()->Some_0@ == m
                &&& m is Ack ==> reception is Forward
                &&& !(m is Ack) ==> reception is Acknowledge && reception->ack.wf()
                    && reception->ack.payload() == frame(MessageView::Ack { seq: m.seq() })
            },
        },
{
    match Message::deserialize(data) {
        Ok(message) => {
            let due = match &message {
                Message::Text(text) => Some(text.seq),
                Message::Gps(gps) => Some(gps.seq),
                Message::Ack(_) => None,
            };
            match due {
                Some(seq) => Reception::Acknowledge { ack: ack_frame(seq), message },
                None => Reception::Forward(message),
            }
        },
        Err(e) => Reception::Discard(e),
    }
}

/// Where the long-range side stands between two events.
#[derive(Debug, Clone, PartialEq)]
pub enum Radio {
    /// The transceiver is set up and not yet receiving.
    Idle,
    /// The transceiver receives continuously.
    Listening,
    /// `frame` is being transmitted. `then` is the received message that
    /// the frame acknowledges, which is handed on afterwards.
    Transmitting { frame: Frame, then: Option<Message> },
    /// The transceiver goes back to receiving after a transmission.
    Rearming { then: Option<Message> },
    /// The transceiver could not be brought to receive at startup: the task
    /// has ended.
    Stopped,
}

/// What the task is to do next.
#[derive(Debug, Clone, Copy, PartialEq)]
pub enum Command {
    /// Bring the transceiver to receive continuously; report
    /// [`RadioEvent::Rearmed`].
    Rearm,
    /// Wait for a message from the short-range side or a frame from the
    /// air, whichever comes first; report [`RadioEvent::Outbound`],
    /// [`RadioEvent::Received`] or [`RadioEvent::ReceiveFailed`].
    Listen,
    /// Transmit the bytes of the frame; report [`RadioEvent::Transmitted`].
    Transmit(Frame),
    /// End the task.
    Stop,
}

/// What the task reports.
#[derive(Debug, Clone, Copy, PartialEq)]
pub enum RadioEvent<'a> {
    /// A message may wait in the channel from the short-range side.
    Outbound,
    /// The transceiver received these bytes.
    Received(&'a [u8]),
    /// The transceiver reported a failure in place of a frame.
    ReceiveFailed,
    /// The transmission ended; `true` where the frame went out.
    Transmitted(bool),
    /// The transceiver was told to receive; `true` where it does.
    Rearmed(bool),
}

/// What a step has to tell beyond the next state.
#[derive(Debug, Clone, Copy, PartialEq, Eq, Structural)]
pub enum Report {
    /// Nothing.
    Quiet,
    /// The message that was to be transmitted has no frame and is lost.
    Unencodable(CodecError),
    /// The received bytes are no frame and were dropped.
    Undecodable(CodecError),
    /// A received message was offered to the short-range side.
    Handed(Handoff),
}

impl Radio {
    /// The command of a state.
    pub open spec fn spec_command(self) -> Command {
        match self {
            Radio::Idle => Command::Rearm,
            Radio::Listening => Command::Listen,
            Radio::Transmitting { frame, .. } => Command::Transmit(frame),
            Radio::Rearming { .. } => Command::Rearm,
            Radio::Stopped => Command::Stop,
        }
    }

    /// The received message that is kept until the side listens again.
    pub open spec fn kept(self) -> Option<Message> {
        match self {
            Radio::Transmitting { then, .. } => then,
            Radio::Rearming { then } => then,
            _ => None,
        }
    }

    /// Whether this is the transmission of a frame of these bytes, in a
    /// buffer that holds zeros behind them.
    pub open spec fn transmits(self, payload: Seq<u8>) -> bool {
        match self {
            Radio::Transmitting { frame, .. } => frame.wf() && frame.payload() == payload,
            _ => false,
        }
    }

    /// What the task is to do in this state.
    pub fn command(&self) -> (command: Command)
        ensures
            command == self.spec_command(),
    {
        match self {
            Radio::Idle => Command::Rearm,
            Radio::Listening => Command::Listen,
            Radio::Transmitting { frame, .. } => Command::Transmit(*frame),
            Radio::Rearming { .. } => Command::Rearm,
            Radio::Stopped => Command::Stop,
        }
    }
}

/// How a received message is handed on once its acknowledgment is dealt
/// with: it is offered to the channel toward the short-range side, and
/// dropped where that channel is full.
pub open spec fn handed_on(
    then: Option<Message>,
    before: Seq<Message>,
    after: Seq<Message>,
    report: Report,
) -> bool {
    match then {
        None => after == before && report == Report::Quiet,
        Some(message) => after == offered(before, message, 10) && report == Report::Handed(
            handoff_to(before, 10),
        ),
    }
}

/// What a step of the long-range side does: `next` and `report` for `radio`
/// and `event`, with the channel from the short-range side going from
/// `out_before` to `out_after` and the channel toward it from `in_before` to
/// `in_after`.
///
/// - Idle: once the transceiver receives, the side listens; where it cannot
///   be brought to receive, the task stops.
/// - Listening, a message waits: it is taken off its channel and
///   transmitted; a message without a frame is lost and the side listens on.
/// - Listening, a frame arrived: a text or a position is acknowledged with
///   its own `seq` and kept for afterwards; an acknowledgment is offered to
///   the short-range side at once; bytes that are no frame are dropped.
/// - Transmitting: after a frame that went out the transceiver is brought
///   back to receiving; after a failure the side listens again as it is.
///   Nothing is transmitted again.
/// - Rearming: the side listens again, whether or not the transceiver
///   reported a failure.
/// - A received message that was kept is offered to the short-range side
///   when the side returns to listening.
/// - An event that the state does not wait for changes nothing.
pub open spec fn radio_step(
    radio: Radio,
    event: RadioEvent<'_>,
    out_before: Seq<Message>,
    in_before: Seq<Message>,
    next: Radio,
    report: Report,
    out_after: Seq<Message>,
    in_after: Seq<Message>,
) -> bool {
    match (radio, event) {
        (Radio::Idle, RadioEvent::Rearmed(armed)) => {
            &&& next == if armed {
                Radio::Listening
            } else {
                Radio::Stopped
            }
            &&& report == Report::Quiet
            &&& out_after == out_before
            &&& in_after == in_before
        },
        (Radio::Listening, RadioEvent::Outbound) => {
            &&& in_after == in_before
            &&& if out_before.len() == 0 {
                &&& next == Radio::Listening
                &&& report == Report::Quiet
                &&& out_after == out_before
            } else {
                &&& out_after == out_before.drop_first()
                &&& match encode_failure(out_before[0]@, 64) {
                    None => {
                        &&& next.transmits(frame(out_before[0]@))
                        &&& next.kept() is None
                        &&& report == Report::Quiet
                    },
                    Some(e) => next == Radio::Listening && report == Report::Unencodable(e),
                }
            }
        },
        (Radio::Listening, RadioEvent::Received(data)) => {
            &&& out_after == out_before
            &&& match decode(data@) {
                Err(e) => {
                    &&& next == Radio::Listening
                    &&& report == Report::Undecodable(e)
                    &&& in_after == in_before
                },
                Ok(m) => if m is Ack {
                    &&& next == Radio::Listening
                    &&& report == Report::Handed(handoff_to(in_before, 10))
                    &&& exists|message: Message|
                        message@ == m && in_after == offered(in_before, message, 10)
                } else {
                    &&& next.transmits(frame(MessageView::Ack { seq: m.seq() }))
                    &&& next.kept() is Some
                    &&& next.kept()->Some_0@ == m
                    &&& report == Report::Quiet
                    &&& in_after == in_before
                },
            }
        },
        (Radio::Transmitting { frame, then }, RadioEvent::Transmitted(sent)) => {
            &&& out_after == out_before
            &&& if sent {
                &&& next == Radio::Rearming { then }
                &&& report == Report::Quiet
                &&& in_after == in_before
            } else {
                &&& next == Radio::Listening
                &&& handed_on(then, in_before, in_after, report)
            }
        },
        (Radio::Rearming { then }, RadioEvent::Rearmed(_)) => {
            &&& next == Radio::Listening
            &&& out_after == out_before
            &&& handed_on(then, in_before, in_after, report)
        },
        _ => {
            &&& next == radio
            &&& report == Report::Quiet
            &&& out_after == out_before
            &&& in_after == in_before
        },
    }
}

/// Offers a received message that was kept, if there is one, to the channel
/// toward the short-range side.
fn hand_on(then: Option<Message>, to_short_range: &mut Inbound) -> (report: Report)
    ensures
        handed_on(then, old(to_short_range)@, final(to_short_range)@, report),
{
    match then {
        Some(message) => Report::Handed(to_short_range.offer(message)),
        None => Report::Quiet,
    }
}

/// One step of the long-range side: takes the state and what the task
/// reports, and gives the next state. See [`radio_step`] for what each
/// state does with each event.
pub fn step(
    radio: Radio,
    event: RadioEvent<'_>,
    from_short_range: &mut Outbound,
    to_short_range: &mut Inbound,
) -> (next: (Radio, Report))
    ensures
        radio_step(
            radio,
            event,
            old(from_short_range)@,
            old(to_short_range)@,
            next.0,
            next.1,
            final(from_short_range)@,
            final(to_short_range)@,
        ),
{
    match radio {
        Radio::Idle => match event {
            RadioEvent::Rearmed(true) => (Radio::Listening, Report::Quiet),
            RadioEvent::Rearmed(false) => (Radio::Stopped, Report::Quiet),
            _ => (Radio::Idle, Report::Quiet),
        },
        Radio::Listening => match event {
            RadioEvent::Outbound => match next_transmission(from_short_range) {
                Transmission::Send(frame) => (
                    Radio::Transmitting { frame, then: None },
                    Report::Quiet,
                ),
                Transmission::Unencodable(e) => (Radio::Listening, Report::Unencodable(e)),
                Transmission::Idle => (Radio::Listening, Report::Quiet),
            },
            RadioEvent::Received(data) => match on_frame(data) {
                Reception::Acknowledge { ack, message } => (
                    Radio::Transmitting { frame: ack, then: Some(message) },
                    Report::Quiet,
                ),
                Reception::Forward(message) => {
                    let handoff = to_short_range.offer(message);
                    (Radio::Listening, Report::Handed(handoff))
                },
                Reception::Discard(e) => (Radio::Listening, Report::Undecodable(e)),
            },
            _ => (Radio::Listening, Report::Quiet),
        },
        Radio::Transmitting { frame, then } => match event {
            RadioEvent::Transmitted(true) => (Radio::Rearming { then }, Report::Quiet),
            RadioEvent::Transmitted(false) => {
                let report = hand_on(then, to_short_range);
                (Radio::Listening, report)
            },
            _ => (Radio::Transmitting { frame, then }, Report::Quiet),
        },
        Radio::Rearming { then } => match event {
            RadioEvent::Rearmed(_) => {
                let report = hand_on(then, to_short_range);
                (Radio::Listening, report)
            },
            _ => (Radio::Rearming { then }, Report::Quiet),
        },
        Radio::Stopped => (Radio::Stopped, Report::Quiet),
    }
}

} // verus!
