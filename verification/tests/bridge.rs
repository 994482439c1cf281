use heapless::String;
use lora_ble_bridge::channel::{Handoff, Inbound, Outbound, INBOUND_CAPACITY, OUTBOUND_CAPACITY};
use lora_ble_bridge::error::CodecError;
use lora_ble_bridge::long_range::{ack_frame, next_transmission, on_frame, Reception, Transmission};
use lora_ble_bridge::message::{AckMessage, GpsMessage, Message, TextMessage};
use lora_ble_bridge::short_range::{next_notification, on_write, Notification, WriteOutcome};

fn text(seq: u8, s: &str) -> Message {
    Message::Text(TextMessage { seq, text: String::try_from(s).unwrap() })
}

fn ack(seq: u8) -> Message {
    Message::Ack(AckMessage { seq })
}

fn encode(msg: &Message) -> Vec<u8> {
    let mut buf = [0u8; 64];
    let len = msg.serialize(&mut buf).unwrap();
    buf[..len].to_vec()
}

#[test]
fn a_new_channel_is_empty() {
    assert_eq!(Outbound::new().take(), None);
    assert_eq!(Inbound::new().take(), None);
}

#[test]
fn a_channel_hands_out_in_the_order_of_arrival() {
    let mut channel = Inbound::new();
    assert_eq!(channel.offer(text(1, "ONE")), Handoff::Queued);
    assert_eq!(channel.offer(ack(2)), Handoff::Queued);
    assert_eq!(channel.offer(text(3, "THREE")), Handoff::Queued);
    assert_eq!(channel.take(), Some(text(1, "ONE")));
    assert_eq!(channel.offer(ack(4)), Handoff::Queued);
    assert_eq!(channel.take(), Some(ack(2)));
    assert_eq!(channel.take(), Some(text(3, "THREE")));
    assert_eq!(channel.take(), Some(ack(4)));
    assert_eq!(channel.take(), None);
}

#[test]
fn a_full_outbound_channel_drops_the_newest() {
    assert_eq!(OUTBOUND_CAPACITY, 5);
    let mut channel = Outbound::new();
    for seq in 0..5 {
        assert_eq!(channel.offer(ack(seq)), Handoff::Queued);
    }
    assert_eq!(channel.offer(ack(5)), Handoff::Dropped);
    assert_eq!(channel.offer(text(6, "LATE")), Handoff::Dropped);
    for seq in 0..5 {
        assert_eq!(channel.take(), Some(ack(seq)));
    }
    assert_eq!(channel.take(), None);
}

#[test]
fn a_full_inbound_channel_drops_the_newest() {
    assert_eq!(INBOUND_CAPACITY, 10);
    let mut channel = Inbound::new();
    for seq in 0..10 {
        assert_eq!(channel.offer(ack(seq)), Handoff::Queued);
    }
    assert_eq!(channel.offer(ack(10)), Handoff::Dropped);
    for seq in 0..10 {
        assert_eq!(channel.take(), Some(ack(seq)));
    }
    assert_eq!(channel.take(), None);
}

#[test]
fn a_channel_takes_again_once_there_is_room() {
    let mut channel = Outbound::new();
    for seq in 0..5 {
        assert_eq!(channel.offer(ack(seq)), Handoff::Queued);
    }
    assert_eq!(channel.offer(ack(5)), Handoff::Dropped);
    assert_eq!(channel.take(), Some(ack(0)));
    assert_eq!(channel.offer(ack(6)), Handoff::Queued);
    assert_eq!(channel.offer(ack(7)), Handoff::Dropped);
    for seq in [1, 2, 3, 4, 6] {
        assert_eq!(channel.take(), Some(ack(seq)));
    }
    assert_eq!(channel.take(), None);
}

#[test]
fn a_write_from_the_phone_reaches_the_outbound_channel() {
    let mut to_long_range = Outbound::new();
    let bytes = encode(&text(5, "HELP"));
    assert_eq!(on_write(&bytes, &mut to_long_range), WriteOutcome::Queued);
    assert_eq!(to_long_range.take(), Some(text(5, "HELP")));
    assert_eq!(to_long_range.take(), None);
}

#[test]
fn a_write_of_a_whole_attribute_is_decoded_by_its_frame() {
    let mut to_long_range = Outbound::new();
    let mut attribute = [0u8; 64];
    let gps = Message::Gps(GpsMessage { seq: 8, lat: 37774200, lon: -122419200 });
    gps.serialize(&mut attribute).unwrap();
    assert_eq!(on_write(&attribute, &mut to_long_range), WriteOutcome::Queued);
    assert_eq!(to_long_range.take(), Some(gps));
}

#[test]
fn a_write_that_is_no_frame_is_rejected() {
    let mut to_long_range = Outbound::new();
    assert_eq!(
        on_write(&[], &mut to_long_range),
        WriteOutcome::Rejected(CodecError::EmptyBuffer)
    );
    assert_eq!(
        on_write(&[0x09, 0x01], &mut to_long_range),
        WriteOutcome::Rejected(CodecError::UnknownMessageType)
    );
    assert_eq!(
        on_write(&[0x01, 0x01, 0x03], &mut to_long_range),
        WriteOutcome::Rejected(CodecError::BufferTooSmall)
    );
    assert_eq!(
        on_write(&[0x01, 0x01, 0x03, 0x01, 0x00], &mut to_long_range),
        WriteOutcome::Rejected(CodecError::InsufficientPackedData)
    );
    assert_eq!(to_long_range.take(), None);
}

#[test]
fn a_write_to_a_full_channel_is_dropped() {
    let mut to_long_range = Outbound::new();
    for seq in 0..5 {
        assert_eq!(on_write(&encode(&ack(seq)), &mut to_long_range), WriteOutcome::Queued);
    }
    assert_eq!(on_write(&encode(&text(9, "LATE")), &mut to_long_range), WriteOutcome::Dropped);
    // A payload that is no frame is rejected as such, full or not.
    assert_eq!(
        on_write(&[], &mut to_long_range),
        WriteOutcome::Rejected(CodecError::EmptyBuffer)
    );
    for seq in 0..5 {
        assert_eq!(to_long_range.take(), Some(ack(seq)));
    }
    assert_eq!(to_long_range.take(), None);
}

#[test]
fn a_received_text_is_acknowledged_and_handed_on() {
    let mut to_short_range = Inbound::new();
    let bytes = encode(&text(7, "OK"));
    match on_frame(&bytes) {
        Reception::Acknowledge { ack: reply, message } => {
            assert_eq!(reply.len, 2);
            assert_eq!(&reply.bytes[..reply.len], encode(&ack(7)).as_slice());
            assert_eq!(&reply.bytes[..2], &[0x03, 0x07]);
            assert_eq!(message, text(7, "OK"));
            assert_eq!(to_short_range.offer(message), Handoff::Queued);
        }
        other => panic!("no acknowledgment: {:?}", other),
    }
    assert_eq!(to_short_range.take(), Some(text(7, "OK")));
    assert_eq!(to_short_range.take(), None);
}

#[test]
fn a_received_position_is_acknowledged_with_its_seq() {
    let gps = Message::Gps(GpsMessage { seq: 200, lat: -1, lon: 1 });
    match on_frame(&encode(&gps)) {
        Reception::Acknowledge { ack: reply, message } => {
            assert_eq!(&reply.bytes[..reply.len], &[0x03, 200]);
            assert!(reply.bytes[2..].iter().all(|b| *b == 0));
            assert_eq!(message, gps);
        }
        other => panic!("no acknowledgment: {:?}", other),
    }
}

#[test]
fn a_received_acknowledgment_is_handed_on_without_a_reply() {
    assert_eq!(on_frame(&encode(&ack(7))), Reception::Forward(ack(7)));
}

#[test]
fn received_bytes_that_are_no_frame_are_dropped() {
    assert_eq!(on_frame(&[]), Reception::Discard(CodecError::EmptyBuffer));
    assert_eq!(on_frame(&[0x07, 0x00]), Reception::Discard(CodecError::UnknownMessageType));
    assert_eq!(on_frame(&[0x02, 0x00, 0x01]), Reception::Discard(CodecError::BufferTooSmall));
    assert_eq!(
        on_frame(&[0x01, 0x00, 0x09, 0x01, 0x00]),
        Reception::Discard(CodecError::InsufficientPackedData)
    );
}

#[test]
fn the_frame_of_an_acknowledgment() {
    let frame = ack_frame(42);
    assert_eq!(frame.len, 2);
    assert_eq!(&frame.bytes[..2], &[0x03, 0x2a]);
    assert!(frame.bytes[2..].iter().all(|b| *b == 0));
}

#[test]
fn the_oldest_message_is_transmitted_first() {
    let mut from_short_range = Outbound::new();
    assert_eq!(next_transmission(&mut from_short_range), Transmission::Idle);
    from_short_range.offer(text(5, "help"));
    from_short_range.offer(ack(6));
    match next_transmission(&mut from_short_range) {
        Transmission::Send(frame) => {
            assert_eq!(&frame.bytes[..frame.len], &[0x01, 0x05, 0x04, 0x03, 0x20, 0x53, 0x10]);
        }
        other => panic!("nothing to send: {:?}", other),
    }
    match next_transmission(&mut from_short_range) {
        Transmission::Send(frame) => assert_eq!(&frame.bytes[..frame.len], &[0x03, 0x06]),
        other => panic!("nothing to send: {:?}", other),
    }
    assert_eq!(next_transmission(&mut from_short_range), Transmission::Idle);
}

#[test]
fn a_message_without_a_frame_is_not_tried_again() {
    let mut from_short_range = Outbound::new();
    from_short_range.offer(text(5, "not | in the alphabet"));
    from_short_range.offer(ack(6));
    assert_eq!(
        next_transmission(&mut from_short_range),
        Transmission::Unencodable(CodecError::UnsupportedCharacter)
    );
    match next_transmission(&mut from_short_range) {
        Transmission::Send(frame) => assert_eq!(&frame.bytes[..frame.len], &[0x03, 0x06]),
        other => panic!("nothing to send: {:?}", other),
    }
}

#[test]
fn the_oldest_message_is_notified_first() {
    let mut from_long_range = Inbound::new();
    assert_eq!(next_notification(&mut from_long_range), Notification::Idle);
    from_long_range.offer(text(7, "OK"));
    from_long_range.offer(Message::Gps(GpsMessage { seq: 8, lat: 1, lon: -1 }));
    match next_notification(&mut from_long_range) {
        Notification::Notify(frame) => {
            assert_eq!(frame.len, 6);
            assert_eq!(&frame.bytes[..6], &[0x01, 0x07, 0x02, 0x02, 0x3c, 0xb0]);
            assert!(frame.bytes[6..].iter().all(|b| *b == 0));
            // The phone reads the whole attribute and finds the message.
            assert_eq!(Message::deserialize(&frame.bytes), Ok(text(7, "OK")));
        }
        other => panic!("nothing to notify: {:?}", other),
    }
    match next_notification(&mut from_long_range) {
        Notification::Notify(frame) => {
            assert_eq!(frame.len, 10);
            assert_eq!(
                &frame.bytes[..10],
                &[0x02, 0x08, 0x01, 0x00, 0x00, 0x00, 0xff, 0xff, 0xff, 0xff]
            );
        }
        other => panic!("nothing to notify: {:?}", other),
    }
    assert_eq!(next_notification(&mut from_long_range), Notification::Idle);
}

#[test]
fn a_text_of_more_than_50_characters_is_not_notified() {
    // A frame may declare up to 64 characters; such a text decodes and cannot be encoded.
    let mut frame = [0u8; 4 + 48];
    frame[0] = 0x01;
    frame[1] = 0x09;
    frame[2] = 60;
    frame[3] = 45;
    let mut from_long_range = Inbound::new();
    match on_frame(&frame) {
        Reception::Acknowledge { ack: reply, message } => {
            assert_eq!(&reply.bytes[..reply.len], &[0x03, 0x09]);
            assert_eq!(from_long_range.offer(message), Handoff::Queued);
        }
        other => panic!("no acknowledgment: {:?}", other),
    }
    assert_eq!(
        next_notification(&mut from_long_range),
        Notification::Unencodable(CodecError::TextTooLong)
    );
    assert_eq!(next_notification(&mut from_long_range), Notification::Idle);
}

#[test]
fn end_to_end_between_two_bridges() {
    // The phone writes to the first bridge, which transmits.
    let mut first_out = Outbound::new();
    assert_eq!(on_write(&encode(&text(5, "HELP")), &mut first_out), WriteOutcome::Queued);
    let on_air = match next_transmission(&mut first_out) {
        Transmission::Send(frame) => frame.bytes[..frame.len].to_vec(),
        other => panic!("nothing to send: {:?}", other),
    };
    // The second bridge receives, acknowledges and notifies its phone.
    let mut second_in = Inbound::new();
    let reply = match on_frame(&on_air) {
        Reception::Acknowledge { ack: reply, message } => {
            assert_eq!(second_in.offer(message), Handoff::Queued);
            reply.bytes[..reply.len].to_vec()
        }
        other => panic!("no acknowledgment: {:?}", other),
    };
    match next_notification(&mut second_in) {
        Notification::Notify(frame) => {
            assert_eq!(Message::deserialize(&frame.bytes), Ok(text(5, "HELP")));
        }
        other => panic!("nothing to notify: {:?}", other),
    }
    // The first bridge receives the acknowledgment and notifies its phone.
    let mut first_in = Inbound::new();
    match on_frame(&reply) {
        Reception::Forward(message) => assert_eq!(first_in.offer(message), Handoff::Queued),
        other => panic!("not handed on: {:?}", other),
    }
    match next_notification(&mut first_in) {
        Notification::Notify(frame) => {
            assert_eq!(Message::deserialize(&frame.bytes), Ok(ack(5)));
        }
        other => panic!("nothing to notify: {:?}", other),
    }
}
