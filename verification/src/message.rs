//! The messages of the long-range link and their wire frames.
//!
//! | message | byte 0 | then                                                     |
//! |---------|--------|----------------------------------------------------------|
//! | text    | `0x01` | `seq`, character count, packed length, the packed bytes  |
//! | GPS     | `0x02` | `seq`, latitude and longitude as little-endian `i32`     |
//! | ack     | `0x03` | `seq`                                                    |

use crate::alphabet::{all_supported, chars_of, folded, supported, symbols_of};
use crate::error::CodecError;
use crate::packing::{
    lemma_unpack_packed_text, pack, pack_text, packed_len, unpack, unpack_failure, unpack_text,
};
use crate::text::{text_chars, text_copy, text_str, Text};
use vstd::prelude::*;

verus! {

/// Most characters that the text of a message may hold. Packed, 50
/// characters take 38 bytes, which keeps a frame within 42 bytes.
pub const MAX_TEXT_LENGTH: usize = 50;

/// Size of the buffers that frames are built and received in. No frame is
/// longer than 42 bytes.
pub const FRAME_CAPACITY: usize = 64;

/// Length of the frame of a GPS message.
pub const GPS_FRAME_LENGTH: usize = 10;

/// Length of the frame of an acknowledgment.
pub const ACK_FRAME_LENGTH: usize = 2;

/// The kinds of message, each with the tag that opens its frame.
#[derive(Debug, Clone, Copy, PartialEq, Eq, Structural)]
pub enum MessageType {
    Text,
    Gps,
    Ack,
}

impl MessageType {
    /// The tag of this kind of message.
    pub open spec fn spec_tag(self) -> u8 {
        match self {
            MessageType::Text => 0x01,
            MessageType::Gps => 0x02,
            MessageType::Ack => 0x03,
        }
    }

    /// The first byte of a frame of this kind.
    pub fn tag(self) -> (t: u8)
        ensures
            t == self.spec_tag(),
    {
        match self {
            MessageType::Text => 0x01,
            MessageType::Gps => 0x02,
            MessageType::Ack => 0x03,
        }
    }

    /// The kind of message that a frame with this first byte holds, if any.
    pub fn from_tag(tag: u8) -> (kind: Option<MessageType>)
        ensures
            tag == 0x01 ==> kind == Some(MessageType::Text),
            tag == 0x02 ==> kind == Some(MessageType::Gps),
            tag == 0x03 ==> kind == Some(MessageType::Ack),
            !(1 <= tag <= 3) ==> kind.is_none(),
    {
        if tag == 0x01 {
            Some(MessageType::Text)
        } else if tag == 0x02 {
            Some(MessageType::Gps)
        } else if tag == 0x03 {
            Some(MessageType::Ack)
        } else {
            None
        }
    }
}

/// A text with the tag by which its acknowledgment is matched.
#[derive(Debug, PartialEq)]
pub struct TextMessage {
    pub seq: u8,
    /// At most [`MAX_TEXT_LENGTH`] characters of the alphabet.
    pub text: Text,
}

impl Clone for TextMessage {
    /// A message with the same `seq` and a text of the same characters.
    fn clone(&self) -> (copy: Self)
        ensures
            copy.seq == self.seq,
            text_chars(copy.text) == text_chars(self.text),
    {
        TextMessage { seq: self.seq, text: text_copy(&self.text) }
    }
}

/// A position, in millionths of a degree.
#[derive(Debug, Clone, Copy, PartialEq)]
pub struct GpsMessage {
    pub seq: u8,
    pub lat: i32,
    pub lon: i32,
}

/// The acknowledgment of the message with the same `seq`.
#[derive(Debug, Clone, Copy, PartialEq)]
pub struct AckMessage {
    pub seq: u8,
}

/// A message of the long-range link.
#[derive(Debug, Clone, PartialEq)]
pub enum Message {
    Text(TextMessage),
    Gps(GpsMessage),
    Ack(AckMessage),
}

/// A frame as it is handed to a link: a buffer of 64 bytes with the frame
/// in front and zeros behind it.
#[derive(Debug, Clone, Copy, PartialEq)]
pub struct Frame {
    pub bytes: [u8; 64],
    /// Length of the frame.
    pub len: usize,
}

impl Frame {
    /// The bytes of the frame, without what follows them in the buffer.
    pub open spec fn payload(&self) -> Seq<u8> {
        self.bytes@.take(self.len as int)
    }

    /// Whether the frame lies within the buffer and only zeros follow it.
    pub open spec fn wf(&self) -> bool {
        &&& self.len <= 64
        &&& forall|i: int| self.len <= i < 64 ==> self.bytes@[i] == 0
    }
}

/// What a message says: its fields, the text as a sequence of characters.
pub enum MessageView {
    Text { seq: u8, text: Seq<char> },
    Gps { seq: u8, lat: i32, lon: i32 },
    Ack { seq: u8 },
}

impl View for Message {
    type V = MessageView;

    open spec fn view(&self) -> MessageView {
        match *self {
            Message::Text(t) => MessageView::Text { seq: t.seq, text: text_chars(t.text) },
            Message::Gps(g) => MessageView::Gps { seq: g.seq, lat: g.lat, lon: g.lon },
            Message::Ack(a) => MessageView::Ack { seq: a.seq },
        }
    }
}

impl MessageView {
    /// The tag that the acknowledgment of this message carries.
    pub open spec fn seq(self) -> u8 {
        match self {
            MessageView::Text { seq, .. } => seq,
            MessageView::Gps { seq, .. } => seq,
            MessageView::Ack { seq } => seq,
        }
    }

    /// Whether the message has a frame: a text of at most 50 characters, all
    /// of them in the alphabet once folded to upper case. A position and an
    /// acknowledgment always have one.
    pub open spec fn encodable(self) -> bool {
        match self {
            MessageView::Text { text, .. } => text.len() <= 50 && all_supported(text),
            _ => true,
        }
    }

    /// The message as it reads after a trip over the link: a text comes
    /// back in upper case.
    pub open spec fn folded(self) -> MessageView {
        match self {
            MessageView::Text { seq, text } => MessageView::Text { seq, text: folded(text) },
            _ => self,
        }
    }
}

/// A signed 32-bit number as the unsigned number with the same bits.
pub open spec fn twos_complement(x: i32) -> int {
    if x < 0 {
        x + 0x1_0000_0000
    } else {
        x as int
    }
}

/// The four bytes of a signed 32-bit number, least significant first.
pub open spec fn le_bytes(x: i32) -> Seq<u8> {
    let u = twos_complement(x);
    seq![
        (u % 0x100) as u8,
        (u / 0x100 % 0x100) as u8,
        (u / 0x1_0000 % 0x100) as u8,
        (u / 0x100_0000 % 0x100) as u8,
    ]
}

/// The signed 32-bit number that four bytes, least significant first, hold.
pub open spec fn from_le_bytes(b: Seq<u8>) -> i32 {
    let u = b[0] + 0x100 * b[1] + 0x1_0000 * b[2] + 0x100_0000 * b[3];
    if u >= 0x8000_0000 {
        (u - 0x1_0000_0000) as i32
    } else {
        u as i32
    }
}

/// The frame of an encodable message.
pub open spec fn frame(m: MessageView) -> Seq<u8> {
    match m {
        MessageView::Text { seq, text } => seq![
            0x01u8,
            seq,
            text.len() as u8,
            packed_len(text.len()) as u8,
        ] + pack(symbols_of(text)),
        MessageView::Gps { seq, lat, lon } => seq![0x02u8, seq] + le_bytes(lat) + le_bytes(lon),
        MessageView::Ack { seq } => seq![0x03u8, seq],
    }
}

/// Length of the frame of an encodable message.
pub open spec fn frame_len(m: MessageView) -> nat {
    match m {
        MessageView::Text { text, .. } => 4 + packed_len(text.len()),
        MessageView::Gps { .. } => 10,
        MessageView::Ack { .. } => 2,
    }
}

/// Why a message cannot be written to a buffer of `room` bytes; `None` where
/// it can. A text is first held against the limit of 50 characters, then
/// against the alphabet, and only then against the buffer.
pub open spec fn encode_failure(m: MessageView, room: nat) -> Option<CodecError> {
    match m {
        MessageView::Text { text, .. } => {
            if text.len() > 50 {
                Some(CodecError::TextTooLong)
            } else if !all_supported(text) {
                Some(CodecError::UnsupportedCharacter)
            } else if room < 4 + packed_len(text.len()) {
                Some(CodecError::BufferTooSmall)
            } else {
                None
            }
        },
        MessageView::Gps { .. } => {
            if room < 10 {
                Some(CodecError::BufferTooSmall)
            } else {
                None
            }
        },
        MessageView::Ack { .. } => {
            if room < 2 {
                Some(CodecError::BufferTooSmall)
            } else {
                None
            }
        },
    }
}

/// What a buffer decodes to. The first byte tells the kind of message;
/// bytes after the frame are not looked at.
pub open spec fn decode(bytes: Seq<u8>) -> Result<MessageView, CodecError> {
    if bytes.len() == 0 {
        Err(CodecError::EmptyBuffer)
    } else if bytes[0] == 0x01 {
        if bytes.len() < 4 {
            Err(CodecError::BufferTooSmall)
        } else if bytes.len() < 4 + bytes[3] {
            Err(CodecError::BufferTooSmall)
        } else {
            match unpack_failure(bytes[3] as nat, bytes[2] as nat) {
                Some(e) => Err(e),
                None => Ok(
                    MessageView::Text {
                        seq: bytes[1],
                        text: chars_of(unpack(bytes.subrange(4, 4 + bytes[3]), bytes[2] as nat)),
                    },
                ),
            }
        }
    } else if bytes[0] == 0x02 {
        if bytes.len() < 10 {
            Err(CodecError::BufferTooSmall)
        } else {
            Ok(
                MessageView::Gps {
                    seq: bytes[1],
                    lat: from_le_bytes(bytes.subrange(2, 6)),
                    lon: from_le_bytes(bytes.subrange(6, 10)),
                },
            )
        }
    } else if bytes[0] == 0x03 {
        if bytes.len() < 2 {
            Err(CodecError::BufferTooSmall)
        } else {
            Ok(MessageView::Ack { seq: bytes[1] })
        }
    } else {
        Err(CodecError::UnknownMessageType)
    }
}

/// Whether `bytes` decode to the message `m`.
pub open spec fn decodes_to(bytes: Seq<u8>, m: MessageView) -> bool {
    decode(bytes) == Ok::<MessageView, CodecError>(m)
}

/// Whether `bytes` do not decode, for the reason `e`.
pub open spec fn fails_with(bytes: Seq<u8>, e: CodecError) -> bool {
    decode(bytes) == Err::<MessageView, CodecError>(e)
}

proof fn lemma_split_i32(x: i32)
    by (bit_vector)
    ensures
        (x as u32) as int == (if x < 0 {
            x + 0x1_0000_0000
        } else {
            x as int
        }),
        ((x as u32) & 0xff) == (x as u32) % 0x100,
        (((x as u32) >> 8u32) & 0xff) == (x as u32) / 0x100 % 0x100,
        (((x as u32) >> 16u32) & 0xff) == (x as u32) / 0x1_0000 % 0x100,
        (((x as u32) >> 24u32) & 0xff) == (x as u32) / 0x100_0000 % 0x100,
{
}

proof fn lemma_join_i32(b0: u8, b1: u8, b2: u8, b3: u8)
    by (bit_vector)
    ensures
        ({
            let u = (b0 as u32) | ((b1 as u32) << 8u32) | ((b2 as u32) << 16u32) | ((b3 as u32)
                << 24u32);
            &&& u as int == b0 + 0x100 * b1 + 0x1_0000 * b2 + 0x100_0000 * b3
            &&& (u as i32) as int == (if u >= 0x8000_0000u32 {
                u - 0x1_0000_0000
            } else {
                u as int
            })
        }),
{
}

/// Writes `bytes` into `buf` from position `at` on.
fn put(buf: &mut [u8], at: usize, bytes: &[u8])
    requires
        at + bytes@.len() <= old(buf)@.len(),
    ensures
        final(buf)@ == old(buf)@.subrange(0, at as int) + bytes@ + old(buf)@.subrange(
            at + bytes@.len(),
            old(buf)@.len() as int,
        ),
{
    let n = bytes.len();
    let room = buf.len();
    let mut i: usize = 0;
    while i < n
        invariant
            i <= n,
            n == bytes@.len(),
            room == buf@.len(),
            at + n <= room,
            buf@.len() == old(buf)@.len(),
            forall|k: int| 0 <= k < at ==> buf@[k] == old(buf)@[k],
            forall|k: int| 0 <= k < i ==> buf@[at + k] == bytes@[k],
            forall|k: int| at + i <= k < buf@.len() ==> buf@[k] == old(buf)@[k],
        decreases n - i,
    {
        buf[at + i] = bytes[i];
        i += 1;
    }
}

/// The four bytes of `x`, least significant first.
fn i32_to_le(x: i32) -> (bytes: [u8; 4])
    ensures
        bytes@ == le_bytes(x),
{
    let u = x as u32;
    proof {
        lemma_split_i32(x);
    }
    [(u & 0xff) as u8, ((u >> 8) & 0xff) as u8, ((u >> 16) & 0xff) as u8, ((u >> 24) & 0xff) as u8]
}

/// The number that the four bytes of `buf` from `at` on hold, least
/// significant first.
fn i32_from_le(buf: &[u8], at: usize) -> (x: i32)
    requires
        at + 4 <= buf@.len(),
    ensures
        x == from_le_bytes(buf@.subrange(at as int, at + 4)),
{
    proof {
        lemma_join_i32(buf@[at as int], buf@[at + 1], buf@[at + 2], buf@[at + 3]);
    }
    let b0 = buf[at] as u32;
    let b1 = buf[at + 1] as u32;
    let b2 = buf[at + 2] as u32;
    let b3 = buf[at + 3] as u32;
    (b0 | (b1 << 8) | (b2 << 16) | (b3 << 24)) as i32
}

impl Message {
    /// Writes the frame of the message to the front of `buf` and returns its
    /// length; the bytes of `buf` behind the frame stay as they were.
    ///
    /// A text of more than 50 characters is refused, whatever it holds; then
    /// a text with a character outside the alphabet; then a buffer that is
    /// shorter than the frame. Where the message is refused, `buf` is left
    /// untouched.
    pub fn serialize(&self, buf: &mut [u8]) -> (r: Result<usize, CodecError>)
        ensures
            match encode_failure(self@, old(buf)@.len()) {
                None => r is Ok && r->Ok_0 == frame_len(self@) && final(buf)@ == frame(self@)
                    + old(buf)@.skip(frame_len(self@) as int),
                Some(e) => r is Err && r->Err_0 == e && final(buf)@ == old(buf)@,
            },
            frame(self@).len() == frame_len(self@),
    {
        match self {
            Message::Text(text_msg) => {
                let text = text_str(&text_msg.text);
                let char_count = text.unicode_len();
                if char_count > MAX_TEXT_LENGTH {
                    return Err(CodecError::TextTooLong);
                }
                let packed_text = match pack_text(text) {
                    Ok(packed) => packed,
                    Err(e) => {
                        return Err(e);
                    },
                };
                let packed_len = packed_text.len();
                if buf.len() < 4 + packed_len {
                    return Err(CodecError::BufferTooSmall);
                }
                buf[0] = MessageType::Text.tag();
                buf[1] = text_msg.seq;
                buf[2] = char_count as u8;
                buf[3] = packed_len as u8;
                put(buf, 4, packed_text.as_slice());
                Ok(4 + packed_len)
            },
            Message::Gps(gps) => {
                if buf.len() < GPS_FRAME_LENGTH {
                    return Err(CodecError::BufferTooSmall);
                }
                buf[0] = MessageType::Gps.tag();
                buf[1] = gps.seq;
                let lat = i32_to_le(gps.lat);
                let lon = i32_to_le(gps.lon);
                put(buf, 2, lat.as_slice());
                put(buf, 6, lon.as_slice());
                Ok(GPS_FRAME_LENGTH)
            },
            Message::Ack(ack) => {
                if buf.len() < ACK_FRAME_LENGTH {
                    return Err(CodecError::BufferTooSmall);
                }
                buf[0] = MessageType::Ack.tag();
                buf[1] = ack.seq;
                Ok(ACK_FRAME_LENGTH)
            },
        }
    }

    /// The frame of the message in a fresh buffer of 64 bytes, which has
    /// room for the frame of every encodable message.
    pub fn to_frame(&self) -> (r: Result<Frame, CodecError>)
        ensures
            match encode_failure(self@, 64) {
                None => r is Ok && r->Ok_0.wf() && r->Ok_0.payload() == frame(self@),
                Some(e) => r is Err && r->Err_0 == e,
            },
            self@.encodable() <==> r is Ok,
    {
        let mut bytes = [0u8; 64];
        match self.serialize(&mut bytes) {
            Ok(len) => Ok(Frame { bytes, len }),
            Err(e) => Err(e),
        }
    }

    /// Reads the message whose frame stands at the front of `buf`.
    ///
    /// Fails on an empty buffer, on a first byte that is no tag, and on a
    /// buffer that ends before the frame that it declares. A text frame
    /// fails where its packed bytes end before the last character that it
    /// declares, and otherwise where it declares more characters than a
    /// text can hold.
    pub fn deserialize(buf: &[u8]) -> (r: Result<Message, CodecError>)
        ensures
            match decode(buf@) {
                Ok(m) => r is Ok && r->Ok_0@ == m,
                Err(e) => r is Err && r->Err_0 == e,
            },
    {
        if buf.len() == 0 {
            return Err(CodecError::EmptyBuffer);
        }
        match MessageType::from_tag(buf[0]) {
            Some(MessageType::Text) => {
                if buf.len() < 4 {
                    return Err(CodecError::BufferTooSmall);
                }
                let seq = buf[1];
                let char_count = buf[2] as usize;
                let packed_len = buf[3] as usize;
                if buf.len() < 4 + packed_len {
                    return Err(CodecError::BufferTooSmall);
                }
                let packed_bytes = &buf[4..4 + packed_len];
                let text = match unpack_text(packed_bytes, char_count) {
                    Ok(text) => text,
                    Err(e) => {
                        return Err(e);
                    },
                };
                Ok(Message::Text(TextMessage { seq, text }))
            },
            Some(MessageType::Gps) => {
                if buf.len() < GPS_FRAME_LENGTH {
                    return Err(CodecError::BufferTooSmall);
                }
                let seq = buf[1];
                let lat = i32_from_le(buf, 2);
                let lon = i32_from_le(buf, 6);
                Ok(Message::Gps(GpsMessage { seq, lat, lon }))
            },
            Some(MessageType::Ack) => {
                if buf.len() < ACK_FRAME_LENGTH {
                    return Err(CodecError::BufferTooSmall);
                }
                let seq = buf[1];
                Ok(Message::Ack(AckMessage { seq }))
            },
            None => Err(CodecError::UnknownMessageType),
        }
    }
}

proof fn lemma_decode_text_frame(seq: u8, text: Seq<char>, rest: Seq<u8>)
    requires
        text.len() <= 50,
        all_supported(text),
    ensures
        decodes_to(
            frame(MessageView::Text { seq, text }) + rest,
            MessageView::Text { seq, text: folded(text) },
        ),
{
    let bytes = frame(MessageView::Text { seq, text }) + rest;
    assert(bytes.subrange(4, 4 + bytes[3]) =~= pack(symbols_of(text)));
    lemma_unpack_packed_text(text);
}

proof fn lemma_le_bytes(x: i32)
    ensures
        le_bytes(x).len() == 4,
        from_le_bytes(le_bytes(x)) == x,
{
}

proof fn lemma_decode_gps_frame(seq: u8, lat: i32, lon: i32, rest: Seq<u8>)
    ensures
        decodes_to(
            frame(MessageView::Gps { seq, lat, lon }) + rest,
            MessageView::Gps { seq, lat, lon },
        ),
{
    lemma_le_bytes(lat);
    lemma_le_bytes(lon);
}

/// A frame decodes to the message that it was made of, the text folded to
/// upper case, whatever stands behind the frame in the buffer.
pub proof fn lemma_decode_frame(m: MessageView, rest: Seq<u8>)
    requires
        m.encodable(),
    ensures
        decodes_to(frame(m) + rest, m.folded()),
{
    match m {
        MessageView::Text { seq, text } => {
            lemma_decode_text_frame(seq, text, rest);
        },
        MessageView::Gps { seq, lat, lon } => {
            lemma_decode_gps_frame(seq, lat, lon, rest);
        },
        MessageView::Ack { seq } => {},
    }
}

/// Decoding is the inverse of encoding: the frame of an encodable message
/// whose text holds no lower-case letter decodes to that message.
pub proof fn lemma_round_trip(m: MessageView)
    requires
        m.encodable(),
        m.folded() == m,
    ensures
        decodes_to(frame(m), m),
{
    lemma_decode_frame(m, Seq::empty());
}

/// A text of `n` characters, 50 at most, packs into `ceil(6n / 8)` bytes and
/// its frame has four bytes more: 38 and 42 for a text of 50 characters.
/// The frame of a position has 10 bytes, that of an acknowledgment 2.
pub proof fn lemma_frame_length(m: MessageView)
    requires
        m.encodable(),
    ensures
        frame(m).len() == frame_len(m),
        frame_len(m) <= 42,
        m is Text ==> pack(symbols_of(m->text)).len() == (6 * m->text.len() + 7) / 8,
        m is Text ==> frame_len(m) == 4 + (6 * m->text.len() + 7) / 8,
        m is Text && m->text.len() == 50 ==> pack(symbols_of(m->text)).len() == 38 && frame_len(m)
            == 42,
        m is Gps ==> frame_len(m) == 10,
        m is Ack ==> frame_len(m) == 2,
{
}

/// A text of at most 50 characters is refused for an unsupported character
/// if and only if one of its characters, folded to upper case, is not in the
/// alphabet; the size of the buffer plays no part in it.
pub proof fn lemma_unsupported_character(seq: u8, text: Seq<char>, room: nat)
    requires
        text.len() <= 50,
    ensures
        encode_failure(MessageView::Text { seq, text }, room) == Some(
            CodecError::UnsupportedCharacter,
        ) <==> exists|i: int| 0 <= i < text.len() && !supported(#[trigger] text[i]),
{
}

/// A text of more than 50 characters is refused as too long, whatever its
/// characters are and however large the buffer is.
pub proof fn lemma_oversize_rejected(seq: u8, text: Seq<char>, room: nat)
    requires
        text.len() > 50,
    ensures
        encode_failure(MessageView::Text { seq, text }, room) == Some(CodecError::TextTooLong),
{
}

/// Buffers that end too early do not decode: an empty buffer; a buffer
/// shorter than the frame that its first bytes declare; a text frame whose
/// packed bytes hold fewer characters than it declares, however many that
/// is.
pub proof fn lemma_malformed(bytes: Seq<u8>)
    ensures
        bytes.len() == 0 ==> fails_with(bytes, CodecError::EmptyBuffer),
        bytes.len() > 0 && bytes[0] == 0x01 && (bytes.len() < 4 || bytes.len() < 4 + bytes[3])
            ==> fails_with(bytes, CodecError::BufferTooSmall),
        bytes.len() > 0 && bytes[0] == 0x02 && bytes.len() < 10 ==> fails_with(
            bytes,
            CodecError::BufferTooSmall,
        ),
        bytes.len() > 0 && bytes[0] == 0x03 && bytes.len() < 2 ==> fails_with(
            bytes,
            CodecError::BufferTooSmall,
        ),
        bytes.len() >= 4 && bytes[0] == 0x01 && bytes.len() >= 4 + bytes[3] && 6 * bytes[2] > 8
            * bytes[3] ==> fails_with(bytes, CodecError::InsufficientPackedData),
{
}

} // verus!
