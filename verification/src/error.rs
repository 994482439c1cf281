//! The failures of the wire codec.

use vstd::prelude::*;

verus! {

/// Why a message could not be encoded or a buffer could not be decoded.
#[derive(Debug, Clone, Copy, PartialEq, Eq, Structural)]
pub enum CodecError {
    /// The text holds more characters than a frame may carry.
    TextTooLong,
    /// The text holds a character that is not in the alphabet.
    UnsupportedCharacter,
    /// The buffer is shorter than the frame that is written to it or read from it.
    BufferTooSmall,
    /// There is no byte to read the frame's type from.
    EmptyBuffer,
    /// The packed bytes end before the declared number of characters.
    InsufficientPackedData,
    /// The first byte is the tag of no message type.
    UnknownMessageType,
    /// The value does not fit in six bits.
    InvalidSymbol,
    /// The frame declares more characters than a text can hold.
    CapacityExceeded,
}

impl CodecError {
    /// A short description for logs and diagnostics.
    pub fn message(&self) -> (text: &'static str)
        ensures
            text@ == self.spec_message()@,
    {
        match self {
            CodecError::TextTooLong => "Text too long",
            CodecError::UnsupportedCharacter => "Character not in supported charset",
            CodecError::BufferTooSmall => "Buffer too small",
            CodecError::EmptyBuffer => "Empty buffer",
            CodecError::InsufficientPackedData => "Insufficient packed data",
            CodecError::UnknownMessageType => "Unknown message type",
            CodecError::InvalidSymbol => "Invalid 6-bit value",
            CodecError::CapacityExceeded => "String capacity exceeded",
        }
    }

    /// The description that [`CodecError::message`] returns.
    pub open spec fn spec_message(&self) -> &'static str {
        match self {
            CodecError::TextTooLong => "Text too long",
            CodecError::UnsupportedCharacter => "Character not in supported charset",
            CodecError::BufferTooSmall => "Buffer too small",
            CodecError::EmptyBuffer => "Empty buffer",
            CodecError::InsufficientPackedData => "Insufficient packed data",
            CodecError::UnknownMessageType => "Unknown message type",
            CodecError::InvalidSymbol => "Invalid 6-bit value",
            CodecError::CapacityExceeded => "String capacity exceeded",
        }
    }
}

} // verus!
