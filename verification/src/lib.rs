//! Verified core of a bridge between a short-range link to a phone and a
//! long-range, low-bandwidth radio link.
//!
//! The crate holds the wire codec of the long-range link (a bit-exact frame
//! format with 6-bit packed text), the two bounded queues that connect the
//! short-range side with the long-range side, and the decisions that each
//! side takes on the events it sees. Radio drivers, the attribute server and
//! the task scheduler live outside of it and hand it plain bytes.

pub mod alphabet;
pub mod channel;
pub mod config;
pub mod error;
pub mod long_range;
pub mod message;
pub mod packing;
pub mod short_range;
pub mod text;
