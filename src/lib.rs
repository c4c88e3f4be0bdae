//! Client side of a line-based text protocol that drives the digital and
//! analog pins of a microcontroller over a serial line.
//!
//! Each call is one exchange: a command such as `PM 13 O;` goes out, and a
//! reply such as `ACK H;` or `ERROR TIMEOUT;` comes back in a fixed-size,
//! NUL-padded buffer. This crate builds the commands and decodes the replies;
//! moving the bytes is left to the transport.
use vstd::prelude::*;

pub mod laws;
pub mod reply;
pub mod request;
pub mod types;

pub use reply::{
    decode_analog_reply, decode_digital_reply, decode_reply, decode_unit_reply, REPLY_CAPACITY,
};
pub use request::{
    analog_read_command, analog_write_command, digital_read_command, digital_write_command,
    echo_command, pin_mode_command, raw_command,
};
pub use types::{DigitalValue, Error, Failure, PinMode};

verus! {

/// Line speed of the serial link, in baud.
pub const BAUD_RATE: u32 = 9600;

/// How long a reply may take to arrive, in milliseconds.
pub const READ_TIMEOUT_MS: u64 = 1000;

} // verus!
