//! Acquisition and decoding core of an instrument debugging tool.
//!
//! The crate turns what two transports deliver, raw bytes from a serial link
//! and registers from a Modbus link, into readings that a person can read.
//! It does no input or output itself. Where a background loop has to wait, read
//! or send, the loop lives with the caller, and the crate holds its decisions
//! as a state machine: the loop hands in what happened and is told what to do
//! next.
//!
//! Every function states its behaviour over mathematical models and is
//! verified against that statement. What holds of whole runs, as that no byte
//! of a stream is lost or that a stopped poll delivers nothing more, is stated
//! in proof functions beside the code.
//!
//! - [`codec`]: registers read as numbers under a display format
//! - [`rows`]: a block of registers laid out as a table
//! - [`transport`], [`exchange`]: a request to a device and its reply
//! - [`poll`]: the poll loop and the session that starts and stops it
//! - [`framing`]: a serial byte stream cut into frames at silences
//! - [`hex`], [`text`]: bytes and numbers as text
//! - [`modbus`], [`serial`], [`settings`]: the state of the two tools

pub mod codec;
pub mod exchange;
pub mod framing;
pub mod hex;
pub mod modbus;
pub mod poll;
pub mod rows;
pub mod serial;
pub mod settings;
pub mod text;
pub mod transport;
