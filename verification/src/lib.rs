//! Bridge between a web client and a fiscal cash-register device.
//!
//! The library holds the verified core of the bridge: the command data
//! model with its decoding rules, the formatter that turns a command into
//! the exact byte string the register expects, and the per-connection
//! state machine that decides what to do with each incoming message.
//! The surrounding process (websocket transport, serial device writes)
//! performs the actions this library decides on.

pub mod command;
pub mod connection;
pub mod decimal;
pub mod decode;
pub mod json;
pub mod protocol;
