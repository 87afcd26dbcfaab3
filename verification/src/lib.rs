//! Client library for CAEN RFID readers that speak the easy2read protocol:
//! message framing (header and attribute-value pairs), the reader's constants,
//! and a command client over an abstract byte transport.

pub mod commands;
pub mod constants;
pub mod header;
pub mod protocol;
pub mod transport;
