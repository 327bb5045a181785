//! Decoder for a self-describing binary telemetry stream: a sequence of
//! key-length-value records, some of which nest further record sequences as
//! their payload. Every decoding function carries a contract relating its
//! result to a mathematical model of the wire format.

pub mod block;
pub mod cursor;
pub mod decode;
pub mod error;
pub mod format;
pub mod laws;
pub mod text;
