//! Client core for remote-controlling a media player over its local JSON IPC
//! socket: message framing, command encoding, reply decoding, value coercion,
//! and the multi-step exchange that assembles one status snapshot.
//!
//! The library is pure logic over plain values. Opening the socket, reading
//! and writing bytes, and serving the control surface live outside it; they
//! hand the library raw reply bytes and send the byte strings it produces.

pub mod ascii;
pub mod codec;
pub mod control;
pub mod error;
pub mod fixed;
pub mod json;
pub mod laws;
pub mod settings;
pub mod status;
pub mod value;
