//! Server-side coordinator for a remotely operated hardware turret.
//!
//! The crate holds the coordination logic: the message model, the serial
//! framing codec with CRC and single-byte resync, the client queue with its
//! broadcast invariant, the line-JSON request and response grammar, the
//! command rate limiter, the authority filter in front of the hardware
//! writer, and the per-client video handshake and branch bookkeeping.
//! I/O plumbing (sockets, the serial port, the media runtime) lives outside.

pub mod types;
pub mod numfmt;
pub mod wire;
pub mod config;
pub mod codec;
pub mod arduino;
pub mod json;
pub mod netfmt;
pub mod queue;
pub mod request;
pub mod lines;
pub mod bus;
pub mod video;
pub mod server;
pub mod supervisor;
