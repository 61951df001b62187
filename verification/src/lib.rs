//! Server-side RakNet transport protocol engine.
//!
//! The crate covers the wire-format codecs for RakNet datagrams, the
//! offline/online handshake state machine that turns a bare UDP endpoint
//! into a tracked session, and the session table those depend on.
//! All parsing is bounds-checked: malformed input yields a decode error,
//! never a panic.

pub mod buffer;
pub mod client;
pub mod endpoint;
pub mod envelope;
pub mod error;
pub mod outbound;
pub mod packet;
pub mod protocol;
pub mod server;
pub mod session;
pub mod settings;
