//! Handshake core of a credential-substituting database proxy.
//!
//! The library parses a server's binary greeting packet, computes the
//! password-challenge digest of the wire authentication scheme, builds the
//! client response packet, and drives the four-message exchange as a pure
//! state machine.  All I/O is left to the caller, which feeds raw bytes in
//! and carries bytes and actions out.

pub mod bytes;
pub mod digest;
pub mod error;
pub mod frame;
pub mod greeting;
pub mod orchestrator;
pub mod response;
