use vstd::prelude::*;

verus! {

/// Why a handshake attempt was abandoned.  Every failure is local to one
/// connection: the caller reports it and tears the connection down.
#[derive(Clone, Copy, PartialEq, Eq, Structural, Debug)]
pub enum AuthError {
    /// A peer reset, end of stream, or write failure, reported by the caller.
    IoError,
    /// The greeting was malformed: truncated, a missing null terminator, or an
    /// implausible auth-seed length.
    ParseError,
    /// The server offered a capability set or an auth plugin outside the
    /// single-round-trip password scheme.
    ProtocolUnsupported,
    /// The computed response does not fit a single length-prefixed frame.
    EncodingError,
}

impl AuthError {
    /// A short description for diagnostics.
    pub fn describe(&self) -> (r: &'static str)
        ensures
            r@.len() > 0,
    {
        proof {
            reveal_strlit("i/o failure");
            reveal_strlit("malformed greeting");
            reveal_strlit("unsupported capability or auth plugin");
            reveal_strlit("response does not fit one frame");
        }
        match self {
            AuthError::IoError => "i/o failure",
            AuthError::ParseError => "malformed greeting",
            AuthError::ProtocolUnsupported => "unsupported capability or auth plugin",
            AuthError::EncodingError => "response does not fit one frame",
        }
    }
}

} // verus!
