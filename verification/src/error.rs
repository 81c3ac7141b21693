//! The closed error taxonomy for protocol calls.

use vstd::prelude::*;

verus! {

/// Everything a protocol call can fail with. Every failure is terminal for
/// the current call; the caller decides whether the session is still usable.
#[derive(Debug)]
pub enum Pop3Error {
    /// The peer closed the stream (a zero-byte read) in the middle of a frame.
    ConnectionClosed,
    /// A second authentication attempt on a session that is already authorized.
    /// Raised client-side, before any bytes are written.
    AlreadyAuthenticated,
    /// A fault of the underlying transport, with its message.
    Io(String),
    /// A reply field that should be an unsigned integer did not parse as one.
    InvalidNumber,
    /// Reply bytes that were expected to be text were not valid UTF-8.
    InvalidString,
    /// The reply did not have the shape the command contractually expects.
    InvalidResponse,
    /// The server refused the command; carries its literal message text.
    OtherString(String),
}

impl Pop3Error {
    /// Wrap a server's negative-reply message text verbatim.
    pub fn other(err: &str) -> (r: Self)
        ensures
            r matches Pop3Error::OtherString(s) && s@ == err@,
    {
        Pop3Error::OtherString(err.to_owned())
    }
}

} // verus!
