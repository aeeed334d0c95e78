//! The error kinds that nets, listeners, streams and sockets surface.

use vstd::prelude::*;

verus! {

/// Why an operation on a net, a listener, a stream or a socket failed.
#[derive(Debug, Clone, PartialEq, Eq)]
pub enum Error {
    /// The requested port already has an owner.
    AddrInUse,
    /// The address is not one that this net can bind or reach.
    AddrNotAvailable,
    /// Nothing listens at the target.
    ConnectionRefused,
    /// The listener went away before the connection was accepted.
    ConnectionAborted,
    /// The other end can no longer take what is sent.
    BrokenPipe,
    /// The handle does not belong to a live connection.
    NotConnected,
    /// A deadline passed.
    TimedOut,
    /// Nothing is ready yet; the caller waits and tries again.
    WouldBlock,
    /// The context of the call was cancelled.
    AbortedByUser,
    /// Anything else, with a message.
    Other(String),
}

impl Error {
    /// Whether this is `Other` with the message `text`.
    pub open spec fn is_other(self, text: Seq<char>) -> bool {
        match self {
            Error::Other(m) => m@ == text,
            _ => false,
        }
    }

    /// Whether the error only says "not yet".
    pub fn is_would_block(&self) -> (r: bool)
        ensures
            r == (*self == Error::WouldBlock),
    {
        match self {
            Error::WouldBlock => true,
            _ => false,
        }
    }
}

} // verus!
