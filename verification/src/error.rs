//! Failures of the streaming engine.

use vstd::prelude::*;

verus! {

/// What went wrong while a response was read.
///
/// Every failure is fatal for the operation that reports it: the connection's
/// position in the packet stream is then unknown and the connection should be
/// discarded.
#[derive(Debug, Clone, Copy, PartialEq, Eq, Structural)]
pub enum Error {
    /// The packet stream ended where a packet was expected.
    ConnectionClosed,
    /// A packet does not have the layout that its place in the stream demands.
    MalformedPacket,
    /// A binary row was met whose column type has no binary decoding.
    UnsupportedColumnType,
    /// The server asked for a local file and no handler is registered.
    NoLocalInfileHandler,
    /// The registered handler does not offer the file that the server asked for.
    LocalInfileNotFound,
}

impl Error {
    /// The description of each failure, as `message` returns it.
    pub open spec fn message_text(self) -> Seq<char> {
        match self {
            Error::ConnectionClosed => "connection closed"@,
            Error::MalformedPacket => "malformed packet"@,
            Error::UnsupportedColumnType => "unsupported column type"@,
            Error::NoLocalInfileHandler => "no local infile handler"@,
            Error::LocalInfileNotFound => "local infile not found"@,
        }
    }

    /// A short description of the failure.
    pub fn message(&self) -> (text: &'static str)
        ensures
            text@ == self.message_text(),
    {
        match self {
            Error::ConnectionClosed => "connection closed",
            Error::MalformedPacket => "malformed packet",
            Error::UnsupportedColumnType => "unsupported column type",
            Error::NoLocalInfileHandler => "no local infile handler",
            Error::LocalInfileNotFound => "local infile not found",
        }
    }
}

} // verus!
