//! Input and output failures as plain values.

use vstd::prelude::*;

verus! {

/// Category of an input or output failure.
#[derive(Debug, Clone, Copy, PartialEq, Eq, Hash, Structural)]
pub enum ErrorKind {
    /// An entity was not found.
    NotFound,
    /// The operation lacked the necessary privileges.
    PermissionDenied,
    /// The connection was refused by the remote peer.
    ConnectionRefused,
    /// The connection was reset by the remote peer.
    ConnectionReset,
    /// The remote host is not reachable.
    HostUnreachable,
    /// The network of the remote host is not reachable.
    NetworkUnreachable,
    /// The connection was aborted by the remote peer.
    ConnectionAborted,
    /// The connection is not established yet.
    NotConnected,
    /// The address is already in use elsewhere.
    AddrInUse,
    /// The address does not exist or is not local.
    AddrNotAvailable,
    /// The system's networking is down.
    NetworkDown,
    /// The pipe was closed.
    BrokenPipe,
    /// The entity already exists.
    AlreadyExists,
    /// The operation would have to block to complete.
    WouldBlock,
    /// A parameter was incorrect.
    InvalidInput,
    /// Malformed data was encountered.
    InvalidData,
    /// The operation's timeout expired.
    TimedOut,
    /// A write accepted no bytes.
    WriteZero,
    /// The operation was interrupted.
    Interrupted,
    /// The operation is not supported on this platform.
    Unsupported,
    /// An end of file was reached prematurely.
    UnexpectedEof,
    /// Memory could not be allocated.
    OutOfMemory,
    /// Any other failure.
    Other,
}

/// An input or output failure: its category, the operating system's code where it came with one,
/// and its text.
#[derive(Debug)]
pub struct Error {
    /// Category of the failure.
    pub kind: ErrorKind,
    /// Code of the operating system, if that is where the failure came from.
    pub os_code: Option<i32>,
    /// Text of the failure.
    pub message: String,
}

impl Error {
    /// This failure is one of the given kind and text that did not come from the operating system.
    pub open spec fn reads(self, kind: ErrorKind, text: Seq<char>) -> bool {
        &&& self.kind == kind
        &&& self.os_code is None
        &&& self.message@ == text
    }

    /// Creates a failure of the given kind and text.
    pub fn new(kind: ErrorKind, message: &str) -> (error: Error)
        ensures
            error.reads(kind, message@),
    {
        Error { kind, os_code: None, message: message.to_owned() }
    }

    /// Creates a failure with the given text that belongs to no particular kind.
    pub fn other(message: &str) -> (error: Error)
        ensures
            error.reads(ErrorKind::Other, message@),
    {
        Error::new(ErrorKind::Other, message)
    }

    /// Category of this failure.
    pub fn kind(&self) -> (kind: ErrorKind)
        ensures
            kind == self.kind,
    {
        self.kind
    }
}

} // verus!
