//! Failures of socket operations.

use vstd::prelude::*;
use vstd::string::*;

verus! {

/// What kind of failure it was.
#[derive(Clone, Copy, Debug, PartialEq, Eq, Structural)]
pub enum IoErrorKind {
    NotFound,
    PermissionDenied,
    ConnectionRefused,
    ConnectionReset,
    HostUnreachable,
    NetworkUnreachable,
    ConnectionAborted,
    NotConnected,
    AddrInUse,
    AddrNotAvailable,
    NetworkDown,
    BrokenPipe,
    AlreadyExists,
    /// The operation would have had to wait.
    WouldBlock,
    InvalidInput,
    InvalidData,
    TimedOut,
    WriteZero,
    Interrupted,
    Unsupported,
    UnexpectedEof,
    OutOfMemory,
    /// Anything else.
    Other,
}

/// A failed socket operation.
#[derive(Debug)]
pub struct IoError {
    pub kind: IoErrorKind,
    /// The number that the operating system has for the failure, if it comes
    /// from there.
    pub os_code: Option<i32>,
    pub desc: String,
}

/// A failure with the given description and of no particular kind.
pub fn other(desc: &str) -> (e: IoError)
    ensures
        e.kind is Other,
        e.os_code is None,
        e.desc@ == desc@,
{
    IoError { kind: IoErrorKind::Other, os_code: None, desc: String::from_str(desc) }
}

} // verus!
