use vstd::prelude::*;

verus! {

/// The categories of failure that the runtime core distinguishes.
#[derive(Clone, Copy, Debug, PartialEq, Eq, Structural)]
pub enum ErrorKind {
    /// A malformed line, an unknown verb, a wrong arity or a bad number.
    InvalidInput,
    /// A handshake violation: a missing or a repeated `BEGIN`.
    InvalidData,
    /// A transient wait that ran out of time.
    TimedOut,
    /// A blocking operation that was interrupted from another thread.
    ConnectionAborted,
    /// The peer of a channel has gone away.
    BrokenPipe,
    /// Anything else.
    Other,
}

/// An error of the runtime core: its kind decides the recovery.
#[derive(Clone, Copy, Debug, PartialEq, Eq, Structural)]
pub struct Error {
    pub kind: ErrorKind,
}

impl Error {
    pub fn new(kind: ErrorKind) -> (r: Error)
        ensures
            r.kind == kind,
    {
        Error { kind }
    }

    pub fn kind(&self) -> (r: ErrorKind)
        ensures
            r == self.kind,
    {
        self.kind
    }
}

/// The error number that a read or an accept fails with when another thread
/// closed its socket: `EBADF` on Unix.
pub const CLOSED_SOCKET_UNIX: i32 = 9;

/// The error number that a read or an accept fails with when another thread
/// closed its socket: `WSAEINTR` on Windows.
pub const CLOSED_SOCKET_WINDOWS: i32 = 10004;

/// The kind of a transport error, with a socket closed from another thread
/// counted as an aborted connection whatever the platform reports.
pub fn normalize_interrupt(kind: ErrorKind, raw_os_error: Option<i32>) -> (r: ErrorKind)
    ensures
        kind == ErrorKind::Other && (raw_os_error == Some(CLOSED_SOCKET_UNIX) || raw_os_error == Some(
            CLOSED_SOCKET_WINDOWS,
        )) ==> r == ErrorKind::ConnectionAborted,
        !(kind == ErrorKind::Other && (raw_os_error == Some(CLOSED_SOCKET_UNIX) || raw_os_error == Some(
            CLOSED_SOCKET_WINDOWS,
        ))) ==> r == kind,
{
    match (kind, raw_os_error) {
        (ErrorKind::Other, Some(code)) => {
            if code == CLOSED_SOCKET_UNIX || code == CLOSED_SOCKET_WINDOWS {
                ErrorKind::ConnectionAborted
            } else {
                kind
            }
        },
        _ => kind,
    }
}

} // verus!
