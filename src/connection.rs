//! The decisions of a connection's reader loop.
use vstd::prelude::*;
use vstd::string::*;

use crate::domain::{ClientName, Command};
use crate::error::{Error, ErrorKind};

verus! {

/// How long a reader blocks on its stream before it looks at its stop flag.
pub const READ_TIMEOUT_MS: u64 = 250;

/// What a reader does after one attempt to read a request.
pub enum ReaderAction {
    /// Send the command to the domains and read on.
    Forward(Command),
    /// Nothing to send (a timeout, or the handshake): read on.
    Continue,
    /// The stream is over: tell the domains that this client is gone, then exit.
    Close(Command),
    /// Stopped from outside: exit.
    Exit,
}

/// Decides a reader's next move from its stop flag and what the read gave.
pub fn reader_step(stopped: bool, read: Result<Option<Command>, Error>, client_name: &str) -> (r: ReaderAction)
    ensures
        stopped ==> r is Exit,
        !stopped ==> match read {
            Ok(Some(c)) => r == ReaderAction::Forward(c),
            Ok(None) => r is Continue,
            Err(e) => if e.kind == ErrorKind::TimedOut {
                r is Continue
            } else {
                r matches ReaderAction::Close(Command::Close(n)) && n@ == client_name@
            },
        },
{
    if stopped {
        return ReaderAction::Exit;
    }
    match read {
        Ok(Some(c)) => ReaderAction::Forward(c),
        Ok(None) => ReaderAction::Continue,
        Err(e) => {
            if e.kind == ErrorKind::TimedOut {
                ReaderAction::Continue
            } else {
                let name: ClientName = String::from_str(client_name);
                ReaderAction::Close(Command::Close(name))
            }
        },
    }
}

} // verus!
