//! Routing of commands to the domain that owns their variable.
use vstd::prelude::*;

use crate::domain::{Command, Var};

verus! {

/// Where a command goes.
#[derive(Clone, Copy, Debug, PartialEq, Eq, Structural)]
pub enum Route {
    LVar,
    Fsuipc,
    /// A close reaches every domain, so that each drops the client's subscriptions.
    Both,
}

/// The domain that a command belongs to, by the kind of its variable.
pub fn route(cmd: &Command) -> (r: Route)
    ensures
        match *cmd {
            Command::Observe(Var::LVar(_), _) | Command::Write(Var::LVar(_), _) => r == Route::LVar,
            Command::Observe(Var::FsuipcOffset(_), _) | Command::Write(Var::FsuipcOffset(_), _) => r == Route::Fsuipc,
            Command::Close(_) => r == Route::Both,
        },
{
    match cmd {
        Command::Observe(Var::LVar(_), _) | Command::Write(Var::LVar(_), _) => Route::LVar,
        Command::Observe(Var::FsuipcOffset(_), _) | Command::Write(Var::FsuipcOffset(_), _) => Route::Fsuipc,
        Command::Close(_) => Route::Both,
    }
}

} // verus!
