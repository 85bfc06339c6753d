//! The guards the command layer applies before it runs a command.

use crate::error::Error;
use crate::text::{trim, trimmed};
use vstd::prelude::*;

verus! {

#[derive(Clone, Copy, Debug, PartialEq, Eq, Structural)]
pub enum CommandKind {
    Login,
    Verify,
    Logout,
    /// Any room command; these need a restored session.
    Room,
}

pub open spec fn permitted(kind: CommandKind, session: Result<(), Error>) -> Result<(), Error> {
    match kind {
        CommandKind::Login => if session is Ok {
            Err(Error::AlreadyLoggedIn)
        } else {
            Ok(())
        },
        CommandKind::Verify => if session is Ok {
            Ok(())
        } else {
            Err(Error::NotLoggedIn)
        },
        CommandKind::Logout => Ok(()),
        CommandKind::Room => session,
    }
}

/// Whether a command may run, given how restoring the stored session went.
/// A login is refused over a restored session (so a stored session is never
/// overwritten); verification needs one; a logout always runs; a room
/// command fails with the error that restoring the session gave.
pub fn check_command(kind: CommandKind, session: Result<(), Error>) -> (r: Result<(), Error>)
    ensures
        r == permitted(kind, session),
{
    match kind {
        CommandKind::Login => match session {
            Ok(()) => Err(Error::AlreadyLoggedIn),
            Err(_) => Ok(()),
        },
        CommandKind::Verify => match session {
            Ok(()) => Ok(()),
            Err(_) => Err(Error::NotLoggedIn),
        },
        CommandKind::Logout => Ok(()),
        CommandKind::Room => session,
    }
}

/// The user name and password to submit, from what was given or typed:
/// surrounding white space (the typed line's end included) is dropped.
pub fn login_credentials<'a, 'b>(username: &'a str, password: &'b str) -> (r: (&'a str, &'b str))
    ensures
        r.0@ == trimmed(username@),
        r.1@ == trimmed(password@),
{
    (trim(username), trim(password))
}

} // verus!
