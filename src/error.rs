//! The failures the library reports.

use vstd::prelude::*;

verus! {

#[derive(Clone, Copy, Debug, PartialEq, Eq, Structural)]
pub enum Error {
    /// There is no credential file: the user must log in first.
    NotLoggedIn,
    /// The credential file cannot be read back as a session record.
    Corrupt,
    /// A network or protocol call failed.
    Transport,
    /// A login was asked for while a session is already stored.
    AlreadyLoggedIn,
    /// No data directory could be determined for the credential file.
    NoHomeDirectory,
    /// A local file operation failed.
    Io,
    /// The room is not among the joined rooms.
    InvalidRoom,
    /// The file to send has no usable name.
    InvalidFile,
}

} // verus!
