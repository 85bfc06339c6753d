//! Session lifecycle and interactive device verification for a command-line
//! chat client: credential-file rules, the load / login / logout flows as
//! step machines, and the coordinator of the emoji (SAS) verification
//! handshake. Everything that touches the disk, the terminal or the network
//! is performed by the caller, which hands the outcome of each step back.

pub mod answer;
pub mod command;
pub mod error;
pub mod permissions;
pub mod record;
pub mod room;
pub mod session;
mod text;
pub mod verification;
