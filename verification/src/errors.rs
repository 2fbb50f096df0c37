//! Errors surfaced by the supervision operations.

use vstd::prelude::*;

verus! {

/// Why a start operation was refused.
#[derive(Debug)]
pub enum StartError {
    /// A live process is already registered under the name.
    AlreadyRunning,
    /// The operating system refused to spawn the process.
    LaunchFailed(String),
}

/// Why a command could not be sent to a process.
#[derive(Debug)]
pub enum SendError {
    /// No live process is registered under the name.
    NotRunning,
    /// The process has no open input pipe.
    NoInputChannel,
    /// The write to the input pipe failed.
    IoFailure(String),
}

/// Why a stop operation was refused.
#[derive(Debug)]
pub enum StopError {
    /// The name is not registered.
    NotFound,
}

} // verus!
