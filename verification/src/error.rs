//! Failures of the session manager and their user-facing wording.

use vstd::prelude::*;
use vstd::string::*;

verus! {

/// Everything that can go wrong while starting or driving a terminal session.
#[derive(Debug, Clone, PartialEq, Eq)]
pub enum AppError {
    /// The pseudo-terminal could not be allocated.
    OpenPty(String),
    /// The child process could not be spawned on the terminal.
    Spawn(String),
    /// No readable handle could be obtained from the terminal.
    CloneReader(String),
    /// No writable handle could be obtained from the terminal.
    TakeWriter(String),
    /// The lock around the session registry was poisoned by a panic.
    StatePoisoned,
    /// The session id is not registered.
    SessionNotFound,
    /// The child process could not be signalled.
    Signal(String),
    /// Input could not be written to the terminal.
    Input(String),
}

impl AppError {
    /// The text shown to the caller for this error.
    pub open spec fn message_spec(self) -> Seq<char> {
        match self {
            AppError::OpenPty(detail) => "Failed to allocate PTY: "@ + detail@,
            AppError::Spawn(detail) => "Failed to spawn PTY child process: "@ + detail@,
            AppError::CloneReader(detail) => "Failed to clone PTY reader: "@ + detail@,
            AppError::TakeWriter(detail) => "Failed to create PTY writer: "@ + detail@,
            AppError::StatePoisoned => "Internal PTY state lock poisoned"@,
            AppError::SessionNotFound => "Terminal session not found"@,
            AppError::Signal(detail) => "Failed to send signal to terminal: "@ + detail@,
            AppError::Input(detail) => "Failed to write terminal input: "@ + detail@,
        }
    }

    /// Renders the error as the string handed back across the command surface.
    pub fn message(&self) -> (text: String)
        ensures
            text@ == self.message_spec(),
    {
        match self {
            AppError::OpenPty(detail) => String::from_str("Failed to allocate PTY: ").concat(
                detail.as_str(),
            ),
            AppError::Spawn(detail) => String::from_str(
                "Failed to spawn PTY child process: ",
            ).concat(detail.as_str()),
            AppError::CloneReader(detail) => String::from_str(
                "Failed to clone PTY reader: ",
            ).concat(detail.as_str()),
            AppError::TakeWriter(detail) => String::from_str(
                "Failed to create PTY writer: ",
            ).concat(detail.as_str()),
            AppError::StatePoisoned => String::from_str("Internal PTY state lock poisoned"),
            AppError::SessionNotFound => String::from_str("Terminal session not found"),
            AppError::Signal(detail) => String::from_str(
                "Failed to send signal to terminal: ",
            ).concat(detail.as_str()),
            AppError::Input(detail) => String::from_str("Failed to write terminal input: ").concat(
                detail.as_str(),
            ),
        }
    }
}

} // verus!
