//! The failures that a session can meet.

use vstd::prelude::*;

verus! {

/// A failure of the player.
#[derive(Clone, Copy, Debug, PartialEq, Eq, Structural)]
pub enum PlayerError {
    /// The input path is missing or cannot be read.
    Io,
    /// A track cannot be decoded.
    UnsupportedFormat,
    /// The amount of a raise or a lower is not a number.
    InvalidArgument,
    /// The first token of a line names no command.
    UnknownCommand,
}

/// The line that reports a failure.
pub open spec fn error_text(error: PlayerError) -> Seq<char> {
    match error {
        PlayerError::Io => "Error reading the audio path"@,
        PlayerError::UnsupportedFormat => "Error decoding audio file"@,
        PlayerError::InvalidArgument => "Volume change must be a number"@,
        PlayerError::UnknownCommand => "Command not recognized. Try 'help'."@,
    }
}

impl PlayerError {
    /// The line that reports this failure.
    pub fn message(self) -> (text: &'static str)
        ensures
            text@ == error_text(self),
    {
        match self {
            PlayerError::Io => "Error reading the audio path",
            PlayerError::UnsupportedFormat => "Error decoding audio file",
            PlayerError::InvalidArgument => "Volume change must be a number",
            PlayerError::UnknownCommand => "Command not recognized. Try 'help'.",
        }
    }

    /// Whether the failure ends the session. Only a failure to read the
    /// input path does; every other one is reported and the session goes on.
    pub fn is_fatal(self) -> (fatal: bool)
        ensures
            fatal == (self is Io),
    {
        match self {
            PlayerError::Io => true,
            _ => false,
        }
    }
}

} // verus!
