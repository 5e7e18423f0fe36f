//! Playback session controller for a terminal audio player.
//!
//! The crate holds the queue model, the shuffle, the command interpreter,
//! the volume arithmetic and the session state machine. Audio output, the
//! file system and the terminal stay with the caller, which feeds the
//! session one line at a time and carries out the action it answers with.

pub mod command;
pub mod error;
pub mod queue;
pub mod session;
pub mod shuffle;
pub mod text;
pub mod track;
pub mod volume;
