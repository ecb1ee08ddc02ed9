//! The verified core of a commit-message assistant.
//!
//! The tool reads the staged changes of a git repository, asks a completion
//! backend for a conventional commit message and puts the answer on the
//! clipboard. Everything that touches the outside world (the command line,
//! `git`, the network, the clipboard) is left to a driver. This crate
//! holds what the driver must not get wrong: which files are skipped, how the
//! diff text and the prompt are laid out, how the clipboard text is quoted,
//! and in which order the outside work is asked for.

pub mod text;
pub mod error;
pub mod options;
pub mod diff;
pub mod output;
pub mod prompt;
pub mod run;
