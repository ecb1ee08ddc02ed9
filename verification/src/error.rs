//! The ways a run can fail.

use vstd::prelude::*;

verus! {

/// Why a run was given up. Each kind belongs to one stage of the run; none
/// of them is ever recovered from.
#[derive(Clone, Copy, Debug, PartialEq, Eq, Structural)]
pub enum RunError {
    /// An argument holds a value that is not accepted.
    Argument,
    /// A `git` subprocess could not be started or read, or what it printed is
    /// not UTF-8.
    Subprocess,
    /// The completion backend failed, or answered with an empty text.
    Backend,
    /// The clipboard could not be written.
    Clipboard,
}

} // verus!
