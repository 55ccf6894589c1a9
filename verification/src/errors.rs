//! Typed, recoverable outcomes. Every rejected call leaves the state
//! unchanged and surfaces a specific error kind, so callers can tell
//! "retry later" from "never valid".

use vstd::prelude::*;

verus! {

/// The error taxonomy of the protocol core.
#[derive(Clone, Copy, PartialEq, Eq, Structural, Debug)]
pub enum Error {
    /// A plan, report or subscription with the given identifier is absent.
    NotFound,
    /// The caller lacks the role the operation requires.
    Unauthorized,
    /// The targeted report has already reached its terminal resolved state.
    AlreadyResolved,
    /// The input is invalid, such as the `Unknown` duration sentinel.
    InvalidInput,
    /// The host's value-transfer primitive reported a failure.
    TransferFailed,
}

} // verus!
