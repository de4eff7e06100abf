//! The ways in which a command of the tool can fail.
use vstd::prelude::*;

verus! {

/// Why a command failed.
#[derive(Debug)]
pub enum ToolError {
    /// The HTTP request could not be made or answered.
    Network { message: String },
    /// The external program could not be found or started.
    Spawn { message: String },
    /// The external program ran and exited with a status other than zero;
    /// `code` is that status, or `EXIT_CODE_UNAVAILABLE` when the program
    /// reported none (it was ended by a signal).
    ExternalCommand { code: i32 },
    /// The server's reply was not a JSON object with a text `response` field.
    Deserialization,
}

/// The code reported for a program that ended without an exit status.
pub const EXIT_CODE_UNAVAILABLE: i32 = -1;

} // verus!
