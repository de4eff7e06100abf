//! Interpreting what became of a run of the external model program.
use vstd::prelude::*;
use crate::error::{ToolError, EXIT_CODE_UNAVAILABLE};

verus! {

/// What became of an attempt to run the external program.
#[derive(Debug)]
pub enum RunOutcome {
    /// The program could not be located or started.
    NotStarted { reason: String },
    /// The program ran to its end; `code` is its exit status, if it had one.
    Finished { code: Option<i32> },
}

/// The result that a run of the external program amounts to.
pub open spec fn run_result(outcome: RunOutcome) -> Result<(), ToolError> {
    match outcome {
        RunOutcome::NotStarted { reason } => Err(ToolError::Spawn { message: reason }),
        RunOutcome::Finished { code: Some(0) } => Ok(()),
        RunOutcome::Finished { code: Some(c) } => Err(ToolError::ExternalCommand { code: c }),
        RunOutcome::Finished { code: None } => Err(
            ToolError::ExternalCommand { code: EXIT_CODE_UNAVAILABLE },
        ),
    }
}

/// Success exactly when the program ran and exited with status zero; a
/// program that did not start is a `Spawn` error, one that exited otherwise
/// an `ExternalCommand` error carrying its status.
pub fn command_result(outcome: RunOutcome) -> (r: Result<(), ToolError>)
    ensures
        r == run_result(outcome),
{
    match outcome {
        RunOutcome::NotStarted { reason } => Err(ToolError::Spawn { message: reason }),
        RunOutcome::Finished { code: Some(c) } => {
            if c == 0 {
                Ok(())
            } else {
                Err(ToolError::ExternalCommand { code: c })
            }
        },
        RunOutcome::Finished { code: None } => Err(
            ToolError::ExternalCommand { code: EXIT_CODE_UNAVAILABLE },
        ),
    }
}

} // verus!
