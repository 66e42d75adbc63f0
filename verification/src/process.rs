//! What comes back from one run of the version-control tool.

use vstd::prelude::*;

verus! {

/// What a finished run of the tool left behind.
#[derive(Debug, Clone, PartialEq, Eq)]
pub struct ProcessOutput {
    /// Everything the tool wrote to its standard output.
    pub stdout: Vec<u8>,
    /// Everything the tool wrote to its standard error.
    pub stderr: Vec<u8>,
    /// The exit code; `None` where the tool ended without one.
    pub exit_status: Option<i32>,
}

/// The tool could not be started at all.
#[derive(Debug, Clone, PartialEq, Eq)]
pub struct ProcessLaunchError {
    /// Why the start failed, in the words of the operating system.
    pub reason: String,
}

/// The outcome of asking for one run: the tool ran and left an output, or it
/// never started.
pub type Outcome = Result<ProcessOutput, ProcessLaunchError>;

impl ProcessOutput {
    /// Whether the exit status says success: the tool ended with code zero.
    pub open spec fn succeeded(&self) -> bool {
        self.exit_status == Some(0i32)
    }

    /// Tells whether the exit status says success.
    pub fn is_success(&self) -> (r: bool)
        ensures
            r == self.succeeded(),
    {
        match self.exit_status {
            Some(code) => code == 0,
            None => false,
        }
    }
}

/// Whether the tool ran and reported success.
pub open spec fn ran_successfully(outcome: Outcome) -> bool {
    outcome matches Ok(output) && output.succeeded()
}

} // verus!
