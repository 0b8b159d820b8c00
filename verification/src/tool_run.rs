//! How a run of an external program ended, as the caller that ran it
//! reports it.
use vstd::prelude::*;

verus! {

/// How one run of an external program ended.
#[derive(Debug, Clone, PartialEq, Eq)]
pub enum ToolRun {
    /// The program was not found.
    NotFound,
    /// The program could not be started; the system's reason.
    SpawnFailed(String),
    /// The program ran and exited.
    Exited {
        /// Whether it exited successfully.
        success: bool,
        /// Its exit status as the system describes it (e.g. "exit status: 1").
        status: String,
        /// Its error output, decoded as text.
        stderr: String,
    },
}

} // verus!
