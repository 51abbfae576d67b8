//! Process exit codes.
use vstd::prelude::*;

verus! {

/// Exit codes for the command-line program, after BSD `sysexits.h`:
/// the numeric value of each is its position in this list.
#[derive(Debug, Clone, Copy, PartialEq, Eq, Structural)]
pub enum ExitCode {
    /// Successful execution.
    Success,
    /// General software error.
    Software,
    /// Invalid input data (malformed query, corrupted database).
    DataErr,
    /// I/O error.
    IoErr,
    /// No input provided.
    NoInput,
    /// Permission denied.
    NoPerm,
}

impl ExitCode {
    /// The numeric exit status.
    pub fn code(&self) -> (r: u8)
        ensures
            r == match *self {
                ExitCode::Success => 0u8,
                ExitCode::Software => 1,
                ExitCode::DataErr => 2,
                ExitCode::IoErr => 3,
                ExitCode::NoInput => 4,
                ExitCode::NoPerm => 5,
            },
    {
        match self {
            ExitCode::Success => 0,
            ExitCode::Software => 1,
            ExitCode::DataErr => 2,
            ExitCode::IoErr => 3,
            ExitCode::NoInput => 4,
            ExitCode::NoPerm => 5,
        }
    }
}

} // verus!
