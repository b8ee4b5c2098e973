//! Why a run was refused, and the process status that reports it.

use vstd::prelude::*;

verus! {

/// Process status of a run that measured something.
pub const EXIT_SUCCESS: i32 = 0;

/// Process status for a thread count that is malformed or zero.
pub const EXIT_BAD_THREAD_COUNT: i32 = 1;

/// Process status for a malformed total.
pub const EXIT_BAD_SUM: i32 = 2;

/// Why a piece of text is not an unsigned decimal number.
#[derive(Clone, Copy, Debug, PartialEq, Eq, Structural)]
pub enum ParseFailure {
    /// The text has no characters at all.
    Empty,
    /// A character that is not a decimal digit was met, or a sign stands alone.
    InvalidDigit,
    /// The digits read so far denote a number above the largest admissible one.
    Overflow,
}

/// Why the counter harness refuses to run.
#[derive(Clone, Copy, Debug, PartialEq, Eq, Structural)]
pub enum HarnessError {
    /// The thread count is not an unsigned decimal number.
    MalformedThreadCount(ParseFailure),
    /// The total number of increments is not an unsigned decimal number.
    MalformedSum(ParseFailure),
    /// The thread count is zero, so the work cannot be divided.
    ZeroThreads,
}

impl HarnessError {
    /// The process status that reports this error.
    pub open spec fn status(self) -> i32 {
        match self {
            HarnessError::MalformedThreadCount(_) => EXIT_BAD_THREAD_COUNT,
            HarnessError::MalformedSum(_) => EXIT_BAD_SUM,
            HarnessError::ZeroThreads => EXIT_BAD_THREAD_COUNT,
        }
    }

    /// Returns the process status that reports this error. It is never the
    /// status of a successful run.
    #[verifier::when_used_as_spec(status)]
    pub fn exit_code(self) -> (code: i32)
        ensures
            code == self.status(),
            code != EXIT_SUCCESS,
    {
        match self {
            HarnessError::MalformedThreadCount(_) => EXIT_BAD_THREAD_COUNT,
            HarnessError::MalformedSum(_) => EXIT_BAD_SUM,
            HarnessError::ZeroThreads => EXIT_BAD_THREAD_COUNT,
        }
    }
}

} // verus!
