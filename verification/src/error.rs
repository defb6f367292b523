//! The failures that end a changelog run.

use vstd::prelude::*;

verus! {

/// Why a changelog could not be produced.
#[derive(Clone, Copy, Debug, PartialEq, Eq, Structural)]
pub enum ChangelogError {
    /// A text that should have been a semantic version is none.
    InvalidVersion,
    /// The commit pattern is no regular expression that can be compiled.
    InvalidPattern,
    /// The ancestry of the branch tip holds no commit.
    MissingInitialCommit,
    /// A commit's timestamp lies outside the calendar.
    TimestampOutOfRange,
}

impl ChangelogError {
    /// A sentence that names the failure.
    pub fn message(&self) -> (text: &'static str)
        ensures
            text@ == match *self {
                ChangelogError::InvalidVersion => "Invalid semantic version"@,
                ChangelogError::InvalidPattern => "Invalid commit message pattern"@,
                ChangelogError::MissingInitialCommit => "Missing initial commit"@,
                ChangelogError::TimestampOutOfRange => "Commit timestamp out of range"@,
            },
    {
        match self {
            ChangelogError::InvalidVersion => "Invalid semantic version",
            ChangelogError::InvalidPattern => "Invalid commit message pattern",
            ChangelogError::MissingInitialCommit => "Missing initial commit",
            ChangelogError::TimestampOutOfRange => "Commit timestamp out of range",
        }
    }
}

} // verus!
