//! What can stop the scaffolding.

use vstd::prelude::*;
use vstd::string::StringExecFns;

verus! {

/// A failure that ends the run.
#[derive(Clone, Debug, PartialEq, Eq)]
pub enum InitError {
    /// The working directory is inside a version-controlled tree already.
    AlreadyGitDirectory,
    /// The directory has no final component to name the repository after.
    InvalidDir,
    /// An external program could not be started or did not exit with success.
    CommandFailed { program: String },
    /// A copy, removal, read or write failed.
    Filesystem { detail: String },
}

impl InitError {
    /// The line that is shown to the user for this failure.
    pub open spec fn message_of(self) -> Seq<char> {
        match self {
            InitError::AlreadyGitDirectory => "Already a git directory!"@,
            InitError::InvalidDir => "Invalid dir"@,
            InitError::CommandFailed { program } => "Command `"@ + program@ + "` failed"@,
            InitError::Filesystem { detail } => detail@,
        }
    }

    /// The line that is shown to the user for this failure.
    pub fn message(&self) -> (text: String)
        ensures
            text@ == self.message_of(),
    {
        match self {
            InitError::AlreadyGitDirectory => String::from_str("Already a git directory!"),
            InitError::InvalidDir => String::from_str("Invalid dir"),
            InitError::CommandFailed { program } => {
                let mut text = String::from_str("Command `");
                text.append(program.as_str());
                text.append("` failed");
                text
            },
            InitError::Filesystem { detail } => detail.clone(),
        }
    }
}

} // verus!
