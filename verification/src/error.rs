//! The ways in which an operation of this library can fail.

use crate::hash::ObjectKind;
use vstd::prelude::*;
use vstd::string::StringExecFns;

verus! {

/// Why an operation failed. The offending input is the caller's own
/// argument; `message` puts the two together for the user.
#[derive(Clone, Copy, Debug, PartialEq, Eq, Structural)]
pub enum RepoError {
    /// No object is stored under the hash.
    NotFound,
    /// A hash prefix matches no stored object.
    InvalidReference,
    /// A hash prefix matches more than one stored object.
    AmbiguousReference,
    /// A hash prefix names one object, of this kind, where a commit was
    /// asked for.
    NotACommit(ObjectKind),
    /// Neither the directory nor any directory above it holds a
    /// repository.
    NotARepository,
    /// A path cannot be made absolute, or cannot be expressed relative to
    /// the base it was to be compared with.
    PathConversion,
}

impl RepoError {
    /// What the user is told when `input` was refused for this reason.
    pub open spec fn spec_message(self, input: Seq<char>) -> Seq<char> {
        match self {
            RepoError::NotFound => "fatal: object not found: "@ + input,
            RepoError::InvalidReference => "fatal: invalid reference: "@ + input,
            RepoError::AmbiguousReference => "fatal: ambiguous argument: "@ + input,
            RepoError::NotACommit(kind) => "fatal: reference is not a commit: "@ + input + ", is "@
                + kind.spec_label(),
            RepoError::NotARepository => "fatal: not a libra repository (or any of the parent directories): "@
                + input,
            RepoError::PathConversion => "fatal: path cannot be converted: "@ + input,
        }
    }

    /// The message for this error about `input`.
    pub fn message(&self, input: &str) -> (text: String)
        ensures
            text@ == self.spec_message(input@),
    {
        match self {
            RepoError::NotFound => String::from_str("fatal: object not found: ").concat(input),
            RepoError::InvalidReference => String::from_str("fatal: invalid reference: ").concat(
                input,
            ),
            RepoError::AmbiguousReference => String::from_str("fatal: ambiguous argument: ").concat(
                input,
            ),
            RepoError::NotACommit(kind) => String::from_str(
                "fatal: reference is not a commit: ",
            ).concat(input).concat(", is ").concat(kind.label()),
            RepoError::NotARepository => String::from_str(
                "fatal: not a libra repository (or any of the parent directories): ",
            ).concat(input),
            RepoError::PathConversion => String::from_str("fatal: path cannot be converted: ").concat(
                input,
            ),
        }
    }
}

} // verus!
