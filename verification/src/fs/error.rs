//! Why a filesystem operation failed.

use vstd::prelude::*;
use vstd::string::StringExecFns;

verus! {

/// A failed filesystem operation. Nothing is retried; the caller gets the
/// failure as it is, and `message` puts it in words.
#[derive(Debug, PartialEq, Eq)]
pub enum FsError {
    /// No filesystem has been set up yet.
    NotInitialized,
    /// A name along the path is not in its directory; this is the name.
    PathSegmentNotFound(String),
    /// The path goes on through a file.
    NotADirectory,
    /// The path ends at a directory where a file is asked for.
    NotAFile,
    /// The parent of what is to be written or created is a file.
    ParentNotADirectory,
    /// The path ends at a file where a directory is asked for.
    TargetNotADirectory,
}

/// An `FsError` with its name as a sequence of characters.
pub enum Failure {
    NotInitialized,
    PathSegmentNotFound(Seq<char>),
    NotADirectory,
    NotAFile,
    ParentNotADirectory,
    TargetNotADirectory,
}

impl Failure {
    /// The failure in words.
    pub open spec fn message(self) -> Seq<char> {
        match self {
            Failure::NotInitialized => "Filesystem not initialized"@,
            Failure::PathSegmentNotFound(name) => "Path not found: "@ + name,
            Failure::NotADirectory => "Not a directory"@,
            Failure::NotAFile => "Path is not a file"@,
            Failure::ParentNotADirectory => "Parent is not a directory"@,
            Failure::TargetNotADirectory => "Path is not a directory"@,
        }
    }
}

impl View for FsError {
    type V = Failure;

    open spec fn view(&self) -> Failure {
        match self {
            FsError::NotInitialized => Failure::NotInitialized,
            FsError::PathSegmentNotFound(name) => Failure::PathSegmentNotFound(name@),
            FsError::NotADirectory => Failure::NotADirectory,
            FsError::NotAFile => Failure::NotAFile,
            FsError::ParentNotADirectory => Failure::ParentNotADirectory,
            FsError::TargetNotADirectory => Failure::TargetNotADirectory,
        }
    }
}

impl FsError {
    /// The failure in words, as shown to the user.
    pub fn message(&self) -> (text: String)
        ensures
            text@ == self@.message(),
    {
        match self {
            FsError::NotInitialized => String::from_str("Filesystem not initialized"),
            FsError::PathSegmentNotFound(name) => String::from_str("Path not found: ").concat(
                name.as_str(),
            ),
            FsError::NotADirectory => String::from_str("Not a directory"),
            FsError::NotAFile => String::from_str("Path is not a file"),
            FsError::ParentNotADirectory => String::from_str("Parent is not a directory"),
            FsError::TargetNotADirectory => String::from_str("Path is not a directory"),
        }
    }
}

} // verus!
