//! Errors that abort a batch.

use vstd::prelude::*;

verus! {

/// An environment failure: it ends the whole run with a non-zero status.
/// Conversion failures of single files are never of this kind.
#[derive(Clone, Debug)]
pub enum FatalError {
    /// The input is a directory and the output an existing non-directory.
    DirectoryIntoFile,
    /// A file path without a final component.
    MissingFileName,
    /// A directory entry that does not lie under the tree's root.
    OutsideRoot,
    /// The source file could not be read; the cause as reported.
    Read(String),
    /// The destination file could not be written; the cause as reported.
    Write(String),
    /// A directory could not be listed; the cause as reported.
    List(String),
}

/// The message shown to the user for an error.
pub open spec fn message_of(e: FatalError) -> Seq<char> {
    match e {
        FatalError::DirectoryIntoFile => "Cannot output directory to file"@,
        FatalError::MissingFileName => "Error reading file name"@,
        FatalError::OutsideRoot => "Error stripping prefix"@,
        FatalError::Read(cause) => "Error reading input file: "@ + cause@,
        FatalError::Write(cause) => "Error writing output file: "@ + cause@,
        FatalError::List(cause) => "Error reading directory: "@ + cause@,
    }
}

impl FatalError {
    /// The message shown to the user.
    pub fn message(&self) -> (r: String)
        ensures
            r@ == message_of(*self),
    {
        match self {
            FatalError::DirectoryIntoFile => String::from_str("Cannot output directory to file"),
            FatalError::MissingFileName => String::from_str("Error reading file name"),
            FatalError::OutsideRoot => String::from_str("Error stripping prefix"),
            FatalError::Read(cause) => {
                let mut m = String::from_str("Error reading input file: ");
                m.append(cause.as_str());
                m
            },
            FatalError::Write(cause) => {
                let mut m = String::from_str("Error writing output file: ");
                m.append(cause.as_str());
                m
            },
            FatalError::List(cause) => {
                let mut m = String::from_str("Error reading directory: ");
                m.append(cause.as_str());
                m
            },
        }
    }
}

/// The process exit status for a run's result: zero on success, one when a
/// fatal error ended the run.
pub fn exit_code(result: &Result<(), FatalError>) -> (c: i32)
    ensures
        c == (if result is Ok { 0i32 } else { 1i32 }),
{
    match result {
        Ok(()) => 0,
        Err(_) => 1,
    }
}

} // verus!
