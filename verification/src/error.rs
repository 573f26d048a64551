//! The closed set of failures an operation can end with.

use vstd::prelude::*;
use vstd::string::*;

verus! {

/// Why an operation failed.
///
/// A variant that wraps a string carries the underlying cause as reported by
/// whoever performed the failed step.
#[derive(Debug, Clone, PartialEq, Eq)]
pub enum Error {
    /// The platform names no per-user data root.
    DirectoryUnavailable,
    /// The application data directory could not be created.
    DirectoryCreateFailed(String),
    /// The directory to list could not be opened.
    DirectoryReadFailed(String),
    /// One entry of the directory being listed could not be inspected.
    EntryReadFailed(String),
    /// A file could not be read as text.
    ReadFailed(String),
    /// A file could not be written.
    WriteFailed(String),
    /// The path that was to be created, or renamed to, is already taken.
    AlreadyExists,
    /// A file could not be removed.
    DeleteFailed(String),
    /// A file could not be renamed.
    RenameFailed(String),
    /// A directory could not be created.
    CreateDirectoryFailed(String),
    /// A stored document is not valid for its type.
    ParseFailed(String),
    /// A document could not be turned into text.
    SerializeFailed(String),
}

impl Error {
    /// The fixed text that names this kind of failure.
    pub open spec fn label(self) -> Seq<char> {
        match self {
            Error::DirectoryUnavailable => "application data directory is unavailable"@,
            Error::DirectoryCreateFailed(_) => "failed to create application data directory"@,
            Error::DirectoryReadFailed(_) => "failed to read directory"@,
            Error::EntryReadFailed(_) => "failed to read directory entry"@,
            Error::ReadFailed(_) => "failed to read file"@,
            Error::WriteFailed(_) => "failed to write file"@,
            Error::AlreadyExists => "file already exists"@,
            Error::DeleteFailed(_) => "failed to delete file"@,
            Error::RenameFailed(_) => "failed to rename file"@,
            Error::CreateDirectoryFailed(_) => "failed to create directory"@,
            Error::ParseFailed(_) => "failed to parse document"@,
            Error::SerializeFailed(_) => "failed to serialize document"@,
        }
    }

    /// The underlying cause, where this kind of failure carries one.
    pub open spec fn detail(self) -> Option<Seq<char>> {
        match self {
            Error::DirectoryUnavailable | Error::AlreadyExists => None,
            Error::DirectoryCreateFailed(d)
            | Error::DirectoryReadFailed(d)
            | Error::EntryReadFailed(d)
            | Error::ReadFailed(d)
            | Error::WriteFailed(d)
            | Error::DeleteFailed(d)
            | Error::RenameFailed(d)
            | Error::CreateDirectoryFailed(d)
            | Error::ParseFailed(d)
            | Error::SerializeFailed(d) => Some(d@),
        }
    }

    /// The text of [`Error::message`]: the label, followed by a colon, a
    /// space and the cause where there is one.
    pub open spec fn rendered(self) -> Seq<char> {
        match self.detail() {
            None => self.label(),
            Some(d) => self.label() + ": "@ + d,
        }
    }

    /// The message shown to the person using the editor.
    pub fn message(&self) -> (text: String)
        ensures
            text@ == self.rendered(),
    {
        match self {
            Error::DirectoryUnavailable => String::from_str(
                "application data directory is unavailable",
            ),
            Error::AlreadyExists => String::from_str("file already exists"),
            Error::DirectoryCreateFailed(d) => with_cause(
                "failed to create application data directory",
                d,
            ),
            Error::DirectoryReadFailed(d) => with_cause("failed to read directory", d),
            Error::EntryReadFailed(d) => with_cause("failed to read directory entry", d),
            Error::ReadFailed(d) => with_cause("failed to read file", d),
            Error::WriteFailed(d) => with_cause("failed to write file", d),
            Error::DeleteFailed(d) => with_cause("failed to delete file", d),
            Error::RenameFailed(d) => with_cause("failed to rename file", d),
            Error::CreateDirectoryFailed(d) => with_cause("failed to create directory", d),
            Error::ParseFailed(d) => with_cause("failed to parse document", d),
            Error::SerializeFailed(d) => with_cause("failed to serialize document", d),
        }
    }
}

/// Joins a label and a cause with a colon and a space.
fn with_cause(label: &str, cause: &String) -> (text: String)
    ensures
        text@ == label@ + ": "@ + cause@,
{
    let mut text = String::from_str(label);
    text.append(": ");
    text.append(cause.as_str());
    text
}

} // verus!
