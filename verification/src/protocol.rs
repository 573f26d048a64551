//! What passes between an operation and whoever carries it out.
//!
//! An operation never touches the file system. It names one [`Request`] at a
//! time; the driver performs it and answers with a [`Response`]; the
//! operation then either names the next request or ends with an
//! [`Outcome`] or an [`Error`].

use vstd::prelude::*;
use crate::document::{Content, Document, DocumentKind};
use crate::error::Error;
use crate::listing::{entries_of, FileEntry, FileInfo};
use crate::machine::State;

verus! {

/// One thing an operation asks the driver to do.
#[derive(Debug, Clone, Copy, PartialEq, Eq)]
pub enum Request<'a> {
    /// Read the directory at `path`: for each entry in turn its name, its
    /// full path and whether it is a directory, or why that is not known.
    /// Answered with [`Response::Entries`].
    ReadDirectory { path: &'a String },
    /// Read the whole file at `path` as text. Answered with
    /// [`Response::Text`].
    ReadText { path: &'a String },
    /// Replace what the file at `path` holds with `content`, creating the
    /// file if there is none. Answered with [`Response::Completed`].
    Write { path: &'a String, content: &'a String },
    /// Tell whether anything exists at `path`. Answered with
    /// [`Response::Existence`].
    Exists { path: &'a String },
    /// Create the directory at `path` and every ancestor that is missing;
    /// a directory that is already there is no failure. Answered with
    /// [`Response::Completed`].
    CreateDirectories { path: &'a String },
    /// Remove the file at `path`. Answered with [`Response::Completed`].
    RemoveFile { path: &'a String },
    /// Move what is at `from` to `to`. Answered with
    /// [`Response::Completed`].
    Rename { from: &'a String, to: &'a String },
    /// Render `document` as indented JSON text. Answered with
    /// [`Response::Text`].
    Encode { document: &'a Document },
    /// Read `text` as the JSON form of a document of kind `kind`. Answered
    /// with [`Response::Document`].
    Decode { kind: DocumentKind, text: &'a String },
}

/// What came of a request. A failure carries its cause as text.
#[derive(Debug, PartialEq, Eq)]
pub enum Response {
    /// The entries of a directory in the order read, each with what was
    /// learnt of it or why nothing was; or why the directory could not be
    /// opened.
    Entries(Result<Vec<Result<FileInfo, String>>, String>),
    /// A text that was read or rendered.
    Text(Result<String, String>),
    /// A change that was made.
    Completed(Result<(), String>),
    /// Whether a path exists.
    Existence(bool),
    /// A document that was read from text.
    Document(Result<Document, String>),
}

/// What an operation that succeeded has to show.
#[derive(Debug, Clone, PartialEq, Eq)]
pub enum Outcome {
    /// A change was made; there is nothing to return.
    Done,
    /// Whether a path exists.
    Existence(bool),
    /// The text of a file.
    Text(String),
    /// The listing of a directory.
    Listing(Vec<FileInfo>),
    /// A loaded document.
    Document(Document),
}

/// An [`Outcome`] as a mathematical value.
pub enum Ending {
    Done,
    Existence(bool),
    Text(Seq<char>),
    Listing(Seq<FileEntry>),
    Document(Content),
}

impl View for Outcome {
    type V = Ending;

    open spec fn view(&self) -> Ending {
        match *self {
            Outcome::Done => Ending::Done,
            Outcome::Existence(exists) => Ending::Existence(exists),
            Outcome::Text(text) => Ending::Text(text@),
            Outcome::Listing(entries) => Ending::Listing(entries_of(entries@)),
            Outcome::Document(document) => Ending::Document(document@),
        }
    }
}

/// Where an operation stands: waiting for the answer to a request, or over.
#[derive(Debug, PartialEq, Eq)]
pub enum Progress {
    /// The operation waits for the answer to the request of this state.
    Continue(State),
    /// The operation is over.
    Finished(Result<Outcome, Error>),
}

/// A [`Progress`] as a mathematical value.
pub enum Next {
    Continue(State),
    Finished(Result<Ending, Error>),
}

impl View for Progress {
    type V = Next;

    open spec fn view(&self) -> Next {
        match *self {
            Progress::Continue(state) => Next::Continue(state),
            Progress::Finished(Ok(outcome)) => Next::Finished(Ok(outcome@)),
            Progress::Finished(Err(error)) => Next::Finished(Err(error)),
        }
    }
}

} // verus!
