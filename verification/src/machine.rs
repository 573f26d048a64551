//! The operations of the backend, each as a sequence of requests.
//!
//! An operation is started by the function that bears its name. While it is
//! not over it waits in a [`State`]; [`pending`] tells which request that
//! state waits for, and [`resume`] takes the answer and moves on.

use vstd::prelude::*;
use crate::document::{Content, Document, DocumentKind, Settings, UserTemplate};
use crate::error::Error;
use crate::listing::{directory_listing, list_directory};
use crate::paths::{get_settings_path, get_templates_path, parent, parent_of, DocumentLocation};
use crate::protocol::{Ending, Next, Outcome, Progress, Request, Response};
use crate::text::text_of;

verus! {

/// What an operation that is not over is waiting for.
#[derive(Debug, Clone, PartialEq, Eq)]
pub enum State {
    /// Listing a directory: its entries are being read.
    ListingDirectory { path: String },
    /// Reading a file: its text is being read.
    ReadingFile { path: String },
    /// The last step of every operation that writes: the file is being
    /// written.
    WritingFile { path: String, content: String },
    /// Creating a file: the directories above it are being created.
    CreatingParent { directory: String, path: String, content: String },
    /// Creating a file: it is being asked whether the path is taken.
    ProbingNewFile { path: String, content: String },
    /// Deleting a file: it is being removed.
    DeletingFile { path: String },
    /// Renaming a file: it is being asked whether the new path is taken.
    ProbingRenameTarget { from: String, to: String },
    /// Renaming a file: it is being moved.
    Renaming { from: String, to: String },
    /// Creating a directory.
    CreatingDirectory { path: String },
    /// Asking whether a path exists.
    ProbingPath { path: String },
    /// Loading a document: its folder is being created.
    PreparingLoad { kind: DocumentKind, location: DocumentLocation },
    /// Loading a document: it is being asked whether its file exists.
    ProbingDocument { kind: DocumentKind, file: String },
    /// Loading a document: its file is being read.
    ReadingDocument { kind: DocumentKind, file: String },
    /// Loading a document: its text is being read as JSON.
    DecodingDocument { kind: DocumentKind, text: String },
    /// Saving a document: its folder is being created.
    PreparingSave { document: Document, location: DocumentLocation },
    /// Saving a document: it is being rendered as JSON.
    EncodingDocument { document: Document, file: String },
}

/// The request that a state waits for the answer to.
pub open spec fn awaits<'a>(state: &'a State) -> Request<'a> {
    match state {
        State::ListingDirectory { path } => Request::ReadDirectory { path },
        State::ReadingFile { path } => Request::ReadText { path },
        State::WritingFile { path, content } => Request::Write { path, content },
        State::CreatingParent { directory, .. } => Request::CreateDirectories { path: directory },
        State::ProbingNewFile { path, .. } => Request::Exists { path },
        State::DeletingFile { path } => Request::RemoveFile { path },
        State::ProbingRenameTarget { to, .. } => Request::Exists { path: to },
        State::Renaming { from, to } => Request::Rename { from, to },
        State::CreatingDirectory { path } => Request::CreateDirectories { path },
        State::ProbingPath { path } => Request::Exists { path },
        State::PreparingLoad { location, .. } => Request::CreateDirectories {
            path: &location.directory,
        },
        State::ProbingDocument { file, .. } => Request::Exists { path: file },
        State::ReadingDocument { file, .. } => Request::ReadText { path: file },
        State::DecodingDocument { kind, text } => Request::Decode { kind: *kind, text },
        State::PreparingSave { location, .. } => Request::CreateDirectories {
            path: &location.directory,
        },
        State::EncodingDocument { document, .. } => Request::Encode { document },
    }
}

/// How an operation that waits in `state` goes on when `response` comes.
///
/// A response of another shape than the state waits for is passed over: the
/// operation stays where it is and waits on.
pub open spec fn after(state: State, response: Response) -> Next {
    match (state, response) {
        (State::ListingDirectory { .. }, Response::Entries(Ok(read))) => Next::Finished(
            match directory_listing(read@) {
                Ok(listed) => Ok(Ending::Listing(listed)),
                Err(error) => Err(error),
            },
        ),
        (State::ListingDirectory { .. }, Response::Entries(Err(cause))) => Next::Finished(
            Err(Error::DirectoryReadFailed(cause)),
        ),
        (State::ReadingFile { .. }, Response::Text(Ok(text))) => Next::Finished(
            Ok(Ending::Text(text@)),
        ),
        (State::ReadingFile { .. }, Response::Text(Err(cause))) => Next::Finished(
            Err(Error::ReadFailed(cause)),
        ),
        (State::WritingFile { .. }, Response::Completed(Ok(_))) => Next::Finished(Ok(Ending::Done)),
        (State::WritingFile { .. }, Response::Completed(Err(cause))) => Next::Finished(
            Err(Error::WriteFailed(cause)),
        ),
        (State::CreatingParent { path, content, .. }, Response::Completed(Ok(_))) => Next::Continue(
            State::ProbingNewFile { path, content },
        ),
        (State::CreatingParent { .. }, Response::Completed(Err(cause))) => Next::Finished(
            Err(Error::WriteFailed(cause)),
        ),
        (State::ProbingNewFile { path, content }, Response::Existence(taken)) => if taken {
            Next::Finished(Err(Error::AlreadyExists))
        } else {
            Next::Continue(State::WritingFile { path, content })
        },
        (State::DeletingFile { .. }, Response::Completed(Ok(_))) => Next::Finished(
            Ok(Ending::Done),
        ),
        (State::DeletingFile { .. }, Response::Completed(Err(cause))) => Next::Finished(
            Err(Error::DeleteFailed(cause)),
        ),
        (State::ProbingRenameTarget { from, to }, Response::Existence(taken)) => if taken {
            Next::Finished(Err(Error::AlreadyExists))
        } else {
            Next::Continue(State::Renaming { from, to })
        },
        (State::Renaming { .. }, Response::Completed(Ok(_))) => Next::Finished(Ok(Ending::Done)),
        (State::Renaming { .. }, Response::Completed(Err(cause))) => Next::Finished(
            Err(Error::RenameFailed(cause)),
        ),
        (State::CreatingDirectory { .. }, Response::Completed(Ok(_))) => Next::Finished(
            Ok(Ending::Done),
        ),
        (State::CreatingDirectory { .. }, Response::Completed(Err(cause))) => Next::Finished(
            Err(Error::CreateDirectoryFailed(cause)),
        ),
        (State::ProbingPath { .. }, Response::Existence(exists)) => Next::Finished(
            Ok(Ending::Existence(exists)),
        ),
        (State::PreparingLoad { kind, location }, Response::Completed(Ok(_))) => Next::Continue(
            State::ProbingDocument { kind, file: location.file },
        ),
        (State::PreparingLoad { .. }, Response::Completed(Err(cause))) => Next::Finished(
            Err(Error::DirectoryCreateFailed(cause)),
        ),
        (State::ProbingDocument { kind, file }, Response::Existence(exists)) => if exists {
            Next::Continue(State::ReadingDocument { kind, file })
        } else {
            Next::Finished(Ok(Ending::Document(Content::blank(kind))))
        },
        (State::ReadingDocument { kind, .. }, Response::Text(Ok(text))) => Next::Continue(
            State::DecodingDocument { kind, text },
        ),
        (State::ReadingDocument { .. }, Response::Text(Err(cause))) => Next::Finished(
            Err(Error::ReadFailed(cause)),
        ),
        (State::DecodingDocument { kind, .. }, Response::Document(Ok(document))) => if document.kind()
            == kind {
            Next::Finished(Ok(Ending::Document(document@)))
        } else {
            Next::Continue(state)
        },
        (State::DecodingDocument { .. }, Response::Document(Err(cause))) => Next::Finished(
            Err(Error::ParseFailed(cause)),
        ),
        (State::PreparingSave { document, location }, Response::Completed(Ok(_))) => Next::Continue(
            State::EncodingDocument { document, file: location.file },
        ),
        (State::PreparingSave { .. }, Response::Completed(Err(cause))) => Next::Finished(
            Err(Error::DirectoryCreateFailed(cause)),
        ),
        (State::EncodingDocument { file, .. }, Response::Text(Ok(text))) => Next::Continue(
            State::WritingFile { path: file, content: text },
        ),
        (State::EncodingDocument { .. }, Response::Text(Err(cause))) => Next::Finished(
            Err(Error::SerializeFailed(cause)),
        ),
        _ => Next::Continue(state),
    }
}

/// Tells which request a state waits for the answer to.
pub fn pending<'a>(state: &'a State) -> (request: Request<'a>)
    ensures
        request == awaits(state),
{
    match state {
        State::ListingDirectory { path } => Request::ReadDirectory { path },
        State::ReadingFile { path } => Request::ReadText { path },
        State::WritingFile { path, content } => Request::Write { path, content },
        State::CreatingParent { directory, .. } => Request::CreateDirectories { path: directory },
        State::ProbingNewFile { path, .. } => Request::Exists { path },
        State::DeletingFile { path } => Request::RemoveFile { path },
        State::ProbingRenameTarget { to, .. } => Request::Exists { path: to },
        State::Renaming { from, to } => Request::Rename { from, to },
        State::CreatingDirectory { path } => Request::CreateDirectories { path },
        State::ProbingPath { path } => Request::Exists { path },
        State::PreparingLoad { location, .. } => Request::CreateDirectories {
            path: &location.directory,
        },
        State::ProbingDocument { file, .. } => Request::Exists { path: file },
        State::ReadingDocument { file, .. } => Request::ReadText { path: file },
        State::DecodingDocument { kind, text } => Request::Decode { kind: *kind, text },
        State::PreparingSave { location, .. } => Request::CreateDirectories {
            path: &location.directory,
        },
        State::EncodingDocument { document, .. } => Request::Encode { document },
    }
}

/// Takes the answer to the pending request and moves the operation on.
pub fn resume(state: State, response: Response) -> (progress: Progress)
    ensures
        progress@ == after(state, response),
{
    match state {
        State::ListingDirectory { path } => match response {
            Response::Entries(Ok(read)) => match list_directory(read) {
                Ok(listed) => Progress::Finished(Ok(Outcome::Listing(listed))),
                Err(error) => Progress::Finished(Err(error)),
            },
            Response::Entries(Err(cause)) => Progress::Finished(
                Err(Error::DirectoryReadFailed(cause)),
            ),
            _ => Progress::Continue(State::ListingDirectory { path }),
        },
        State::ReadingFile { path } => match response {
            Response::Text(Ok(text)) => Progress::Finished(Ok(Outcome::Text(text))),
            Response::Text(Err(cause)) => Progress::Finished(Err(Error::ReadFailed(cause))),
            _ => Progress::Continue(State::ReadingFile { path }),
        },
        State::WritingFile { path, content } => match response {
            Response::Completed(Ok(_)) => Progress::Finished(Ok(Outcome::Done)),
            Response::Completed(Err(cause)) => Progress::Finished(Err(Error::WriteFailed(cause))),
            _ => Progress::Continue(State::WritingFile { path, content }),
        },
        State::CreatingParent { directory, path, content } => match response {
            Response::Completed(Ok(_)) => Progress::Continue(
                State::ProbingNewFile { path, content },
            ),
            Response::Completed(Err(cause)) => Progress::Finished(Err(Error::WriteFailed(cause))),
            _ => Progress::Continue(State::CreatingParent { directory, path, content }),
        },
        State::ProbingNewFile { path, content } => match response {
            Response::Existence(true) => Progress::Finished(Err(Error::AlreadyExists)),
            Response::Existence(false) => Progress::Continue(State::WritingFile { path, content }),
            _ => Progress::Continue(State::ProbingNewFile { path, content }),
        },
        State::DeletingFile { path } => match response {
            Response::Completed(Ok(_)) => Progress::Finished(Ok(Outcome::Done)),
            Response::Completed(Err(cause)) => Progress::Finished(Err(Error::DeleteFailed(cause))),
            _ => Progress::Continue(State::DeletingFile { path }),
        },
        State::ProbingRenameTarget { from, to } => match response {
            Response::Existence(true) => Progress::Finished(Err(Error::AlreadyExists)),
            Response::Existence(false) => Progress::Continue(State::Renaming { from, to }),
            _ => Progress::Continue(State::ProbingRenameTarget { from, to }),
        },
        State::Renaming { from, to } => match response {
            Response::Completed(Ok(_)) => Progress::Finished(Ok(Outcome::Done)),
            Response::Completed(Err(cause)) => Progress::Finished(Err(Error::RenameFailed(cause))),
            _ => Progress::Continue(State::Renaming { from, to }),
        },
        State::CreatingDirectory { path } => match response {
            Response::Completed(Ok(_)) => Progress::Finished(Ok(Outcome::Done)),
            Response::Completed(Err(cause)) => Progress::Finished(
                Err(Error::CreateDirectoryFailed(cause)),
            ),
            _ => Progress::Continue(State::CreatingDirectory { path }),
        },
        State::ProbingPath { path } => match response {
            Response::Existence(exists) => Progress::Finished(Ok(Outcome::Existence(exists))),
            _ => Progress::Continue(State::ProbingPath { path }),
        },
        State::PreparingLoad { kind, location } => match response {
            Response::Completed(Ok(_)) => Progress::Continue(
                State::ProbingDocument { kind, file: location.file },
            ),
            Response::Completed(Err(cause)) => Progress::Finished(
                Err(Error::DirectoryCreateFailed(cause)),
            ),
            _ => Progress::Continue(State::PreparingLoad { kind, location }),
        },
        State::ProbingDocument { kind, file } => match response {
            Response::Existence(true) => Progress::Continue(State::ReadingDocument { kind, file }),
            Response::Existence(false) => Progress::Finished(
                Ok(Outcome::Document(Document::blank(kind))),
            ),
            _ => Progress::Continue(State::ProbingDocument { kind, file }),
        },
        State::ReadingDocument { kind, file } => match response {
            Response::Text(Ok(text)) => Progress::Continue(State::DecodingDocument { kind, text }),
            Response::Text(Err(cause)) => Progress::Finished(Err(Error::ReadFailed(cause))),
            _ => Progress::Continue(State::ReadingDocument { kind, file }),
        },
        State::DecodingDocument { kind, text } => match response {
            Response::Document(Ok(document)) => {
                if same_kind(document.kind_of(), kind) {
                    Progress::Finished(Ok(Outcome::Document(document)))
                } else {
                    Progress::Continue(State::DecodingDocument { kind, text })
                }
            },
            Response::Document(Err(cause)) => Progress::Finished(Err(Error::ParseFailed(cause))),
            _ => Progress::Continue(State::DecodingDocument { kind, text }),
        },
        State::PreparingSave { document, location } => match response {
            Response::Completed(Ok(_)) => Progress::Continue(
                State::EncodingDocument { document, file: location.file },
            ),
            Response::Completed(Err(cause)) => Progress::Finished(
                Err(Error::DirectoryCreateFailed(cause)),
            ),
            _ => Progress::Continue(State::PreparingSave { document, location }),
        },
        State::EncodingDocument { document, file } => match response {
            Response::Text(Ok(text)) => Progress::Continue(
                State::WritingFile { path: file, content: text },
            ),
            Response::Text(Err(cause)) => Progress::Finished(Err(Error::SerializeFailed(cause))),
            _ => Progress::Continue(State::EncodingDocument { document, file }),
        },
    }
}

/// Decides whether two kinds of document are the same.
fn same_kind(a: DocumentKind, b: DocumentKind) -> (same: bool)
    ensures
        same == (a == b),
{
    match (a, b) {
        (DocumentKind::Settings, DocumentKind::Settings) => true,
        (DocumentKind::Templates, DocumentKind::Templates) => true,
        _ => false,
    }
}

/// Starts listing the directory at `path`.
pub fn read_directory(path: String) -> (progress: Progress)
    ensures
        progress@ == (Next::Continue(State::ListingDirectory { path })),
{
    Progress::Continue(State::ListingDirectory { path })
}

/// Starts reading the file at `path` as text.
pub fn read_file(path: String) -> (progress: Progress)
    ensures
        progress@ == (Next::Continue(State::ReadingFile { path })),
{
    Progress::Continue(State::ReadingFile { path })
}

/// Starts writing `content` to the file at `path`, whether or not the file
/// is there already.
pub fn write_file(path: String, content: String) -> (progress: Progress)
    ensures
        progress@ == (Next::Continue(State::WritingFile { path, content })),
{
    Progress::Continue(State::WritingFile { path, content })
}

/// How creating a file starts, given the directory above it if it has one:
/// with that directory, else with the question whether the path is taken.
pub open spec fn create_file_start(
    directory: Option<String>,
    path: String,
    content: String,
) -> Next {
    match directory {
        Some(directory) => Next::Continue(State::CreatingParent { directory, path, content }),
        None => Next::Continue(State::ProbingNewFile { path, content }),
    }
}

/// Starts creating the file at `path` with `content`, given the directory
/// above it if it has one.
pub fn create_file_under(directory: Option<String>, path: String, content: String) -> (progress:
    Progress)
    ensures
        progress@ == create_file_start(directory, path, content),
{
    match directory {
        Some(directory) => Progress::Continue(State::CreatingParent { directory, path, content }),
        None => Progress::Continue(State::ProbingNewFile { path, content }),
    }
}

/// Starts creating the file at `path` with `content`. The directories above
/// it are created first; a path that is taken is left as it is.
pub fn create_file(path: String, content: String) -> (progress: Progress)
    ensures
        exists|directory: Option<String>|
            text_of(directory) == parent(path@) && progress@ == create_file_start(
                directory,
                path,
                content,
            ),
{
    let directory = parent_of(path.as_str());
    let ghost found = directory;
    let progress = create_file_under(directory, path, content);
    assert(text_of(found) == parent(path@) && progress@ == create_file_start(found, path, content));
    progress
}

/// Starts removing the file at `path`.
pub fn delete_file(path: String) -> (progress: Progress)
    ensures
        progress@ == (Next::Continue(State::DeletingFile { path })),
{
    Progress::Continue(State::DeletingFile { path })
}

/// Starts renaming `old_path` to `new_path`. A new path that is taken is
/// left as it is.
pub fn rename_file(old_path: String, new_path: String) -> (progress: Progress)
    ensures
        progress@ == (Next::Continue(State::ProbingRenameTarget { from: old_path, to: new_path })),
{
    Progress::Continue(State::ProbingRenameTarget { from: old_path, to: new_path })
}

/// Starts creating the directory at `path` with every missing ancestor.
pub fn create_directory(path: String) -> (progress: Progress)
    ensures
        progress@ == (Next::Continue(State::CreatingDirectory { path })),
{
    Progress::Continue(State::CreatingDirectory { path })
}

/// Starts asking whether anything exists at `path`.
pub fn path_exists(path: String) -> (progress: Progress)
    ensures
        progress@ == (Next::Continue(State::ProbingPath { path })),
{
    Progress::Continue(State::ProbingPath { path })
}

/// How loading a document starts, given its place or why it has none.
pub open spec fn load_start(kind: DocumentKind, place: Result<DocumentLocation, Error>) -> Next {
    match place {
        Ok(location) => Next::Continue(State::PreparingLoad { kind, location }),
        Err(error) => Next::Finished(Err(error)),
    }
}

/// How saving a document starts, given its place or why it has none.
pub open spec fn save_start(document: Document, place: Result<DocumentLocation, Error>) -> Next {
    match place {
        Ok(location) => Next::Continue(State::PreparingSave { document, location }),
        Err(error) => Next::Finished(Err(error)),
    }
}

/// Starts loading the document of kind `kind` from `place`.
pub fn load_document(kind: DocumentKind, place: Result<DocumentLocation, Error>) -> (progress:
    Progress)
    ensures
        progress@ == load_start(kind, place),
{
    match place {
        Ok(location) => Progress::Continue(State::PreparingLoad { kind, location }),
        Err(error) => Progress::Finished(Err(error)),
    }
}

/// Starts saving `document` to `place`.
pub fn save_document(document: Document, place: Result<DocumentLocation, Error>) -> (progress:
    Progress)
    ensures
        progress@ == save_start(document, place),
{
    match place {
        Ok(location) => Progress::Continue(State::PreparingSave { document, location }),
        Err(error) => Progress::Finished(Err(error)),
    }
}

/// Whether `place` is where the document of kind `kind` lives under some
/// data root, or the failure to name a data root.
pub open spec fn is_place_of(kind: DocumentKind, place: Result<DocumentLocation, Error>) -> bool {
    match place {
        Ok(location) => exists|root: Seq<char>| location.is_for(root, kind),
        Err(error) => error == Error::DirectoryUnavailable,
    }
}

/// Starts loading the settings of this machine's user.
pub fn get_settings() -> (progress: Progress)
    ensures
        exists|place: Result<DocumentLocation, Error>|
            is_place_of(DocumentKind::Settings, place) && progress@ == load_start(
                DocumentKind::Settings,
                place,
            ),
{
    let place = get_settings_path();
    let ghost found = place;
    let progress = load_document(DocumentKind::Settings, place);
    assert(is_place_of(DocumentKind::Settings, found) && progress@ == load_start(
        DocumentKind::Settings,
        found,
    ));
    progress
}

/// Starts saving the settings of this machine's user.
pub fn save_settings(settings: Settings) -> (progress: Progress)
    ensures
        exists|place: Result<DocumentLocation, Error>|
            is_place_of(DocumentKind::Settings, place) && progress@ == save_start(
                Document::Settings(settings),
                place,
            ),
{
    let place = get_settings_path();
    let ghost found = place;
    let progress = save_document(Document::Settings(settings), place);
    assert(is_place_of(DocumentKind::Settings, found) && progress@ == save_start(
        Document::Settings(settings),
        found,
    ));
    progress
}

/// Starts loading the templates of this machine's user.
pub fn get_templates() -> (progress: Progress)
    ensures
        exists|place: Result<DocumentLocation, Error>|
            is_place_of(DocumentKind::Templates, place) && progress@ == load_start(
                DocumentKind::Templates,
                place,
            ),
{
    let place = get_templates_path();
    let ghost found = place;
    let progress = load_document(DocumentKind::Templates, place);
    assert(is_place_of(DocumentKind::Templates, found) && progress@ == load_start(
        DocumentKind::Templates,
        found,
    ));
    progress
}

/// Starts saving the templates of this machine's user, all of them at once.
pub fn save_templates(templates: Vec<UserTemplate>) -> (progress: Progress)
    ensures
        exists|place: Result<DocumentLocation, Error>|
            is_place_of(DocumentKind::Templates, place) && progress@ == save_start(
                Document::Templates(templates),
                place,
            ),
{
    let place = get_templates_path();
    let ghost found = place;
    let progress = save_document(Document::Templates(templates), place);
    assert(is_place_of(DocumentKind::Templates, found) && progress@ == save_start(
        Document::Templates(templates),
        found,
    ));
    progress
}

} // verus!
