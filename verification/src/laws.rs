//! What holds of whole runs of the operations.
//!
//! A run is an operation's start together with the answers it was given, in
//! the order given. [`run`] tells where the operation stands after them, and
//! [`asked`] which requests it made to get them.

use vstd::prelude::*;
use crate::document::{Content, Document, DocumentKind};
use crate::error::Error;
use crate::listing::{
    inspected, is_hidden, is_shown, lemma_listing_ordered, lemma_listing_shows, ordered,
    FileEntry, FileInfo,
};
use crate::machine::{after, awaits, create_file_start, State};
use crate::paths::DocumentLocation;
use crate::protocol::{Ending, Next, Request, Response};

verus! {

/// Where an operation stands once one more answer has come. Nothing moves an
/// operation that is over.
pub open spec fn advance(next: Next, response: Response) -> Next {
    match next {
        Next::Continue(state) => after(state, response),
        Next::Finished(_) => next,
    }
}

/// Where an operation that started as `start` stands after `responses`.
pub open spec fn run(start: Next, responses: Seq<Response>) -> Next
    decreases responses.len(),
{
    if responses.len() == 0 {
        start
    } else {
        advance(run(start, responses.drop_last()), responses.last())
    }
}

/// The requests that an operation which started as `start` made to be given
/// `responses`: the `k`-th of them is the one that the `k`-th response
/// answered. Responses that came after the operation was over answered
/// nothing.
pub open spec fn asked(start: Next, responses: Seq<Response>) -> Seq<Request<'static>>
    decreases responses.len(),
{
    if responses.len() == 0 {
        Seq::empty()
    } else {
        let earlier = asked(start, responses.drop_last());
        match run(start, responses.drop_last()) {
            Next::Continue(state) => earlier.push(awaits(&state)),
            Next::Finished(_) => earlier,
        }
    }
}

/// One more answer moves the run on by one step.
pub proof fn lemma_run_push(start: Next, responses: Seq<Response>, response: Response)
    ensures
        run(start, responses.push(response)) == advance(run(start, responses), response),
        asked(start, responses.push(response)) == (match run(start, responses) {
            Next::Continue(state) => asked(start, responses).push(awaits(&state)),
            Next::Finished(_) => asked(start, responses),
        }),
{
    assert(responses.push(response).drop_last() =~= responses);
}

/// No request is made without being answered, and an operation that is not
/// over has made one request for each answer.
pub proof fn lemma_asked_len(start: Next, responses: Seq<Response>)
    ensures
        asked(start, responses).len() <= responses.len(),
        run(start, responses) is Continue ==> start is Continue && asked(start, responses).len()
            == responses.len(),
    decreases responses.len(),
{
    if responses.len() > 0 {
        lemma_asked_len(start, responses.drop_last());
    }
}

/// Reading a directory ends in one of two ways. Where every entry could be
/// inspected it ends in a listing: directories stand before files, names
/// within one kind are in case-insensitive order, no hidden entry is in it
/// and every other entry is, as often as it was read. Where some entry could
/// not be inspected it fails, with the cause given for the first such entry.
pub proof fn lemma_directory_is_listed_in_order(path: String, read: Vec<Result<FileInfo, String>>)
    ensures
        (match after(State::ListingDirectory { path }, Response::Entries(Ok(read))) {
            Next::Finished(Ok(Ending::Listing(listed))) => {
                &&& forall|i: int| 0 <= i < read@.len() ==> read@[i] is Ok
                &&& ordered(listed)
                &&& forall|i: int| 0 <= i < listed.len() ==> !is_hidden(listed[i].name)
                &&& listed.to_multiset() == inspected(read@).filter(
                    |e: FileEntry| is_shown(e),
                ).to_multiset()
            },
            Next::Finished(Err(Error::EntryReadFailed(cause))) => exists|i: int|
                0 <= i < read@.len() && read@[i] == Err::<FileInfo, String>(cause) && forall|j: int|
                    0 <= j < i ==> read@[j] is Ok,
            _ => false,
        }),
{
    if forall|i: int| 0 <= i < read@.len() ==> read@[i] is Ok {
        lemma_listing_ordered(inspected(read@));
        lemma_listing_shows(inspected(read@));
    } else {
        let bad = choose|i: int| 0 <= i < read@.len() && !(read@[i] is Ok);
        lemma_first_failure(read@, bad);
    }
}

/// Where some entry could not be inspected, there is a first such entry.
proof fn lemma_first_failure(read: Seq<Result<FileInfo, String>>, bad: int)
    requires
        0 <= bad < read.len(),
        read[bad] is Err,
    ensures
        exists|i: int|
            0 <= i < read.len() && read[i] is Err && forall|j: int| 0 <= j < i ==> read[j] is Ok,
    decreases bad,
{
    if exists|k: int| 0 <= k < bad && read[k] is Err {
        let k = choose|k: int| 0 <= k < bad && read[k] is Err;
        lemma_first_failure(read, k);
    }
}

/// Loading a document whose file does not exist ends, without failure, in the
/// blank document of its kind: settings with every field absent, or no
/// templates.
pub proof fn lemma_load_of_missing_file_is_blank(kind: DocumentKind, location: DocumentLocation)
    ensures
        run(
            Next::Continue(State::PreparingLoad { kind, location }),
            seq![Response::Completed(Ok(())), Response::Existence(false)],
        ) == Next::Finished(Ok(Ending::Document(Content::blank(kind)))),
        Content::blank(kind).is_blank(),
        Content::blank(kind).kind() == kind,
        asked(
            Next::Continue(State::PreparingLoad { kind, location }),
            seq![Response::Completed(Ok(())), Response::Existence(false)],
        ) == seq![
            Request::CreateDirectories { path: &location.directory },
            Request::Exists { path: &location.file },
        ],
{
    let start = Next::Continue(State::PreparingLoad { kind, location });
    let first = Response::Completed(Ok(()));
    let second = Response::Existence(false);
    lemma_run_push(start, Seq::empty(), first);
    lemma_run_push(start, seq![first], second);
    assert(Seq::<Response>::empty().push(first) =~= seq![first]);
    assert(seq![first].push(second) =~= seq![first, second]);
    assert(asked(start, seq![first, second]) =~= seq![
        Request::CreateDirectories { path: &location.directory },
        Request::Exists { path: &location.file },
    ]);
}

/// Whether, among the first `before` requests, it was asked if anything
/// exists at `path` and answered that nothing does.
pub open spec fn found_free(
    requests: Seq<Request<'static>>,
    responses: Seq<Response>,
    path: String,
    before: int,
) -> bool {
    exists|j: int|
        0 <= j < before && j < requests.len() && j < responses.len() && #[trigger] requests[j] == (
        Request::Exists { path: &path }) && responses[j] == Response::Existence(false)
}

/// Whether `requests`, answered by `responses`, are what creating the file
/// at `path` with `content` may ask for: the directory above the file, the
/// question whether the path is taken, and the write of `content` to `path`,
/// the last only once the question was answered with no.
pub open spec fn creates_with_care(
    requests: Seq<Request<'static>>,
    responses: Seq<Response>,
    directory: Option<String>,
    path: String,
    content: String,
) -> bool {
    forall|k: int|
        0 <= k < requests.len() ==> match #[trigger] requests[k] {
            Request::CreateDirectories { path: made } => directory == Some(*made),
            Request::Exists { path: probed } => *probed == path,
            Request::Write { path: written, content: text } => {
                &&& *written == path
                &&& *text == content
                &&& found_free(requests, responses, path, k)
            },
            _ => false,
        }
}

/// Whether `requests`, answered by `responses`, are what renaming `from` to
/// `to` may ask for: the question whether `to` is taken, and the move, the
/// last only once the question was answered with no.
pub open spec fn renames_with_care(
    requests: Seq<Request<'static>>,
    responses: Seq<Response>,
    from: String,
    to: String,
) -> bool {
    forall|k: int|
        0 <= k < requests.len() ==> match #[trigger] requests[k] {
            Request::Exists { path: probed } => *probed == to,
            Request::Rename { from: source, to: target } => {
                &&& *source == from
                &&& *target == to
                &&& found_free(requests, responses, to, k)
            },
            _ => false,
        }
}

/// What holds of a run of creating a file, whatever the answers.
spec fn create_invariant(
    directory: Option<String>,
    path: String,
    content: String,
    responses: Seq<Response>,
) -> bool {
    let start = create_file_start(directory, path, content);
    let requests = asked(start, responses);
    &&& creates_with_care(requests, responses, directory, path, content)
    &&& match run(start, responses) {
        Next::Continue(State::CreatingParent { directory: d, path: p, content: c }) => directory
            == Some(d) && p == path && c == content,
        Next::Continue(State::ProbingNewFile { path: p, content: c }) => p == path && c == content,
        Next::Continue(State::WritingFile { path: p, content: c }) => p == path && c == content
            && found_free(requests, responses, path, requests.len() as int),
        Next::Continue(_) => false,
        Next::Finished(_) => true,
    }
}

proof fn lemma_create_invariant(
    directory: Option<String>,
    path: String,
    content: String,
    responses: Seq<Response>,
)
    ensures
        create_invariant(directory, path, content, responses),
    decreases responses.len(),
{
    let start = create_file_start(directory, path, content);
    if responses.len() > 0 {
        let earlier = responses.drop_last();
        let before = asked(start, earlier);
        let now = asked(start, responses);
        lemma_create_invariant(directory, path, content, earlier);
        lemma_asked_len(start, earlier);
        assert forall|k: int| 0 <= k < now.len() implies match #[trigger] now[k] {
            Request::CreateDirectories { path: made } => directory == Some(*made),
            Request::Exists { path: probed } => *probed == path,
            Request::Write { path: written, content: text } => {
                &&& *written == path
                &&& *text == content
                &&& found_free(now, responses, path, k)
            },
            _ => false,
        } by {
            if k < before.len() {
                assert(now[k] == before[k]);
                if before[k] is Write {
                    assert(found_free(before, earlier, path, k));
                    let j = choose|j: int|
                        0 <= j < k && j < before.len() && j < earlier.len() && #[trigger] before[j]
                            == (Request::Exists { path: &path }) && earlier[j]
                            == Response::Existence(false);
                    assert(now[j] == before[j] && responses[j] == earlier[j]);
                }
            } else {
                if now[k] is Write {
                    let j = choose|j: int|
                        0 <= j < before.len() && j < earlier.len() && #[trigger] before[j] == (
                        Request::Exists { path: &path }) && earlier[j] == Response::Existence(
                            false,
                        );
                    assert(now[j] == before[j] && responses[j] == earlier[j]);
                }
            }
        }
        if let Next::Continue(State::WritingFile { .. }) = run(start, responses) {
            match run(start, earlier) {
                Next::Continue(State::ProbingNewFile { .. }) => {
                    let j = before.len() as int;
                    assert(now[j] == (Request::Exists { path: &path }));
                    assert(responses[j] == Response::Existence(false));
                },
                _ => {
                    let j = choose|j: int|
                        0 <= j < before.len() && j < earlier.len() && #[trigger] before[j] == (
                        Request::Exists { path: &path }) && earlier[j] == Response::Existence(
                            false,
                        );
                    assert(now[j] == before[j] && responses[j] == earlier[j]);
                },
            }
        }
    }
}

/// Creating a file never overwrites: whatever answers it is given, it asks
/// for nothing but the directory above the file, whether the path is taken,
/// and the write of the given content to the given path, and for the write
/// only after it was told that the path is free.
pub proof fn lemma_create_never_overwrites(
    directory: Option<String>,
    path: String,
    content: String,
    responses: Seq<Response>,
)
    ensures
        creates_with_care(
            asked(create_file_start(directory, path, content), responses),
            responses,
            directory,
            path,
            content,
        ),
{
    lemma_create_invariant(directory, path, content, responses);
}

/// The answers that creating a file is given when everything above the path
/// is in order and the question whether the path is taken is answered with
/// `taken`.
pub open spec fn answers_up_to_probe(directory: Option<String>, taken: bool) -> Seq<Response> {
    match directory {
        Some(_) => seq![Response::Completed(Ok(())), Response::Existence(taken)],
        None => seq![Response::Existence(taken)],
    }
}

/// The requests that creating a file makes up to the question whether the
/// path is taken.
pub open spec fn requests_up_to_probe(directory: Option<String>, path: String) -> Seq<
    Request<'static>,
> {
    match directory {
        Some(directory) => seq![
            Request::CreateDirectories { path: &directory },
            Request::Exists { path: &path },
        ],
        None => seq![Request::Exists { path: &path }],
    }
}

/// Creating a file at a path that is taken fails with
/// [`Error::AlreadyExists`], and no write was asked for.
pub proof fn lemma_create_refuses_taken_path(
    directory: Option<String>,
    path: String,
    content: String,
)
    ensures
        run(create_file_start(directory, path, content), answers_up_to_probe(directory, true))
            == Next::Finished(Err(Error::AlreadyExists)),
        asked(create_file_start(directory, path, content), answers_up_to_probe(directory, true))
            == requests_up_to_probe(directory, path),
{
    let start = create_file_start(directory, path, content);
    let probe = Response::Existence(true);
    match directory {
        Some(d) => {
            let made = Response::Completed(Ok(()));
            lemma_run_push(start, Seq::empty(), made);
            lemma_run_push(start, seq![made], probe);
            assert(Seq::<Response>::empty().push(made) =~= seq![made]);
            assert(seq![made].push(probe) =~= seq![made, probe]);
            assert(asked(start, seq![made, probe]) =~= requests_up_to_probe(directory, path));
        },
        None => {
            lemma_run_push(start, Seq::empty(), probe);
            assert(Seq::<Response>::empty().push(probe) =~= seq![probe]);
            assert(asked(start, seq![probe]) =~= requests_up_to_probe(directory, path));
        },
    }
}

/// Creating a file at a path that is free goes on to write the given content
/// to that path, and ends as the write does: well if it succeeded, and with
/// [`Error::WriteFailed`] and the cause if it did not.
pub proof fn lemma_create_writes_to_free_path(
    directory: Option<String>,
    path: String,
    content: String,
    written: Result<(), String>,
)
    ensures
        run(create_file_start(directory, path, content), answers_up_to_probe(directory, false))
            == Next::Continue(State::WritingFile { path, content }),
        asked(
            create_file_start(directory, path, content),
            answers_up_to_probe(directory, false).push(Response::Completed(written)),
        ) == requests_up_to_probe(directory, path).push(
            Request::Write { path: &path, content: &content },
        ),
        run(
            create_file_start(directory, path, content),
            answers_up_to_probe(directory, false).push(Response::Completed(written)),
        ) == (match written {
            Ok(_) => Next::Finished(Ok(Ending::Done)),
            Err(cause) => Next::Finished(Err(Error::WriteFailed(cause))),
        }),
{
    let start = create_file_start(directory, path, content);
    let probe = Response::Existence(false);
    let answers = answers_up_to_probe(directory, false);
    match directory {
        Some(d) => {
            let made = Response::Completed(Ok(()));
            lemma_run_push(start, Seq::empty(), made);
            lemma_run_push(start, seq![made], probe);
            assert(Seq::<Response>::empty().push(made) =~= seq![made]);
            assert(seq![made].push(probe) =~= answers);
            assert(asked(start, answers) =~= requests_up_to_probe(directory, path));
        },
        None => {
            lemma_run_push(start, Seq::empty(), probe);
            assert(Seq::<Response>::empty().push(probe) =~= answers);
            assert(asked(start, answers) =~= requests_up_to_probe(directory, path));
        },
    }
    lemma_run_push(start, answers, Response::Completed(written));
}

/// What holds of a run of renaming a file, whatever the answers.
spec fn rename_invariant(from: String, to: String, responses: Seq<Response>) -> bool {
    let start = Next::Continue(State::ProbingRenameTarget { from, to });
    let requests = asked(start, responses);
    &&& renames_with_care(requests, responses, from, to)
    &&& match run(start, responses) {
        Next::Continue(State::ProbingRenameTarget { from: f, to: t }) => f == from && t == to,
        Next::Continue(State::Renaming { from: f, to: t }) => f == from && t == to && found_free(
            requests,
            responses,
            to,
            requests.len() as int,
        ),
        Next::Continue(_) => false,
        Next::Finished(_) => true,
    }
}

proof fn lemma_rename_invariant(from: String, to: String, responses: Seq<Response>)
    ensures
        rename_invariant(from, to, responses),
    decreases responses.len(),
{
    let start = Next::Continue(State::ProbingRenameTarget { from, to });
    if responses.len() > 0 {
        let earlier = responses.drop_last();
        let before = asked(start, earlier);
        let now = asked(start, responses);
        lemma_rename_invariant(from, to, earlier);
        lemma_asked_len(start, earlier);
        assert forall|k: int| 0 <= k < now.len() implies match #[trigger] now[k] {
            Request::Exists { path: probed } => *probed == to,
            Request::Rename { from: source, to: target } => {
                &&& *source == from
                &&& *target == to
                &&& found_free(now, responses, to, k)
            },
            _ => false,
        } by {
            if k < before.len() {
                assert(now[k] == before[k]);
                if before[k] is Rename {
                    assert(found_free(before, earlier, to, k));
                    let j = choose|j: int|
                        0 <= j < k && j < before.len() && j < earlier.len() && #[trigger] before[j]
                            == (Request::Exists { path: &to }) && earlier[j]
                            == Response::Existence(false);
                    assert(now[j] == before[j] && responses[j] == earlier[j]);
                }
            } else {
                if now[k] is Rename {
                    let j = choose|j: int|
                        0 <= j < before.len() && j < earlier.len() && #[trigger] before[j] == (
                        Request::Exists { path: &to }) && earlier[j] == Response::Existence(false);
                    assert(now[j] == before[j] && responses[j] == earlier[j]);
                }
            }
        }
        if let Next::Continue(State::Renaming { .. }) = run(start, responses) {
            match run(start, earlier) {
                Next::Continue(State::ProbingRenameTarget { .. }) => {
                    let j = before.len() as int;
                    assert(now[j] == (Request::Exists { path: &to }));
                    assert(responses[j] == Response::Existence(false));
                },
                _ => {
                    let j = choose|j: int|
                        0 <= j < before.len() && j < earlier.len() && #[trigger] before[j] == (
                        Request::Exists { path: &to }) && earlier[j] == Response::Existence(false);
                    assert(now[j] == before[j] && responses[j] == earlier[j]);
                },
            }
        }
    }
}

/// Renaming never replaces: whatever answers it is given, it asks for
/// nothing but whether the new path is taken and the move from the old path
/// to the new, and for the move only after it was told that the new path is
/// free.
pub proof fn lemma_rename_never_replaces(from: String, to: String, responses: Seq<Response>)
    ensures
        renames_with_care(
            asked(Next::Continue(State::ProbingRenameTarget { from, to }), responses),
            responses,
            from,
            to,
        ),
{
    lemma_rename_invariant(from, to, responses);
}

/// Renaming to a path that is taken fails with [`Error::AlreadyExists`],
/// and nothing but the question was asked.
pub proof fn lemma_rename_refuses_taken_path(from: String, to: String)
    ensures
        run(
            Next::Continue(State::ProbingRenameTarget { from, to }),
            seq![Response::Existence(true)],
        ) == Next::Finished(Err(Error::AlreadyExists)),
        asked(
            Next::Continue(State::ProbingRenameTarget { from, to }),
            seq![Response::Existence(true)],
        ) == seq![Request::Exists { path: &to }],
{
    let start = Next::Continue(State::ProbingRenameTarget { from, to });
    let probe = Response::Existence(true);
    lemma_run_push(start, Seq::empty(), probe);
    assert(Seq::<Response>::empty().push(probe) =~= seq![probe]);
    assert(asked(start, seq![probe]) =~= seq![Request::Exists { path: &to }]);
}

/// Renaming to a path that is free goes on to move the old path to the new,
/// and ends as the move does: well if it succeeded, and with
/// [`Error::RenameFailed`] and the cause if it did not.
pub proof fn lemma_rename_moves_to_free_path(from: String, to: String, moved: Result<(), String>)
    ensures
        asked(
            Next::Continue(State::ProbingRenameTarget { from, to }),
            seq![Response::Existence(false), Response::Completed(moved)],
        ) == seq![Request::Exists { path: &to }, Request::Rename { from: &from, to: &to }],
        run(
            Next::Continue(State::ProbingRenameTarget { from, to }),
            seq![Response::Existence(false), Response::Completed(moved)],
        ) == (match moved {
            Ok(_) => Next::Finished(Ok(Ending::Done)),
            Err(cause) => Next::Finished(Err(Error::RenameFailed(cause))),
        }),
{
    let start = Next::Continue(State::ProbingRenameTarget { from, to });
    let probe = Response::Existence(false);
    let done = Response::Completed(moved);
    lemma_run_push(start, Seq::empty(), probe);
    lemma_run_push(start, seq![probe], done);
    assert(Seq::<Response>::empty().push(probe) =~= seq![probe]);
    assert(seq![probe].push(done) =~= seq![probe, done]);
    assert(asked(start, seq![probe, done]) =~= seq![
        Request::Exists { path: &to },
        Request::Rename { from: &from, to: &to },
    ]);
}

/// Asking whether a path exists never fails.
pub proof fn lemma_path_exists_never_fails(path: String, responses: Seq<Response>)
    ensures
        (match run(Next::Continue(State::ProbingPath { path }), responses) {
            Next::Continue(state) => state == (State::ProbingPath { path }),
            Next::Finished(ending) => ending matches Ok(Ending::Existence(_)),
        }),
    decreases responses.len(),
{
    if responses.len() > 0 {
        lemma_path_exists_never_fails(path, responses.drop_last());
    }
}

/// The answers that saving is given when every step succeeds and the
/// document is rendered as `text`.
pub open spec fn answers_to_save(text: String) -> Seq<Response> {
    seq![Response::Completed(Ok(())), Response::Text(Ok(text)), Response::Completed(Ok(()))]
}

/// The answers that loading is given when the document's file exists, holds
/// `text`, and `text` is read as `document`.
pub open spec fn answers_to_load(text: String, document: Document) -> Seq<Response> {
    seq![
        Response::Completed(Ok(())),
        Response::Existence(true),
        Response::Text(Ok(text)),
        Response::Document(Ok(document)),
    ]
}

/// Saving a document and loading it again meet in one file and one text:
/// saving writes the text that the document was rendered as to the
/// document's file, replacing what the file held, and loading reads that
/// file and has what it read taken as a document of the same kind. So where
/// the file gives back the text that was written, and that text is read as
/// the document it was rendered from, loading ends in the document that was
/// saved.
pub proof fn lemma_saved_document_loads_back(
    document: Document,
    location: DocumentLocation,
    text: String,
)
    ensures
        asked(
            Next::Continue(State::PreparingSave { document, location }),
            answers_to_save(text),
        ) == seq![
            Request::CreateDirectories { path: &location.directory },
            Request::Encode { document: &document },
            Request::Write { path: &location.file, content: &text },
        ],
        run(Next::Continue(State::PreparingSave { document, location }), answers_to_save(text))
            == Next::Finished(Ok(Ending::Done)),
        asked(
            Next::Continue(State::PreparingLoad { kind: document.kind(), location }),
            answers_to_load(text, document),
        ) == seq![
            Request::CreateDirectories { path: &location.directory },
            Request::Exists { path: &location.file },
            Request::ReadText { path: &location.file },
            Request::Decode { kind: document.kind(), text: &text },
        ],
        run(
            Next::Continue(State::PreparingLoad { kind: document.kind(), location }),
            answers_to_load(text, document),
        ) == Next::Finished(Ok(Ending::Document(document@))),
{
    let made = Response::Completed(Ok(()));
    let rendered = Response::Text(Ok(text));
    let found = Response::Existence(true);
    let decoded = Response::Document(Ok(document));

    let save = Next::Continue(State::PreparingSave { document, location });
    lemma_run_push(save, Seq::empty(), made);
    lemma_run_push(save, seq![made], rendered);
    lemma_run_push(save, seq![made, rendered], made);
    assert(Seq::<Response>::empty().push(made) =~= seq![made]);
    assert(seq![made].push(rendered) =~= seq![made, rendered]);
    assert(seq![made, rendered].push(made) =~= answers_to_save(text));
    assert(asked(save, answers_to_save(text)) =~= seq![
        Request::CreateDirectories { path: &location.directory },
        Request::Encode { document: &document },
        Request::Write { path: &location.file, content: &text },
    ]);

    let load = Next::Continue(State::PreparingLoad { kind: document.kind(), location });
    lemma_run_push(load, Seq::empty(), made);
    lemma_run_push(load, seq![made], found);
    lemma_run_push(load, seq![made, found], rendered);
    lemma_run_push(load, seq![made, found, rendered], decoded);
    assert(seq![made].push(found) =~= seq![made, found]);
    assert(seq![made, found].push(rendered) =~= seq![made, found, rendered]);
    assert(seq![made, found, rendered].push(decoded) =~= answers_to_load(text, document));
    assert(asked(load, answers_to_load(text, document)) =~= seq![
        Request::CreateDirectories { path: &location.directory },
        Request::Exists { path: &location.file },
        Request::ReadText { path: &location.file },
        Request::Decode { kind: document.kind(), text: &text },
    ]);
}

/// The shape of what an operation has to show when it ends well.
pub enum Shape {
    Done,
    Existence,
    Text,
    Listing,
    Document(DocumentKind),
}

/// The shape that the operation waiting in `state` ends in, if it ends well.
pub open spec fn promised(state: State) -> Shape {
    match state {
        State::ListingDirectory { .. } => Shape::Listing,
        State::ReadingFile { .. } => Shape::Text,
        State::ProbingPath { .. } => Shape::Existence,
        State::PreparingLoad { kind, .. }
        | State::ProbingDocument { kind, .. }
        | State::ReadingDocument { kind, .. }
        | State::DecodingDocument { kind, .. } => Shape::Document(kind),
        State::WritingFile { .. }
        | State::CreatingParent { .. }
        | State::ProbingNewFile { .. }
        | State::DeletingFile { .. }
        | State::ProbingRenameTarget { .. }
        | State::Renaming { .. }
        | State::CreatingDirectory { .. }
        | State::PreparingSave { .. }
        | State::EncodingDocument { .. } => Shape::Done,
    }
}

/// Whether `ending` has the shape `shape`.
pub open spec fn has_shape(ending: Ending, shape: Shape) -> bool {
    match (ending, shape) {
        (Ending::Done, Shape::Done) => true,
        (Ending::Existence(_), Shape::Existence) => true,
        (Ending::Text(_), Shape::Text) => true,
        (Ending::Listing(_), Shape::Listing) => true,
        (Ending::Document(content), Shape::Document(kind)) => content.kind() == kind,
        _ => false,
    }
}

/// Whether an operation that stands at `next` keeps the promise of `shape`:
/// it is still on the way to it, or has ended in it, or has failed.
pub open spec fn keeps(next: Next, shape: Shape) -> bool {
    match next {
        Next::Continue(state) => promised(state) == shape,
        Next::Finished(Ok(ending)) => has_shape(ending, shape),
        Next::Finished(Err(_)) => true,
    }
}

/// An operation ends in the shape it started out for, whatever answers it is
/// given: listing a directory in a listing, reading a file in a text, asking
/// for a path in a yes or no, loading in a document of the kind asked for,
/// and every other operation in nothing to show.
pub proof fn lemma_ending_has_promised_shape(state: State, responses: Seq<Response>)
    ensures
        keeps(run(Next::Continue(state), responses), promised(state)),
    decreases responses.len(),
{
    if responses.len() > 0 {
        lemma_ending_has_promised_shape(state, responses.drop_last());
    }
}

/// Whether `response` is an answer to `request`: of the shape that the
/// request is answered with and, for a document, of the kind asked for.
pub open spec fn answers(request: Request<'static>, response: Response) -> bool {
    match (request, response) {
        (Request::ReadDirectory { .. }, Response::Entries(_)) => true,
        (Request::ReadText { .. }, Response::Text(_)) => true,
        (Request::Encode { .. }, Response::Text(_)) => true,
        (Request::Write { .. }, Response::Completed(_)) => true,
        (Request::CreateDirectories { .. }, Response::Completed(_)) => true,
        (Request::RemoveFile { .. }, Response::Completed(_)) => true,
        (Request::Rename { .. }, Response::Completed(_)) => true,
        (Request::Exists { .. }, Response::Existence(_)) => true,
        (Request::Decode { kind, .. }, Response::Document(Ok(document))) => document.kind() == kind,
        (Request::Decode { .. }, Response::Document(Err(_))) => true,
        _ => false,
    }
}

/// The greatest number of requests that an operation waiting in `state` has
/// yet to make, the one it waits for included.
pub open spec fn requests_left(state: State) -> nat {
    match state {
        State::ListingDirectory { .. } => 1,
        State::ReadingFile { .. } => 1,
        State::WritingFile { .. } => 1,
        State::CreatingParent { .. } => 3,
        State::ProbingNewFile { .. } => 2,
        State::DeletingFile { .. } => 1,
        State::ProbingRenameTarget { .. } => 2,
        State::Renaming { .. } => 1,
        State::CreatingDirectory { .. } => 1,
        State::ProbingPath { .. } => 1,
        State::PreparingLoad { .. } => 4,
        State::ProbingDocument { .. } => 3,
        State::ReadingDocument { .. } => 2,
        State::DecodingDocument { .. } => 1,
        State::PreparingSave { .. } => 3,
        State::EncodingDocument { .. } => 2,
    }
}

/// An answer to the pending request brings the operation nearer its end: it
/// is over, or has fewer requests left to make. Only a response that is no
/// answer leaves it where it was.
pub proof fn lemma_answer_brings_nearer(state: State, response: Response)
    ensures
        answers(awaits(&state), response) ==> (match after(state, response) {
            Next::Continue(then) => requests_left(then) < requests_left(state),
            Next::Finished(_) => true,
        }),
        !answers(awaits(&state), response) ==> after(state, response) == Next::Continue(state),
{
}

/// An operation whose requests are all answered is over after four answers
/// at the most.
pub proof fn lemma_answered_operation_ends(state: State, responses: Seq<Response>)
    requires
        forall|k: int|
            0 <= k < asked(Next::Continue(state), responses).len() ==> answers(
                #[trigger] asked(Next::Continue(state), responses)[k],
                responses[k],
            ),
    ensures
        (match run(Next::Continue(state), responses) {
            Next::Continue(then) => requests_left(then) + responses.len() <= requests_left(state),
            Next::Finished(_) => true,
        }),
        responses.len() >= 4 ==> run(Next::Continue(state), responses) is Finished,
    decreases responses.len(),
{
    let start = Next::Continue(state);
    if responses.len() > 0 {
        let earlier = responses.drop_last();
        lemma_asked_len(start, earlier);
        assert forall|k: int| 0 <= k < asked(start, earlier).len() implies answers(
            #[trigger] asked(start, earlier)[k],
            earlier[k],
        ) by {
            assert(asked(start, responses)[k] == asked(start, earlier)[k]);
        }
        lemma_answered_operation_ends(state, earlier);
        if let Next::Continue(before) = run(start, earlier) {
            let last = asked(start, earlier).len() as int;
            assert(asked(start, responses)[last] == awaits(&before));
            assert(responses[last] == responses.last());
            lemma_answer_brings_nearer(before, responses.last());
        }
    }
}

} // verus!
