use jasblog_editor::machine::{
    create_directory, create_file, create_file_under, delete_file, get_settings, get_templates,
    load_document, path_exists, pending, read_directory, read_file, rename_file, resume,
    save_document, save_settings, save_templates, write_file,
};
use jasblog_editor::paths::{get_settings_path, get_templates_path, DocumentLocation};
use jasblog_editor::{
    Document, DocumentKind, Error, FileInfo, Outcome, Progress, Request, Response, Settings,
    State, UserTemplate,
};

fn s(text: &str) -> String {
    text.to_string()
}

fn state_of(progress: Progress) -> State {
    match progress {
        Progress::Continue(state) => state,
        Progress::Finished(result) => panic!("the operation is over: {:?}", result),
    }
}

fn place() -> DocumentLocation {
    DocumentLocation { directory: s("/data/JasBlogEditor"), file: s("/data/JasBlogEditor/doc.json") }
}

fn template(id: &str) -> UserTemplate {
    UserTemplate {
        id: s(id),
        name: s("Post"),
        description: None,
        template_type: s("note"),
        content: s("# Title"),
        created_at: s("2024-01-01T00:00:00Z"),
        updated_at: s("2024-01-02T00:00:00Z"),
    }
}

#[test]
fn reading_a_directory_asks_for_its_entries_and_lists_them() {
    let state = state_of(read_directory(s("/work")));
    assert_eq!(pending(&state), Request::ReadDirectory { path: &s("/work") });
    let read = vec![
        Ok(FileInfo { name: s("B.md"), path: s("/work/B.md"), is_dir: false }),
        Ok(FileInfo { name: s("a.md"), path: s("/work/a.md"), is_dir: false }),
        Ok(FileInfo { name: s(".git"), path: s("/work/.git"), is_dir: true }),
        Ok(FileInfo { name: s("assets"), path: s("/work/assets"), is_dir: true }),
    ];
    assert_eq!(
        resume(state, Response::Entries(Ok(read))),
        Progress::Finished(Ok(Outcome::Listing(vec![
            FileInfo { name: s("assets"), path: s("/work/assets"), is_dir: true },
            FileInfo { name: s("a.md"), path: s("/work/a.md"), is_dir: false },
            FileInfo { name: s("B.md"), path: s("/work/B.md"), is_dir: false },
        ])))
    );
}

#[test]
fn a_directory_that_cannot_be_opened_fails_the_listing() {
    let state = state_of(read_directory(s("/gone")));
    assert_eq!(
        resume(state, Response::Entries(Err(s("not found")))),
        Progress::Finished(Err(Error::DirectoryReadFailed(s("not found"))))
    );
}

#[test]
fn an_entry_that_cannot_be_inspected_fails_the_listing() {
    let state = state_of(read_directory(s("/work")));
    let read = vec![
        Ok(FileInfo { name: s("a.md"), path: s("/work/a.md"), is_dir: false }),
        Err(s("permission denied")),
    ];
    assert_eq!(
        resume(state, Response::Entries(Ok(read))),
        Progress::Finished(Err(Error::EntryReadFailed(s("permission denied"))))
    );
}

#[test]
fn reading_a_file_returns_its_text_or_fails() {
    let state = state_of(read_file(s("/work/a.md")));
    assert_eq!(pending(&state), Request::ReadText { path: &s("/work/a.md") });
    assert_eq!(
        resume(state, Response::Text(Ok(s("hello")))),
        Progress::Finished(Ok(Outcome::Text(s("hello"))))
    );
    let state = state_of(read_file(s("/work/a.md")));
    assert_eq!(
        resume(state, Response::Text(Err(s("invalid utf-8")))),
        Progress::Finished(Err(Error::ReadFailed(s("invalid utf-8"))))
    );
}

#[test]
fn writing_a_file_asks_for_no_question_first() {
    let state = state_of(write_file(s("/work/a.md"), s("new")));
    assert_eq!(
        pending(&state),
        Request::Write { path: &s("/work/a.md"), content: &s("new") }
    );
    assert_eq!(resume(state, Response::Completed(Ok(()))), Progress::Finished(Ok(Outcome::Done)));
    let state = state_of(write_file(s("/work/a.md"), s("new")));
    assert_eq!(
        resume(state, Response::Completed(Err(s("disk full")))),
        Progress::Finished(Err(Error::WriteFailed(s("disk full"))))
    );
}

#[test]
fn creating_a_file_makes_the_directory_above_it_first() {
    let state = state_of(create_file(s("/work/posts/new.md"), s("# New")));
    assert_eq!(
        state,
        State::CreatingParent {
            directory: s("/work/posts"),
            path: s("/work/posts/new.md"),
            content: s("# New"),
        }
    );
    assert_eq!(pending(&state), Request::CreateDirectories { path: &s("/work/posts") });
    let state = state_of(resume(state, Response::Completed(Ok(()))));
    assert_eq!(pending(&state), Request::Exists { path: &s("/work/posts/new.md") });
    let state = state_of(resume(state, Response::Existence(false)));
    assert_eq!(
        pending(&state),
        Request::Write { path: &s("/work/posts/new.md"), content: &s("# New") }
    );
    assert_eq!(resume(state, Response::Completed(Ok(()))), Progress::Finished(Ok(Outcome::Done)));
}

#[test]
fn creating_a_file_without_a_directory_above_it_starts_with_the_question() {
    assert_eq!(
        create_file(s("/"), s("x")),
        Progress::Continue(State::ProbingNewFile { path: s("/"), content: s("x") })
    );
    assert_eq!(
        create_file(s(""), s("x")),
        Progress::Continue(State::ProbingNewFile { path: s(""), content: s("x") })
    );
    assert_eq!(
        create_file_under(None, s("a.md"), s("x")),
        Progress::Continue(State::ProbingNewFile { path: s("a.md"), content: s("x") })
    );
    assert_eq!(
        create_file(s("a.md"), s("x")),
        Progress::Continue(State::CreatingParent {
            directory: s(""),
            path: s("a.md"),
            content: s("x"),
        })
    );
}

#[test]
fn creating_a_file_that_exists_fails_before_any_write() {
    let state = state_of(create_file_under(Some(s("/work")), s("/work/a.md"), s("x")));
    let state = state_of(resume(state, Response::Completed(Ok(()))));
    assert_eq!(
        resume(state, Response::Existence(true)),
        Progress::Finished(Err(Error::AlreadyExists))
    );
}

#[test]
fn creating_a_file_fails_as_a_write_when_its_directory_cannot_be_made() {
    let state = state_of(create_file_under(Some(s("/work")), s("/work/a.md"), s("x")));
    assert_eq!(
        resume(state, Response::Completed(Err(s("read-only file system")))),
        Progress::Finished(Err(Error::WriteFailed(s("read-only file system"))))
    );
    let state = state_of(create_file_under(None, s("a.md"), s("x")));
    let state = state_of(resume(state, Response::Existence(false)));
    assert_eq!(
        resume(state, Response::Completed(Err(s("disk full")))),
        Progress::Finished(Err(Error::WriteFailed(s("disk full"))))
    );
}

#[test]
fn deleting_a_file_removes_it_or_fails() {
    let state = state_of(delete_file(s("/work/a.md")));
    assert_eq!(pending(&state), Request::RemoveFile { path: &s("/work/a.md") });
    assert_eq!(resume(state, Response::Completed(Ok(()))), Progress::Finished(Ok(Outcome::Done)));
    let state = state_of(delete_file(s("/work")));
    assert_eq!(
        resume(state, Response::Completed(Err(s("is a directory")))),
        Progress::Finished(Err(Error::DeleteFailed(s("is a directory"))))
    );
}

#[test]
fn renaming_asks_whether_the_new_path_is_taken_and_then_moves() {
    let state = state_of(rename_file(s("/work/a.md"), s("/work/b.md")));
    assert_eq!(pending(&state), Request::Exists { path: &s("/work/b.md") });
    let state = state_of(resume(state, Response::Existence(false)));
    assert_eq!(
        pending(&state),
        Request::Rename { from: &s("/work/a.md"), to: &s("/work/b.md") }
    );
    assert_eq!(resume(state, Response::Completed(Ok(()))), Progress::Finished(Ok(Outcome::Done)));
}

#[test]
fn renaming_to_a_path_that_exists_fails_before_any_move() {
    let state = state_of(rename_file(s("/work/a.md"), s("/work/b.md")));
    assert_eq!(
        resume(state, Response::Existence(true)),
        Progress::Finished(Err(Error::AlreadyExists))
    );
}

#[test]
fn a_move_that_fails_fails_the_renaming() {
    let state = state_of(rename_file(s("/work/a.md"), s("/other/b.md")));
    let state = state_of(resume(state, Response::Existence(false)));
    assert_eq!(
        resume(state, Response::Completed(Err(s("cross-device link")))),
        Progress::Finished(Err(Error::RenameFailed(s("cross-device link"))))
    );
}

#[test]
fn creating_a_directory_makes_it_or_fails() {
    let state = state_of(create_directory(s("/work/a/b")));
    assert_eq!(pending(&state), Request::CreateDirectories { path: &s("/work/a/b") });
    assert_eq!(resume(state, Response::Completed(Ok(()))), Progress::Finished(Ok(Outcome::Done)));
    let state = state_of(create_directory(s("/work/a/b")));
    assert_eq!(
        resume(state, Response::Completed(Err(s("permission denied")))),
        Progress::Finished(Err(Error::CreateDirectoryFailed(s("permission denied"))))
    );
}

#[test]
fn asking_whether_a_path_exists_returns_the_answer() {
    let state = state_of(path_exists(s("/work")));
    assert_eq!(pending(&state), Request::Exists { path: &s("/work") });
    assert_eq!(
        resume(state, Response::Existence(true)),
        Progress::Finished(Ok(Outcome::Existence(true)))
    );
    let state = state_of(path_exists(s("/gone")));
    assert_eq!(
        resume(state, Response::Existence(false)),
        Progress::Finished(Ok(Outcome::Existence(false)))
    );
}

#[test]
fn loading_a_document_that_was_never_saved_gives_the_blank_document() {
    let state = state_of(load_document(DocumentKind::Settings, Ok(place())));
    assert_eq!(pending(&state), Request::CreateDirectories { path: &place().directory });
    let state = state_of(resume(state, Response::Completed(Ok(()))));
    assert_eq!(pending(&state), Request::Exists { path: &place().file });
    assert_eq!(
        resume(state, Response::Existence(false)),
        Progress::Finished(Ok(Outcome::Document(Document::Settings(Settings::default()))))
    );

    let state = state_of(load_document(DocumentKind::Templates, Ok(place())));
    let state = state_of(resume(state, Response::Completed(Ok(()))));
    assert_eq!(
        resume(state, Response::Existence(false)),
        Progress::Finished(Ok(Outcome::Document(Document::Templates(Vec::new()))))
    );
}

#[test]
fn loading_a_stored_document_reads_and_decodes_its_file() {
    let state = state_of(load_document(DocumentKind::Templates, Ok(place())));
    let state = state_of(resume(state, Response::Completed(Ok(()))));
    let state = state_of(resume(state, Response::Existence(true)));
    assert_eq!(pending(&state), Request::ReadText { path: &place().file });
    let state = state_of(resume(state, Response::Text(Ok(s("[...]")))));
    assert_eq!(
        pending(&state),
        Request::Decode { kind: DocumentKind::Templates, text: &s("[...]") }
    );
    let document = Document::Templates(vec![template("1"), template("1")]);
    assert_eq!(
        resume(state, Response::Document(Ok(document.clone()))),
        Progress::Finished(Ok(Outcome::Document(document)))
    );
}

#[test]
fn loading_fails_with_the_step_that_failed() {
    assert_eq!(
        load_document(DocumentKind::Settings, Err(Error::DirectoryUnavailable)),
        Progress::Finished(Err(Error::DirectoryUnavailable))
    );

    let state = state_of(load_document(DocumentKind::Settings, Ok(place())));
    assert_eq!(
        resume(state, Response::Completed(Err(s("permission denied")))),
        Progress::Finished(Err(Error::DirectoryCreateFailed(s("permission denied"))))
    );

    let state = state_of(load_document(DocumentKind::Settings, Ok(place())));
    let state = state_of(resume(state, Response::Completed(Ok(()))));
    let state = state_of(resume(state, Response::Existence(true)));
    assert_eq!(
        resume(state, Response::Text(Err(s("invalid utf-8")))),
        Progress::Finished(Err(Error::ReadFailed(s("invalid utf-8"))))
    );

    let state = state_of(load_document(DocumentKind::Settings, Ok(place())));
    let state = state_of(resume(state, Response::Completed(Ok(()))));
    let state = state_of(resume(state, Response::Existence(true)));
    let state = state_of(resume(state, Response::Text(Ok(s("{")))));
    assert_eq!(
        resume(state, Response::Document(Err(s("EOF while parsing an object")))),
        Progress::Finished(Err(Error::ParseFailed(s("EOF while parsing an object"))))
    );
}

#[test]
fn saving_a_document_renders_it_and_writes_the_text() {
    let document = Document::Templates(vec![template("a"), template("b")]);
    let state = state_of(save_document(document.clone(), Ok(place())));
    assert_eq!(pending(&state), Request::CreateDirectories { path: &place().directory });
    let state = state_of(resume(state, Response::Completed(Ok(()))));
    assert_eq!(pending(&state), Request::Encode { document: &document });
    let state = state_of(resume(state, Response::Text(Ok(s("[\n]")))));
    assert_eq!(
        pending(&state),
        Request::Write { path: &place().file, content: &s("[\n]") }
    );
    assert_eq!(resume(state, Response::Completed(Ok(()))), Progress::Finished(Ok(Outcome::Done)));
}

#[test]
fn saving_fails_with_the_step_that_failed() {
    let document = Document::Settings(Settings::default());
    assert_eq!(
        save_document(document.clone(), Err(Error::DirectoryUnavailable)),
        Progress::Finished(Err(Error::DirectoryUnavailable))
    );

    let state = state_of(save_document(document.clone(), Ok(place())));
    assert_eq!(
        resume(state, Response::Completed(Err(s("permission denied")))),
        Progress::Finished(Err(Error::DirectoryCreateFailed(s("permission denied"))))
    );

    let state = state_of(save_document(document.clone(), Ok(place())));
    let state = state_of(resume(state, Response::Completed(Ok(()))));
    assert_eq!(
        resume(state, Response::Text(Err(s("not a number")))),
        Progress::Finished(Err(Error::SerializeFailed(s("not a number"))))
    );

    let state = state_of(save_document(document, Ok(place())));
    let state = state_of(resume(state, Response::Completed(Ok(()))));
    let state = state_of(resume(state, Response::Text(Ok(s("{}")))));
    assert_eq!(
        resume(state, Response::Completed(Err(s("disk full")))),
        Progress::Finished(Err(Error::WriteFailed(s("disk full"))))
    );
}

#[test]
fn an_answer_of_another_shape_is_passed_over() {
    let state = state_of(rename_file(s("a"), s("b")));
    let state = state_of(resume(state, Response::Completed(Ok(()))));
    assert_eq!(state, State::ProbingRenameTarget { from: s("a"), to: s("b") });
    let state = state_of(resume(state, Response::Text(Ok(s("x")))));
    assert_eq!(state, State::ProbingRenameTarget { from: s("a"), to: s("b") });

    let state = state_of(write_file(s("a"), s("x")));
    let state = state_of(resume(state, Response::Existence(false)));
    assert_eq!(state, State::WritingFile { path: s("a"), content: s("x") });

    let state = state_of(read_directory(s("/work")));
    let state = state_of(resume(state, Response::Text(Err(s("no")))));
    assert_eq!(state, State::ListingDirectory { path: s("/work") });
}

#[test]
fn a_document_of_the_other_kind_is_passed_over() {
    let state = state_of(load_document(DocumentKind::Settings, Ok(place())));
    let state = state_of(resume(state, Response::Completed(Ok(()))));
    let state = state_of(resume(state, Response::Existence(true)));
    let state = state_of(resume(state, Response::Text(Ok(s("[]")))));
    let state = state_of(resume(state, Response::Document(Ok(Document::Templates(Vec::new())))));
    assert_eq!(state, State::DecodingDocument { kind: DocumentKind::Settings, text: s("[]") });
    assert_eq!(
        resume(state, Response::Document(Ok(Document::Settings(Settings::default())))),
        Progress::Finished(Ok(Outcome::Document(Document::Settings(Settings::default()))))
    );
}

#[test]
fn the_documents_of_this_machine_start_at_their_places() {
    assert_eq!(get_settings(), load_document(DocumentKind::Settings, get_settings_path()));
    assert_eq!(get_templates(), load_document(DocumentKind::Templates, get_templates_path()));
    assert_eq!(
        save_settings(Settings::default()),
        save_document(Document::Settings(Settings::default()), get_settings_path())
    );
    assert_eq!(
        save_templates(vec![template("1")]),
        save_document(Document::Templates(vec![template("1")]), get_templates_path())
    );
}
