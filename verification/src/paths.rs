//! Where the two documents live.
//!
//! Both are kept in one folder of fixed name directly under the per-user
//! data root of the platform, each under its own fixed file name.

use vstd::prelude::*;
use vstd::string::*;
use crate::document::DocumentKind;
use crate::error::Error;
use crate::text::text_of;

verus! {

/// The path that `Path::join` of the standard library gives for a base path
/// and a name, on the platform the library is built for.
pub uninterp spec fn joined(base: Seq<char>, name: Seq<char>) -> Seq<char>;

/// The path without its last component, as `Path::parent` of the standard
/// library gives it on the platform the library is built for; `None` where
/// the path has no parent.
pub uninterp spec fn parent(path: Seq<char>) -> Option<Seq<char>>;

/// Calls `dirs_next::data_dir`. Trusted, and nothing is claimed of the
/// result: it depends on the environment and the user's account. A root that
/// is not valid Unicode text is given as `None`.
#[verifier::external_body]
pub(crate) fn data_root() -> Option<String> {
    match dirs_next::data_dir() {
        Some(root) => root.into_os_string().into_string().ok(),
        None => None,
    }
}

/// Calls `Path::join`. Trusted: the result is the joined path, by definition
/// of [`joined`].
#[verifier::external_body]
pub(crate) fn join(base: &str, name: &str) -> (path: String)
    ensures
        path@ == joined(base@, name@),
{
    std::path::Path::new(base).join(name).to_string_lossy().into_owned()
}

/// Calls `Path::parent`. Trusted: the result is the parent path, by
/// definition of [`parent`].
#[verifier::external_body]
pub(crate) fn parent_of(path: &str) -> (directory: Option<String>)
    ensures
        text_of(directory) == parent(path@),
{
    match std::path::Path::new(path).parent() {
        Some(directory) => Some(directory.to_string_lossy().into_owned()),
        None => None,
    }
}

/// The folder, under the data root, that holds the documents.
pub open spec fn app_folder() -> Seq<char> {
    "JasBlogEditor"@
}

/// The file name of a document within the folder.
pub open spec fn file_name(kind: DocumentKind) -> Seq<char> {
    match kind {
        DocumentKind::Settings => "settings.json"@,
        DocumentKind::Templates => "templates.json"@,
    }
}

/// The place of one document.
#[derive(Debug, Clone, PartialEq, Eq)]
pub struct DocumentLocation {
    /// The folder that holds the documents.
    pub directory: String,
    /// The document's file within that folder.
    pub file: String,
}

impl DocumentLocation {
    /// Whether this is the place of the document of kind `kind` under the
    /// data root `root`.
    pub open spec fn is_for(self, root: Seq<char>, kind: DocumentKind) -> bool {
        &&& self.directory@ == joined(root, app_folder())
        &&& self.file@ == joined(self.directory@, file_name(kind))
    }
}

/// The place of a document under a data root, if the platform named one.
pub fn locate(root: Option<String>, kind: DocumentKind) -> (place: Result<DocumentLocation, Error>)
    ensures
        (match root {
            None => place == Err::<DocumentLocation, Error>(Error::DirectoryUnavailable),
            Some(root) => place matches Ok(location) && location.is_for(root@, kind),
        }),
{
    match root {
        None => Err(Error::DirectoryUnavailable),
        Some(root) => {
            let directory = join(root.as_str(), "JasBlogEditor");
            let file = match kind {
                DocumentKind::Settings => join(directory.as_str(), "settings.json"),
                DocumentKind::Templates => join(directory.as_str(), "templates.json"),
            };
            Ok(DocumentLocation { directory, file })
        },
    }
}

/// The place of the settings document on this machine.
///
/// Fails with [`Error::DirectoryUnavailable`], and with nothing else, when
/// the platform names no data root.
pub fn get_settings_path() -> (place: Result<DocumentLocation, Error>)
    ensures
        (match place {
            Ok(location) => exists|root: Seq<char>| location.is_for(root, DocumentKind::Settings),
            Err(error) => error == Error::DirectoryUnavailable,
        }),
{
    let root = data_root();
    let ghost named = text_of(root);
    let place = locate(root, DocumentKind::Settings);
    proof {
        if named is Some {
            assert(place->Ok_0.is_for(named->Some_0, DocumentKind::Settings));
        }
    }
    place
}

/// The place of the templates document on this machine.
///
/// Fails with [`Error::DirectoryUnavailable`], and with nothing else, when
/// the platform names no data root.
pub fn get_templates_path() -> (place: Result<DocumentLocation, Error>)
    ensures
        (match place {
            Ok(location) => exists|root: Seq<char>| location.is_for(root, DocumentKind::Templates),
            Err(error) => error == Error::DirectoryUnavailable,
        }),
{
    let root = data_root();
    let ghost named = text_of(root);
    let place = locate(root, DocumentKind::Templates);
    proof {
        if named is Some {
            assert(place->Ok_0.is_for(named->Some_0, DocumentKind::Templates));
        }
    }
    place
}

} // verus!
