//! Verified core of a document editor's storage backend.
//!
//! The crate decides; it never touches the file system itself. A caller
//! starts an operation, performs the one request the operation is waiting
//! for, hands back what happened, and repeats until the operation is over.
//!
//! * [`machine`] holds the operations: how each starts, what it asks for
//!   next, and how it ends.
//! * [`protocol`] holds what passes between an operation and its caller.
//! * [`listing`] filters and orders the entries of a directory, by the
//!   order of names that [`text`] defines.
//! * [`document`] holds the two persisted documents, and [`paths`] names the
//!   files they are kept in under the per-user data root.
//! * [`error`] is the closed set of failures.
//! * [`laws`] states what holds of whole runs of the operations.

pub mod document;
pub mod error;
pub mod laws;
pub mod listing;
pub mod machine;
pub mod paths;
pub mod protocol;
pub mod text;

pub use document::{Document, DocumentKind, Float64Bits, MiniModeSettings, Settings, UserTemplate};
pub use error::Error;
pub use listing::FileInfo;
pub use machine::State;
pub use protocol::{Outcome, Progress, Request, Response};
