use vstd::prelude::*;
use vstd::string::StringExecFns;

verus! {

/// The failure conditions of the sharing pipeline.
///
/// Import and export are fail-fast: the first error aborts the whole
/// operation and is surfaced to the caller as one of these.
#[derive(Clone, Copy, Debug, PartialEq, Eq, Structural)]
pub enum ShareError {
    /// A path component is not a plain name segment: it is a parent- or
    /// current-directory marker, holds an embedded separator, is a root
    /// marker where only relative paths are allowed, or is not
    /// representable as text.
    InvalidPath,
    /// The source path does not exist.
    NotFound,
    /// A per-file ingestion failed; the first failure wins.
    ImportFailure,
    /// The ephemeral working directory already exists; distinct sessions
    /// must never share one, so the session cannot start under this name.
    CollisionError,
    /// The assembled collection could not be stored.
    PersistFailure,
    /// A collection entry could not be materialized on disk.
    ExportFailure,
}

impl ShareError {
    /// A short description of the failure, for reporting to a caller.
    pub fn describe(&self) -> (r: String)
        ensures
            *self is InvalidPath ==> r@ == "invalid path component"@,
            *self is NotFound ==> r@ == "source path does not exist"@,
            *self is ImportFailure ==> r@ == "file ingestion failed"@,
            *self is CollisionError ==> r@ == "working directory already exists"@,
            *self is PersistFailure ==> r@ == "collection could not be stored"@,
            *self is ExportFailure ==> r@ == "entry could not be materialized"@,
    {
        match self {
            ShareError::InvalidPath => String::from_str("invalid path component"),
            ShareError::NotFound => String::from_str("source path does not exist"),
            ShareError::ImportFailure => String::from_str("file ingestion failed"),
            ShareError::CollisionError => String::from_str("working directory already exists"),
            ShareError::PersistFailure => String::from_str("collection could not be stored"),
            ShareError::ExportFailure => String::from_str("entry could not be materialized"),
        }
    }
}

} // verus!
