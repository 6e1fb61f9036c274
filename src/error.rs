//! The failures the library reports.

use vstd::prelude::*;

verus! {

#[verifier::external_type_specification]
#[verifier::external_body]
pub struct ExIoError(std::io::Error);

/// Why an operation on the repository failed.
#[derive(Debug)]
pub enum RepoError {
    /// No marker directory was found from the start path up to the filesystem
    /// root; carries the start path.
    RepoNotFound(String),
    /// A filesystem operation failed.
    IO(std::io::Error),
    /// The store rejected a statement or could not be reached.
    Database(rusqlite::Error),
}

/// Carries a store result over, turning a store failure into
/// `RepoError::Database`.
pub fn from_store<T>(r: Result<T, rusqlite::Error>) -> (out: Result<T, RepoError>)
    ensures
        match r {
            Ok(v) => out == Ok::<T, RepoError>(v),
            Err(e) => out == Err::<T, RepoError>(RepoError::Database(e)),
        },
{
    match r {
        Ok(v) => Ok(v),
        Err(e) => Err(RepoError::Database(e)),
    }
}

} // verus!
