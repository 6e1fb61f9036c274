//! A local index that attaches user-defined tags to tracked files, kept in a
//! SQLite store inside a hidden directory at the repository root.

pub mod error;
pub mod file;
pub mod locate;
pub mod model;
pub mod repo;
pub mod schema;
pub mod sqlite;
pub mod tag;

pub use error::RepoError;
pub use file::{TrackedFile, TrackedFileUid};
pub use locate::{root_or_start, RootSearch, SearchStep, DATA_DIR_NAME, DB_FILENAME};
pub use repo::Repo;
