//! Finding the repository root: the nearest directory, from a start directory
//! upward, that holds the hidden marker directory.
//!
//! Looking at the filesystem is left to the caller. A `RootSearch` decides,
//! from whether the marker is present in the directory it is at, where the
//! search goes next.

use vstd::prelude::*;
use crate::error::RepoError;

verus! {

/// The hidden directory that marks a repository root and holds its store.
pub const DATA_DIR_NAME: &'static str = ".tagfs";

/// The store file inside the hidden directory.
pub const DB_FILENAME: &'static str = "tagfs.db";

/// The path `name` below `base`, as std::path::Path::join builds it.
pub uninterp spec fn path_join(base: Seq<char>, name: Seq<char>) -> Seq<char>;

/// The path without its final component, as std::path::Path::parent gives it.
pub uninterp spec fn path_parent(path: Seq<char>) -> Option<Seq<char>>;

/// Relies on std::path::Path::join: `name` appended to `base` as a new
/// component.
#[verifier::external_body]
pub(crate) fn join(base: &str, name: &str) -> (r: String)
    ensures
        r@ == path_join(base@, name@),
{
    std::path::Path::new(base).join(name).to_string_lossy().into_owned()
}

/// Relies on std::path::Path::parent: the path without its final component,
/// a proper prefix of the path and so shorter; `None` at a root and for the
/// empty path.
#[verifier::external_body]
pub(crate) fn parent(path: &str) -> (r: Option<String>)
    ensures
        r matches Some(p) ==> path_parent(path@) == Some(p@) && p@.len() < path@.len(),
        r is None ==> path_parent(path@) is None,
        path@.len() == 0 ==> r is None,
{
    std::path::Path::new(path).parent().map(|p| p.to_string_lossy().into_owned())
}

/// The hidden data directory of the repository rooted at `root`.
pub fn data_dir_path(root: &str) -> (r: String)
    ensures
        r@ == path_join(root@, DATA_DIR_NAME@),
{
    join(root, DATA_DIR_NAME)
}

/// What a search does after looking at one directory.
#[derive(Debug)]
pub enum SearchStep {
    /// The marker is here: this directory is the root.
    Found(String),
    /// No marker here; the search moves to this parent directory.
    Ascend(String),
    /// No marker anywhere up to the filesystem root; carries the start path.
    NotFound(String),
}

/// An upward search for the repository root.
#[derive(Debug)]
pub struct RootSearch {
    start: String,
    current: String,
}

impl RootSearch {
    /// Where the search began.
    pub closed spec fn start_view(&self) -> Seq<char> {
        self.start@
    }

    /// The directory the search is at.
    pub closed spec fn current_view(&self) -> Seq<char> {
        self.current@
    }

    /// A search that begins at `start`.
    pub fn new(start: &str) -> (r: Self)
        ensures
            r.start_view() == start@,
            r.current_view() == start@,
    {
        RootSearch { start: start.to_string(), current: start.to_string() }
    }

    /// The directory the search is at.
    pub fn current(&self) -> (r: &str)
        ensures
            r@ == self.current_view(),
    {
        self.current.as_str()
    }

    /// The marker directory whose presence the caller checks next.
    pub fn marker_path(&self) -> (r: String)
        ensures
            r@ == path_join(self.current_view(), DATA_DIR_NAME@),
    {
        join(self.current.as_str(), DATA_DIR_NAME)
    }

    /// Takes whether the marker is present in the current directory and says
    /// where the search stands: found here, moved up to the parent, or at the
    /// filesystem root without a marker. Each move up shortens the current
    /// path, so a search ends, and a root found after a move up is not the
    /// start directory.
    pub fn advance(&mut self, marker_present: bool) -> (r: SearchStep)
        ensures
            final(self).start_view() == old(self).start_view(),
            match r {
                SearchStep::Found(root) => {
                    &&& marker_present
                    &&& root@ == old(self).current_view()
                    &&& final(self).current_view() == old(self).current_view()
                },
                SearchStep::Ascend(next) => {
                    &&& !marker_present
                    &&& path_parent(old(self).current_view()) == Some(next@)
                    &&& final(self).current_view() == next@
                    &&& next@.len() < old(self).current_view().len()
                },
                SearchStep::NotFound(start) => {
                    &&& !marker_present
                    &&& path_parent(old(self).current_view()) is None
                    &&& start@ == old(self).start_view()
                    &&& final(self).current_view() == old(self).current_view()
                },
            },
    {
        if marker_present {
            return SearchStep::Found(self.current.clone());
        }
        match parent(self.current.as_str()) {
            Some(up) => {
                self.current = up.clone();
                SearchStep::Ascend(up)
            },
            None => SearchStep::NotFound(self.start.clone()),
        }
    }
}

/// The directory a repository is opened in: the root found, or, when there is
/// none, the start path that `RepoNotFound` carries. Any other failure stands.
pub fn root_or_start(found: Result<String, RepoError>) -> (r: Result<String, RepoError>)
    ensures
        match found {
            Ok(root) => (r matches Ok(dir) && dir@ == root@),
            Err(RepoError::RepoNotFound(start)) => (r matches Ok(dir) && dir@ == start@),
            Err(e) => r == Err::<String, RepoError>(e),
        },
{
    match found {
        Ok(root) => Ok(root),
        Err(RepoError::RepoNotFound(start)) => Ok(start),
        Err(e) => Err(e),
    }
}

} // verus!
