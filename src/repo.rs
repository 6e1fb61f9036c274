//! The repository: its resolved paths and the open store, with every tag and
//! file operation behind one owner.

use vstd::prelude::*;
use crate::error::RepoError;
use crate::file::{
    self, attaches, committed_as, delete_file_calls, detaches, find_calls, names_view,
    path_update_calls, track_calls, TrackedFile, TrackedFileUid,
};
use crate::locate::{data_dir_path, join, path_join, DATA_DIR_NAME, DB_FILENAME};
use crate::schema::{ENABLE_FOREIGN_KEYS, TABLES};
use crate::sqlite::{added, batch, extends, open_store, uncommitted, StoreCall};
use crate::tag::{self, delete_tag_calls, new_tag_calls, update_tag_calls};

verus! {

/// What opening the store file at `path` sends to the store: the open, the
/// batch that turns on foreign-key enforcement, then the schema batch.
pub open spec fn setup_calls(path: Seq<char>) -> Seq<StoreCall> {
    seq![
        StoreCall::Open { path },
        StoreCall::Batch { sql: ENABLE_FOREIGN_KEYS@ },
        StoreCall::Batch { sql: TABLES@ },
    ]
}

/// Opens, or creates, the store file `db_filename` in the existing directory
/// `data_dir`, turns on foreign-key enforcement and makes sure the schema
/// exists; returns the connection with the log of those calls. When any step
/// fails the connection is closed, which rolls back a schema transaction left
/// open.
pub fn open_or_create_db(data_dir: &str, db_filename: &str) -> (r: Result<
    (rusqlite::Connection, Ghost<Seq<StoreCall>>),
    RepoError,
>)
    ensures
        r is Ok ==> r->Ok_0.1@ == setup_calls(path_join(data_dir@, db_filename@)),
        r matches Err(e) ==> e is Database,
{
    let mut calls: Ghost<Seq<StoreCall>> = Ghost(Seq::empty());
    let db_path = join(data_dir, db_filename);
    let conn = open_store(db_path.as_str(), &mut calls)?;
    batch(&conn, &mut calls, ENABLE_FOREIGN_KEYS)?;
    batch(&conn, &mut calls, TABLES)?;
    assert(calls@ =~= setup_calls(path_join(data_dir@, db_filename@)));
    Ok((conn, calls))
}

/// An open repository.
pub struct Repo {
    tagfs_dir: String,
    data_dir: String,
    conn: rusqlite::Connection,
    calls: Ghost<Seq<StoreCall>>,
}

impl Repo {
    /// The repository root.
    pub closed spec fn path_view(&self) -> Seq<char> {
        self.tagfs_dir@
    }

    /// Every call the store has accepted from this repository, in order.
    pub closed spec fn calls(&self) -> Seq<StoreCall> {
        self.calls@
    }

    /// What the store accepted from the call that turned `old` into `self`.
    pub open spec fn added_since(&self, old: Repo) -> Seq<StoreCall> {
        added(old.calls(), self.calls())
    }

    /// `self` is `old` after an operation: the same paths, and the calls of `old`
    /// followed by those of the operation.
    pub open spec fn follows(&self, old: Repo) -> bool {
        &&& self.path_view() == old.path_view()
        &&& self.data_dir_view() == old.data_dir_view()
        &&& extends(old.calls(), self.calls())
    }

    /// `self` is `old` after an operation that failed: the same paths, and
    /// nothing that the operation sent was committed.
    pub open spec fn rolled_back(&self, old: Repo) -> bool {
        &&& self.path_view() == old.path_view()
        &&& self.data_dir_view() == old.data_dir_view()
        &&& uncommitted(old.calls(), self.calls())
    }

    /// The hidden data directory.
    pub closed spec fn data_dir_view(&self) -> Seq<char> {
        self.data_dir@
    }

    /// Opens the repository rooted at `root`, whose hidden data directory must
    /// exist: opens or creates its store file and makes sure the schema exists.
    /// The log of the repository begins with those calls.
    pub fn connect(root: &str) -> (r: Result<Repo, RepoError>)
        ensures
            r matches Ok(repo) ==> repo.path_view() == root@ && repo.data_dir_view() == path_join(
                root@,
                DATA_DIR_NAME@,
            ) && repo.calls() == setup_calls(
                path_join(path_join(root@, DATA_DIR_NAME@), DB_FILENAME@),
            ),
            r matches Err(e) ==> e is Database,
    {
        let data_dir = data_dir_path(root);
        let (conn, calls) = open_or_create_db(data_dir.as_str(), DB_FILENAME)?;
        Ok(Repo { tagfs_dir: root.to_string(), data_dir, conn, calls })
    }

    /// Creates the tag `tag_name` unless it exists; returns its id.
    pub fn new_tag(&mut self, tag_name: &str) -> (r: Result<i64, RepoError>)
        ensures
            r is Err ==> final(self).rolled_back(*old(self)),
            r matches Ok(id) ==> final(self).follows(*old(self)) && new_tag_calls(
                final(self).added_since(*old(self)),
                tag_name@,
                id,
            ),
    {
        tag::new_tag(&mut self.conn, &mut self.calls, tag_name)
    }

    /// Renames the tag `tag_name` to `new_name`; returns its id, or `None` when
    /// no tag has that name.
    pub fn update_tag(&mut self, new_name: &str, tag_name: &str) -> (r: Result<Option<i64>, RepoError>)
        ensures
            r is Err ==> final(self).rolled_back(*old(self)),
            r matches Ok(outcome) ==> final(self).follows(*old(self)) && update_tag_calls(
                final(self).added_since(*old(self)),
                new_name@,
                tag_name@,
                outcome,
            ),
            r matches Ok(None) ==> final(self).rolled_back(*old(self)),
    {
        tag::update_tag(&mut self.conn, &mut self.calls, new_name, tag_name)
    }

    /// Deletes the tag `tag_name` and its associations; returns how many tags
    /// were deleted.
    pub fn delete_tag(&mut self, tag_name: &str) -> (r: Result<usize, RepoError>)
        ensures
            r is Err ==> final(self).rolled_back(*old(self)),
            r matches Ok(count) ==> final(self).follows(*old(self)) && delete_tag_calls(
                final(self).added_since(*old(self)),
                tag_name@,
                count,
            ),
    {
        tag::delete_tag(&mut self.conn, &mut self.calls, tag_name)
    }

    /// Tracks a file at `path` with the tags `tag_names`.
    pub fn new_tracked_file(
        &mut self,
        identifier: &TrackedFileUid,
        path: &str,
        tag_names: &[&str],
    ) -> (r: Result<(), RepoError>)
        ensures
            r is Err ==> final(self).rolled_back(*old(self)),
            r is Ok ==> final(self).follows(*old(self)) && track_calls(
                final(self).added_since(*old(self)),
                identifier.id_view(),
                identifier.ts_view(),
                path@,
                names_view(tag_names@),
            ),
    {
        file::new_tracked_file(&mut self.conn, &mut self.calls, identifier, path, tag_names)
    }

    /// Attaches the tags `tag_names` to a tracked file.
    #[allow(non_snake_case)]
    pub fn add_tag_to_Tracked_file(&mut self, identifier: &TrackedFileUid, tag_names: &[&str]) -> (r:
        Result<(), RepoError>)
        ensures
            r is Err ==> final(self).rolled_back(*old(self)),
            r is Ok ==> final(self).follows(*old(self)) && committed_as(
                final(self).added_since(*old(self)),
                |inner: Seq<StoreCall>|
                    attaches(identifier.id_view(), identifier.ts_view(), names_view(tag_names@), inner),
            ),
    {
        file::add_tags_to_tracked_file(&mut self.conn, &mut self.calls, identifier, tag_names)
    }

    /// Sets the path of a tracked file; `None` when it is not tracked.
    pub fn update_tracked_file_path(&mut self, identifier: &TrackedFileUid, new_path: &str) -> (r:
        Result<Option<()>, RepoError>)
        ensures
            r is Err ==> final(self).rolled_back(*old(self)),
            r matches Ok(outcome) ==> final(self).follows(*old(self)) && path_update_calls(
                final(self).added_since(*old(self)),
                identifier.id_view(),
                identifier.ts_view(),
                new_path@,
                outcome,
            ),
            r matches Ok(None) ==> final(self).rolled_back(*old(self)),
    {
        file::update_tracked_file_path(&mut self.conn, &mut self.calls, identifier, new_path)
    }

    /// Stops tracking a file, with its associations.
    pub fn delete_tracked_file(&mut self, identifier: &TrackedFileUid) -> (r: Result<(), RepoError>)
        ensures
            r is Err ==> final(self).rolled_back(*old(self)),
            r is Ok ==> final(self).follows(*old(self)) && delete_file_calls(
                final(self).added_since(*old(self)),
                identifier.id_view(),
                identifier.ts_view(),
            ),
    {
        file::delete_tracked_file(&mut self.conn, &mut self.calls, identifier)
    }

    /// Detaches the tags `tag_names` from a tracked file; fails when a name is
    /// no tag's.
    pub fn delete_tag_from_tracked_file(&mut self, identifier: &TrackedFileUid, tag_names: &[&str]) -> (r:
        Result<(), RepoError>)
        ensures
            r is Err ==> final(self).rolled_back(*old(self)),
            r is Ok ==> final(self).follows(*old(self)) && committed_as(
                final(self).added_since(*old(self)),
                |inner: Seq<StoreCall>|
                    detaches(identifier.id_view(), identifier.ts_view(), names_view(tag_names@), inner),
            ),
    {
        file::delete_tags_from_tracked_file(&mut self.conn, &mut self.calls, identifier, tag_names)
    }

    /// Every tracked file that carries at least one of the tags `tag_names`.
    pub fn find_files_by_tags(&mut self, tag_names: &[&str]) -> (r: Result<Vec<TrackedFile>, RepoError>)
        ensures
            r is Err ==> final(self).rolled_back(*old(self)),
            r matches Ok(files) ==> final(self).follows(*old(self)) && find_calls(
                final(self).added_since(*old(self)),
                names_view(tag_names@),
                files@,
            ),
    {
        file::get_tracked_files_by_tags(&mut self.conn, &mut self.calls, tag_names)
    }

    /// The hidden data directory.
    pub fn data_dir(&self) -> (r: &str)
        ensures
            r@ == self.data_dir_view(),
    {
        self.data_dir.as_str()
    }

    /// The open store.
    pub fn connection(&self) -> (r: &rusqlite::Connection) {
        &self.conn
    }

    /// The repository root.
    pub fn path(&self) -> (r: &str)
        ensures
            r@ == self.path_view(),
    {
        self.tagfs_dir.as_str()
    }
}

} // verus!
