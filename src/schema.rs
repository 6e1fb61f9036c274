//! The schema of the store and the statements the library runs on it.

use vstd::prelude::*;

verus! {

/// Turns on foreign-key enforcement for the connection; it must run outside any
/// transaction to take effect.
pub const ENABLE_FOREIGN_KEYS: &'static str = "PRAGMA foreign_keys = ON;";

/// The schema, created as one transaction; each table is left alone when it
/// exists already.
pub const TABLES: &'static str = "
    BEGIN;
    CREATE TABLE IF NOT EXISTS tracked_files (
        file_id TEXT NOT NULL,
        createTs INTEGER NOT NULL,
        path TEXT NOT NULL,
        PRIMARY KEY (file_id, createTs)
    );
    CREATE TABLE IF NOT EXISTS tags (
        tag_id INTEGER PRIMARY KEY AUTOINCREMENT,
        name TEXT UNIQUE NOT NULL
    );
    CREATE TABLE IF NOT EXISTS file_tags (
        file_id TEXT NOT NULL,
        createTs INTEGER NOT NULL,
        tag_id INTEGER NOT NULL,
        PRIMARY KEY (file_id, createTs, tag_id),
        FOREIGN KEY (file_id, createTs) REFERENCES tracked_files(file_id, createTs) ON DELETE CASCADE,
        FOREIGN KEY (tag_id) REFERENCES tags(tag_id) ON DELETE CASCADE
    );
    COMMIT;
    ";

pub const INSERT_TAG: &'static str = "INSERT INTO tags (name) VALUES (?1) ON CONFLICT(name) DO NOTHING;";

pub const SELECT_TAG_ID: &'static str = "SELECT tag_id FROM tags WHERE name = ?1;";

pub const RENAME_TAG: &'static str = "UPDATE tags SET name = ?1 WHERE name = ?2;";

pub const DELETE_TAG: &'static str = "DELETE FROM tags WHERE name = ?1;";

pub const INSERT_FILE: &'static str =
    "INSERT OR IGNORE INTO tracked_files (file_id, createTs, path) VALUES (?1, ?2, ?3);";

pub const INSERT_FILE_TAG: &'static str =
    "INSERT OR IGNORE INTO file_tags (file_id, createTs, tag_id) VALUES (?1, ?2, ?3);";

pub const UPDATE_PATH: &'static str =
    "UPDATE tracked_files SET path = ?1 WHERE file_id = ?2 AND createTs = ?3;";

pub const DELETE_FILE: &'static str =
    "DELETE FROM tracked_files WHERE file_id = ?1 AND createTs = ?2;";

pub const DELETE_FILE_TAG: &'static str =
    "DELETE FROM file_tags WHERE file_id = ?1 AND createTs = ?2 AND tag_id = ?3;";

pub const SELECT_FILES_BY_TAGS: &'static str = "SELECT tf.file_id, tf.createTs, tf.path
    FROM tracked_files tf
    JOIN file_tags ft ON tf.file_id = ft.file_id AND tf.createTs = ft.createTs
    JOIN tags t ON ft.tag_id = t.tag_id
    WHERE t.name IN (SELECT value FROM json_each(?1));";

/// The statements the library runs, each with a fixed SQL text.
#[derive(Debug, Clone, Copy, PartialEq, Eq, Structural)]
pub enum Statement {
    /// Creates a tag unless its name exists.
    InsertTag,
    /// Finds the id of the tag with a name.
    SelectTagId,
    /// Renames a tag.
    RenameTag,
    /// Deletes a tag by name.
    DeleteTag,
    /// Inserts a file record unless its key exists.
    InsertFile,
    /// Attaches a tag to a file record unless attached.
    InsertFileTag,
    /// Sets the path of a file record.
    UpdatePath,
    /// Deletes a file record.
    DeleteFile,
    /// Detaches a tag from a file record.
    DeleteFileTag,
    /// Lists the file records carrying any of a set of tags.
    SelectFilesByTags,
}

impl Statement {
    /// The SQL text of the statement.
    pub open spec fn text(self) -> Seq<char> {
        match self {
            Statement::InsertTag => INSERT_TAG@,
            Statement::SelectTagId => SELECT_TAG_ID@,
            Statement::RenameTag => RENAME_TAG@,
            Statement::DeleteTag => DELETE_TAG@,
            Statement::InsertFile => INSERT_FILE@,
            Statement::InsertFileTag => INSERT_FILE_TAG@,
            Statement::UpdatePath => UPDATE_PATH@,
            Statement::DeleteFile => DELETE_FILE@,
            Statement::DeleteFileTag => DELETE_FILE_TAG@,
            Statement::SelectFilesByTags => SELECT_FILES_BY_TAGS@,
        }
    }

    /// The SQL text of the statement.
    pub fn sql(self) -> (r: &'static str)
        ensures
            r@ == self.text(),
    {
        match self {
            Statement::InsertTag => INSERT_TAG,
            Statement::SelectTagId => SELECT_TAG_ID,
            Statement::RenameTag => RENAME_TAG,
            Statement::DeleteTag => DELETE_TAG,
            Statement::InsertFile => INSERT_FILE,
            Statement::InsertFileTag => INSERT_FILE_TAG,
            Statement::UpdatePath => UPDATE_PATH,
            Statement::DeleteFile => DELETE_FILE,
            Statement::DeleteFileTag => DELETE_FILE_TAG,
            Statement::SelectFilesByTags => SELECT_FILES_BY_TAGS,
        }
    }
}

} // verus!
