use std::path::Path;
use tagfs_core::locate::data_dir_path;
use tagfs_core::repo::open_or_create_db;
use tagfs_core::{root_or_start, Repo, RepoError, RootSearch, SearchStep, DATA_DIR_NAME, DB_FILENAME};

fn find_repo_root(start: &str) -> Result<String, RepoError> {
    let mut search = RootSearch::new(start);
    loop {
        let marked = Path::new(&search.marker_path()).is_dir();
        match search.advance(marked) {
            SearchStep::Found(root) => return Ok(root),
            SearchStep::Ascend(_) => {}
            SearchStep::NotFound(start) => return Err(RepoError::RepoNotFound(start)),
        }
    }
}

fn subdir(parent: &Path, name: &str) -> tempfile::TempDir {
    tempfile::Builder::new().prefix(name).rand_bytes(0).tempdir_in(parent).unwrap()
}

fn text(p: &Path) -> String {
    p.to_str().unwrap().to_string()
}

#[test]
fn test_find_repo_root_finds_parent_with_tagfs() {
    let tmp = tempfile::tempdir().unwrap();
    let parent = subdir(tmp.path(), "parent");
    let child = subdir(parent.path(), "child");
    let _tagfs = subdir(parent.path(), DATA_DIR_NAME);

    let found = find_repo_root(&text(child.path())).unwrap();
    assert_eq!(found, text(parent.path()));
}

#[test]
fn test_find_repo_root_not_found() {
    let tmp = tempfile::tempdir().unwrap();
    let res = find_repo_root(&text(tmp.path()));
    assert!(res.is_err());
}

#[test]
fn test_open_or_create_db_creates_db_and_table() {
    let tmp = tempfile::tempdir().unwrap();
    let data_dir = subdir(tmp.path(), "data");

    let (conn, _) = open_or_create_db(&text(data_dir.path()), DB_FILENAME).unwrap();

    let db_path = data_dir.path().join(DB_FILENAME);
    assert!(db_path.exists());

    let mut stmt = conn
        .prepare("SELECT name FROM sqlite_master WHERE type='table' AND name='tracked_files';")
        .unwrap();
    let mut rows = stmt.query([]).unwrap();
    let found = rows.next().unwrap();
    assert!(found.is_some());
}

#[test]
fn opening_twice_keeps_the_schema_and_rows() {
    let tmp = tempfile::tempdir().unwrap();
    let _tagfs = subdir(tmp.path(), DATA_DIR_NAME);
    let root = text(tmp.path());
    let id = {
        let mut repo = Repo::connect(&root).unwrap();
        repo.new_tag("kept").unwrap()
    };
    let mut repo = Repo::connect(&root).unwrap();
    assert_eq!(repo.new_tag("kept").unwrap(), id);
}

#[test]
fn store_has_foreign_keys_on() {
    let tmp = tempfile::tempdir().unwrap();
    let data_dir = subdir(tmp.path(), "data");
    let (conn, _) = open_or_create_db(&text(data_dir.path()), DB_FILENAME).unwrap();
    let on: i64 = conn.query_row("PRAGMA foreign_keys;", [], |row| row.get(0)).unwrap();
    assert_eq!(on, 1);
}

#[test]
fn open_without_marker_initialises_at_start() {
    let tmp = tempfile::tempdir().unwrap();
    let start = text(tmp.path());
    let dir = root_or_start(find_repo_root(&start)).unwrap();
    assert_eq!(dir, start);
    let data_dir = data_dir_path(&dir);
    let _tagfs = subdir(tmp.path(), DATA_DIR_NAME);
    assert!(Path::new(&data_dir).is_dir());
    let mut repo = Repo::connect(&dir).unwrap();
    assert_eq!(repo.path(), start);
    assert_eq!(repo.data_dir(), text(&tmp.path().join(DATA_DIR_NAME)));
    assert!(Path::new(repo.data_dir()).join(DB_FILENAME).exists());
    assert_eq!(repo.update_tag("b", "a").unwrap(), None);
    let id = repo.new_tag("a").unwrap();
    assert_eq!(repo.update_tag("b", "a").unwrap(), Some(id));
}

#[test]
fn marker_two_levels_up_is_the_root() {
    let tmp = tempfile::tempdir().unwrap();
    let top = subdir(tmp.path(), "top");
    let _tagfs = subdir(top.path(), DATA_DIR_NAME);
    let middle = subdir(top.path(), "middle");
    let work = subdir(middle.path(), "work");
    let dir = root_or_start(find_repo_root(&text(work.path()))).unwrap();
    assert_eq!(dir, text(top.path()));
    assert_ne!(dir, text(work.path()));
    let repo = Repo::connect(&dir).unwrap();
    assert_eq!(repo.path(), text(top.path()));
}

#[test]
fn data_dir_path_appends_the_marker() {
    assert_eq!(data_dir_path("/home/user/repo"), "/home/user/repo/.tagfs");
    assert_eq!(data_dir_path("/"), "/.tagfs");
}

#[test]
fn search_found_here() {
    let mut search = RootSearch::new("/a/b");
    match search.advance(true) {
        SearchStep::Found(root) => assert_eq!(root, "/a/b"),
        other => panic!("unexpected {:?}", other),
    }
    assert_eq!(search.current(), "/a/b");
}

#[test]
fn search_moves_to_parent() {
    let mut search = RootSearch::new("/a/b");
    match search.advance(false) {
        SearchStep::Ascend(up) => assert_eq!(up, "/a"),
        other => panic!("unexpected {:?}", other),
    }
    assert_eq!(search.current(), "/a");
    assert_eq!(search.marker_path(), "/a/.tagfs");
}

#[test]
fn search_at_root_reports_the_start() {
    let mut search = RootSearch::new("/a");
    assert!(matches!(search.advance(false), SearchStep::Ascend(_)));
    match search.advance(false) {
        SearchStep::NotFound(start) => assert_eq!(start, "/a"),
        other => panic!("unexpected {:?}", other),
    }
}

#[test]
fn search_of_empty_path_ends_at_once() {
    let mut search = RootSearch::new("");
    match search.advance(false) {
        SearchStep::NotFound(start) => assert_eq!(start, ""),
        other => panic!("unexpected {:?}", other),
    }
}

#[test]
fn not_found_falls_back_to_start() {
    assert_eq!(root_or_start(Ok("/r".to_string())).unwrap(), "/r");
    assert_eq!(root_or_start(Err(RepoError::RepoNotFound("/s".to_string()))).unwrap(), "/s");
    let io = std::io::Error::new(std::io::ErrorKind::PermissionDenied, "denied");
    assert!(matches!(root_or_start(Err(RepoError::IO(io))), Err(RepoError::IO(_))));
}
