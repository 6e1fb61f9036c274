use tagfs_core::{Repo, RepoError, TrackedFileUid, DATA_DIR_NAME};

struct Fixture {
    repo: Repo,
    _marker: tempfile::TempDir,
    _root: tempfile::TempDir,
}

fn fresh_repo() -> Fixture {
    let root = tempfile::tempdir().unwrap();
    let marker = tempfile::Builder::new()
        .prefix(DATA_DIR_NAME)
        .rand_bytes(0)
        .tempdir_in(root.path())
        .unwrap();
    let repo = Repo::connect(root.path().to_str().unwrap()).unwrap();
    Fixture { repo, _marker: marker, _root: root }
}

fn count(repo: &Repo, sql: &str) -> i64 {
    repo.connection().query_row(sql, [], |row| row.get(0)).unwrap()
}

fn tags(repo: &Repo) -> Vec<(i64, String)> {
    let mut stmt = repo.connection().prepare("SELECT tag_id, name FROM tags ORDER BY tag_id").unwrap();
    let rows = stmt.query_map([], |row| Ok((row.get(0)?, row.get(1)?))).unwrap();
    rows.map(|r| r.unwrap()).collect()
}

fn tags_of(repo: &Repo, file_id: &str, create_ts: i64) -> Vec<String> {
    let mut stmt = repo
        .connection()
        .prepare(
            "SELECT t.name FROM file_tags ft JOIN tags t ON ft.tag_id = t.tag_id \
             WHERE ft.file_id = ?1 AND ft.createTs = ?2 ORDER BY t.name",
        )
        .unwrap();
    let rows = stmt
        .query_map((file_id, create_ts), |row| row.get(0))
        .unwrap();
    rows.map(|r| r.unwrap()).collect()
}

fn uid(file_id: &str, create_ts: i64) -> TrackedFileUid {
    TrackedFileUid::new(file_id.to_string(), create_ts)
}

fn found_ids(repo: &mut Repo, names: &[&str]) -> Vec<String> {
    let mut ids: Vec<String> = repo
        .find_files_by_tags(names)
        .unwrap()
        .iter()
        .map(|f| f.identifier.file_id().to_string())
        .collect();
    ids.sort();
    ids.dedup();
    ids
}

#[test]
fn create_tag_twice_gives_one_id() {
    let mut f = fresh_repo();
    let first = f.repo.new_tag("music").unwrap();
    let second = f.repo.new_tag("music").unwrap();
    assert_eq!(first, second);
    assert_eq!(count(&f.repo, "SELECT COUNT(*) FROM tags WHERE name = 'music'"), 1);
}

#[test]
fn distinct_tags_get_distinct_ids() {
    let mut f = fresh_repo();
    let a = f.repo.new_tag("a").unwrap();
    let b = f.repo.new_tag("b").unwrap();
    assert_ne!(a, b);
}

#[test]
fn rename_of_missing_tag_reports_none() {
    let mut f = fresh_repo();
    f.repo.new_tag("kept").unwrap();
    let before = tags(&f.repo);
    assert_eq!(f.repo.update_tag("new", "absent").unwrap(), None);
    assert_eq!(tags(&f.repo), before);
}

#[test]
fn rename_onto_taken_name_fails_and_changes_nothing() {
    let mut f = fresh_repo();
    f.repo.new_tag("a").unwrap();
    f.repo.new_tag("b").unwrap();
    let before = tags(&f.repo);
    let r = f.repo.update_tag("b", "a");
    assert!(matches!(r, Err(RepoError::Database(_))));
    assert_eq!(tags(&f.repo), before);
}

#[test]
fn rename_keeps_the_id() {
    let mut f = fresh_repo();
    let id = f.repo.new_tag("old").unwrap();
    assert_eq!(f.repo.update_tag("new", "old").unwrap(), Some(id));
    assert_eq!(tags(&f.repo), vec![(id, "new".to_string())]);
}

#[test]
fn tracking_twice_is_idempotent() {
    let mut f = fresh_repo();
    let id = uid("f1", 10);
    f.repo.new_tracked_file(&id, "/a/path", &["a", "b"]).unwrap();
    f.repo.new_tracked_file(&id, "/a/path", &["a", "b"]).unwrap();
    assert_eq!(count(&f.repo, "SELECT COUNT(*) FROM tracked_files"), 1);
    assert_eq!(count(&f.repo, "SELECT COUNT(*) FROM file_tags"), 2);
    assert_eq!(count(&f.repo, "SELECT COUNT(*) FROM tags"), 2);
}

#[test]
fn tracking_again_keeps_the_first_path() {
    let mut f = fresh_repo();
    let id = uid("f1", 10);
    f.repo.new_tracked_file(&id, "/first", &[]).unwrap();
    f.repo.new_tracked_file(&id, "/second", &[]).unwrap();
    let files = f.repo.find_files_by_tags(&[]).unwrap();
    assert!(files.is_empty());
    let path: String = f
        .repo
        .connection()
        .query_row("SELECT path FROM tracked_files", [], |row| row.get(0))
        .unwrap();
    assert_eq!(path, "/first");
}

#[test]
fn same_id_at_another_time_is_another_record() {
    let mut f = fresh_repo();
    f.repo.new_tracked_file(&uid("f1", 10), "/p", &["a"]).unwrap();
    f.repo.new_tracked_file(&uid("f1", 20), "/p", &["a"]).unwrap();
    assert_eq!(count(&f.repo, "SELECT COUNT(*) FROM tracked_files"), 2);
    assert_eq!(count(&f.repo, "SELECT COUNT(*) FROM file_tags"), 2);
}

#[test]
fn deleting_a_file_removes_its_associations() {
    let mut f = fresh_repo();
    let id = uid("f1", 10);
    f.repo.new_tracked_file(&id, "/p", &["a", "b"]).unwrap();
    f.repo.delete_tracked_file(&id).unwrap();
    assert!(tags_of(&f.repo, "f1", 10).is_empty());
    assert_eq!(count(&f.repo, "SELECT COUNT(*) FROM file_tags"), 0);
    assert_eq!(count(&f.repo, "SELECT COUNT(*) FROM tracked_files"), 0);
}

#[test]
fn deleting_a_tag_keeps_files_and_their_other_tags() {
    let mut f = fresh_repo();
    f.repo.new_tracked_file(&uid("f1", 1), "/one", &["x", "y"]).unwrap();
    f.repo.new_tracked_file(&uid("f2", 2), "/two", &["x"]).unwrap();
    assert_eq!(f.repo.delete_tag("x").unwrap(), 1);
    assert_eq!(count(&f.repo, "SELECT COUNT(*) FROM tracked_files"), 2);
    assert_eq!(tags_of(&f.repo, "f1", 1), vec!["y".to_string()]);
    assert!(tags_of(&f.repo, "f2", 2).is_empty());
}

#[test]
fn deleting_a_missing_tag_counts_zero() {
    let mut f = fresh_repo();
    assert_eq!(f.repo.delete_tag("absent").unwrap(), 0);
}

#[test]
fn find_by_tags_is_a_union() {
    let mut f = fresh_repo();
    f.repo.new_tracked_file(&uid("A", 1), "/a", &["x", "y"]).unwrap();
    f.repo.new_tracked_file(&uid("B", 2), "/b", &["y", "z"]).unwrap();
    assert_eq!(found_ids(&mut f.repo, &["x"]), vec!["A".to_string()]);
    assert_eq!(found_ids(&mut f.repo, &["y"]), vec!["A".to_string(), "B".to_string()]);
    assert_eq!(found_ids(&mut f.repo, &["x", "z"]), vec!["A".to_string(), "B".to_string()]);
    assert!(found_ids(&mut f.repo, &["w"]).is_empty());
}

#[test]
fn find_by_tags_reports_paths_and_timestamps() {
    let mut f = fresh_repo();
    f.repo.new_tracked_file(&uid("A", 7), "/a \"quoted\"", &["tag with \"quote\""]).unwrap();
    let files = f.repo.find_files_by_tags(&["tag with \"quote\""]).unwrap();
    assert_eq!(files.len(), 1);
    assert_eq!(files[0].identifier.file_id(), "A");
    assert_eq!(*files[0].identifier.create_ts(), 7);
    assert_eq!(files[0].path, "/a \"quoted\"");
}

#[test]
fn updating_a_path() {
    let mut f = fresh_repo();
    let id = uid("f1", 10);
    f.repo.new_tracked_file(&id, "/old", &["a"]).unwrap();
    assert_eq!(f.repo.update_tracked_file_path(&id, "/new").unwrap(), Some(()));
    let files = f.repo.find_files_by_tags(&["a"]).unwrap();
    assert_eq!(files[0].path, "/new");
    assert_eq!(f.repo.update_tracked_file_path(&uid("f1", 11), "/x").unwrap(), None);
}

#[test]
fn adding_tags_creates_them_once() {
    let mut f = fresh_repo();
    let id = uid("f1", 10);
    f.repo.new_tracked_file(&id, "/p", &["a"]).unwrap();
    f.repo.add_tag_to_Tracked_file(&id, &["a", "b", "c"]).unwrap();
    assert_eq!(tags_of(&f.repo, "f1", 10), vec!["a", "b", "c"]);
    assert_eq!(count(&f.repo, "SELECT COUNT(*) FROM tags"), 3);
}

#[test]
fn adding_tags_to_an_untracked_file_fails() {
    let mut f = fresh_repo();
    let r = f.repo.add_tag_to_Tracked_file(&uid("ghost", 1), &["a"]);
    assert!(matches!(r, Err(RepoError::Database(_))));
    assert_eq!(count(&f.repo, "SELECT COUNT(*) FROM file_tags"), 0);
    assert_eq!(count(&f.repo, "SELECT COUNT(*) FROM tags"), 0);
}

#[test]
fn removing_tags_detaches_them() {
    let mut f = fresh_repo();
    let id = uid("f1", 10);
    f.repo.new_tracked_file(&id, "/p", &["a", "b", "c"]).unwrap();
    f.repo.delete_tag_from_tracked_file(&id, &["a", "c"]).unwrap();
    assert_eq!(tags_of(&f.repo, "f1", 10), vec!["b"]);
    assert_eq!(count(&f.repo, "SELECT COUNT(*) FROM tags"), 3);
}

#[test]
fn removing_tags_only_touches_that_record() {
    let mut f = fresh_repo();
    f.repo.new_tracked_file(&uid("f1", 1), "/p", &["a"]).unwrap();
    f.repo.new_tracked_file(&uid("f1", 2), "/p", &["a"]).unwrap();
    f.repo.delete_tag_from_tracked_file(&uid("f1", 1), &["a"]).unwrap();
    assert!(tags_of(&f.repo, "f1", 1).is_empty());
    assert_eq!(tags_of(&f.repo, "f1", 2), vec!["a"]);
}

#[test]
fn removing_an_unknown_tag_fails_and_detaches_nothing() {
    let mut f = fresh_repo();
    let id = uid("f1", 10);
    f.repo.new_tracked_file(&id, "/p", &["a"]).unwrap();
    let r = f.repo.delete_tag_from_tracked_file(&id, &["a", "unknown"]);
    assert!(matches!(r, Err(RepoError::Database(_))));
    assert_eq!(tags_of(&f.repo, "f1", 10), vec!["a"]);
}

#[test]
fn searching_twice_gives_the_same_sequence() {
    let mut f = fresh_repo();
    f.repo.new_tracked_file(&uid("A", 1), "/a", &["x", "y"]).unwrap();
    f.repo.new_tracked_file(&uid("B", 2), "/b", &["y", "z"]).unwrap();
    let show = |files: Vec<tagfs_core::TrackedFile>| -> Vec<(String, i64, String)> {
        files
            .iter()
            .map(|f| (f.identifier.file_id().to_string(), *f.identifier.create_ts(), f.path.clone()))
            .collect()
    };
    let first = show(f.repo.find_files_by_tags(&["x", "y", "z"]).unwrap());
    let second = show(f.repo.find_files_by_tags(&["x", "y", "z"]).unwrap());
    assert_eq!(first, second);
    assert_eq!(first.iter().filter(|r| r.0 == "A").count(), 2);
    assert_eq!(first.iter().filter(|r| r.0 == "B").count(), 2);
}
