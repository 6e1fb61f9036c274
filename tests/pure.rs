use tagfs_core::file::{files_from_rows, key_params, link_params, path_params, record_params, update_outcome};
use tagfs_core::sqlite::SqlValue;
use tagfs_core::tag::{name_params, rename_outcome, rename_params};
use tagfs_core::error::from_store;
use tagfs_core::{RepoError, TrackedFile, TrackedFileUid};

fn show(v: &[SqlValue]) -> Vec<String> {
    v.iter()
        .map(|p| match p {
            SqlValue::Text(s) => format!("t:{}", s),
            SqlValue::Integer(i) => format!("i:{}", i),
        })
        .collect()
}

#[test]
fn uid_keeps_both_fields() {
    let uid = TrackedFileUid::new("abc".to_string(), -5);
    assert_eq!(uid.file_id(), "abc");
    assert_eq!(*uid.create_ts(), -5);
}

#[test]
fn uid_equality_needs_both_fields() {
    let a = TrackedFileUid::new("abc".to_string(), 1);
    assert!(a == TrackedFileUid::new("abc".to_string(), 1));
    assert!(a != TrackedFileUid::new("abc".to_string(), 2));
    assert!(a != TrackedFileUid::new("abd".to_string(), 1));
}

#[test]
fn tracked_file_new_copies_path() {
    let f = TrackedFile::new(TrackedFileUid::new("x".to_string(), 3), "/p/q");
    assert_eq!(f.path, "/p/q");
    assert_eq!(f.identifier.file_id(), "x");
    assert_eq!(*f.identifier.create_ts(), 3);
}

#[test]
fn parameters_follow_the_statements() {
    let uid = TrackedFileUid::new("id".to_string(), 42);
    assert_eq!(show(&key_params(&uid)), vec!["t:id", "i:42"]);
    assert_eq!(show(&record_params(&uid, "/p")), vec!["t:id", "i:42", "t:/p"]);
    assert_eq!(show(&link_params(&uid, 7)), vec!["t:id", "i:42", "i:7"]);
    assert_eq!(show(&path_params(&uid, "/n")), vec!["t:/n", "t:id", "i:42"]);
    assert_eq!(show(&name_params("tag")), vec!["t:tag"]);
    assert_eq!(show(&rename_params("new", "old")), vec!["t:new", "t:old"]);
}

#[test]
fn outcomes_of_changed_counts() {
    assert_eq!(rename_outcome(0, 9), None);
    assert_eq!(rename_outcome(1, 9), Some(9));
    assert_eq!(update_outcome(0), None);
    assert_eq!(update_outcome(1), Some(()));
}

#[test]
fn rows_become_records_in_order() {
    let rows = vec![
        ("a".to_string(), 1, "/a".to_string()),
        ("b".to_string(), 2, "/b".to_string()),
    ];
    let files = files_from_rows(rows);
    assert_eq!(files.len(), 2);
    assert_eq!(files[0].identifier.file_id(), "a");
    assert_eq!(*files[1].identifier.create_ts(), 2);
    assert_eq!(files[1].path, "/b");
    assert!(files_from_rows(Vec::new()).is_empty());
}

#[test]
fn store_failures_become_database_errors() {
    assert!(matches!(from_store::<i64>(Ok(3)), Ok(3)));
    let r = from_store::<i64>(Err(rusqlite::Error::QueryReturnedNoRows));
    assert!(matches!(r, Err(RepoError::Database(rusqlite::Error::QueryReturnedNoRows))));
}
