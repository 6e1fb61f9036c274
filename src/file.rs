//! Tracked files: their composite identity and the operations on them.

use vstd::prelude::*;
use crate::error::RepoError;
use crate::schema::Statement;
use crate::sqlite::{
    added, close_tx, extends, fetch, lookup, open_tx, rows_view, run, runs, uncommitted,
    values_view, SqlValue, SqlValueView, StoreCall,
};
use crate::tag::{name_params, tag_key, tag_upserted};

verus! {

/// The identity of a tracked file record: a caller-supplied stable identifier
/// together with the timestamp at which the record was first tracked.
#[derive(Debug)]
pub struct TrackedFileUid {
    file_id: String,
    create_ts: i64,
}

impl TrackedFileUid {
    /// The identifier as characters.
    pub closed spec fn id_view(&self) -> Seq<char> {
        self.file_id@
    }

    /// The creation timestamp.
    pub closed spec fn ts_view(&self) -> i64 {
        self.create_ts
    }

    pub fn new(file_id: String, create_ts: i64) -> (r: Self)
        ensures
            r.id_view() == file_id@,
            r.ts_view() == create_ts,
    {
        TrackedFileUid { file_id, create_ts }
    }

    pub fn file_id(&self) -> (r: &str)
        ensures
            r@ == self.id_view(),
    {
        self.file_id.as_str()
    }

    pub fn create_ts(&self) -> (r: &i64)
        ensures
            *r == self.ts_view(),
    {
        &self.create_ts
    }
}

/// Two identities are equal when both the identifier and the timestamp agree.
impl PartialEq for TrackedFileUid {
    fn eq(&self, other: &TrackedFileUid) -> (r: bool)
        ensures
            r == (self.id_view() == other.id_view() && self.ts_view() == other.ts_view()),
    {
        self.create_ts == other.create_ts && self.file_id == other.file_id
    }
}

impl vstd::std_specs::cmp::PartialEqSpecImpl for TrackedFileUid {
    open spec fn obeys_eq_spec() -> bool {
        true
    }

    open spec fn eq_spec(&self, other: &TrackedFileUid) -> bool {
        self.id_view() == other.id_view() && self.ts_view() == other.ts_view()
    }
}

impl Eq for TrackedFileUid {}

/// A tracked file record as the store reports it: its identity and current path.
#[derive(Debug)]
pub struct TrackedFile {
    pub identifier: TrackedFileUid,
    pub path: String,
}

impl TrackedFile {
    pub fn new(identifier: TrackedFileUid, path: &str) -> (r: Self)
        ensures
            r.identifier == identifier,
            r.path@ == path@,
    {
        TrackedFile { identifier, path: path.to_string() }
    }
}

/// The parameters that select the file record `(id, ts)`.
pub open spec fn file_key(id: Seq<char>, ts: i64) -> Seq<SqlValueView> {
    seq![SqlValueView::Text(id), SqlValueView::Integer(ts)]
}

/// The parameters that name the association of `(id, ts)` with the tag `tag_id`.
pub open spec fn link_key(id: Seq<char>, ts: i64, tag_id: i64) -> Seq<SqlValueView> {
    seq![SqlValueView::Text(id), SqlValueView::Integer(ts), SqlValueView::Integer(tag_id)]
}

/// `calls` create, for each of `names` in turn, the tag unless it exists, find
/// its id, and attach that id to the file record `(id, ts)` unless attached.
pub open spec fn attaches(id: Seq<char>, ts: i64, names: Seq<Seq<char>>, calls: Seq<StoreCall>) -> bool
    decreases names.len(),
{
    if names.len() == 0 {
        calls.len() == 0
    } else {
        let n = calls.len() as int;
        &&& n >= 3
        &&& attaches(id, ts, names.drop_last(), calls.subrange(0, n - 3))
        &&& tag_upserted(calls.subrange(n - 3, n - 1), names.last(), calls[n - 2]->found)
        &&& runs(calls[n - 1], Statement::InsertFileTag, link_key(id, ts, calls[n - 2]->found))
    }
}

/// `calls` find, for each of `names` in turn, the tag's id and detach it from
/// the file record `(id, ts)`.
pub open spec fn detaches(id: Seq<char>, ts: i64, names: Seq<Seq<char>>, calls: Seq<StoreCall>) -> bool
    decreases names.len(),
{
    if names.len() == 0 {
        calls.len() == 0
    } else {
        let n = calls.len() as int;
        &&& n >= 2
        &&& detaches(id, ts, names.drop_last(), calls.subrange(0, n - 2))
        &&& calls[n - 2] == StoreCall::Lookup {
            stmt: Statement::SelectTagId,
            params: tag_key(names.last()),
            found: calls[n - 2]->found,
        }
        &&& runs(calls[n - 1], Statement::DeleteFileTag, link_key(id, ts, calls[n - 2]->found))
    }
}

/// `calls` are one transaction: a begin, the calls `inner`, and a commit.
pub open spec fn committed_as(calls: Seq<StoreCall>, inner: spec_fn(Seq<StoreCall>) -> bool) -> bool {
    &&& calls.len() >= 2
    &&& calls[0] is Begin
    &&& inner(calls.subrange(1, calls.len() - 1))
    &&& calls[calls.len() - 1] is Commit
}

/// What a successful `new_tracked_file` sends to the store: the insert of the
/// record unless its key exists, then the tags attached in order.
pub open spec fn track_calls(calls: Seq<StoreCall>, id: Seq<char>, ts: i64, path: Seq<char>, names: Seq<
    Seq<char>,
>) -> bool {
    committed_as(
        calls,
        |inner: Seq<StoreCall>|
            inner.len() >= 1 && runs(inner[0], Statement::InsertFile, file_key(id, ts).push(SqlValueView::Text(path)))
                && attaches(id, ts, names, inner.subrange(1, inner.len() as int)),
    )
}

/// What a successful path update that reports `outcome` sends to the store:
/// one update of the record `(id, ts)`, committed when it changed a row, and
/// reported as `None` exactly when it changed none.
pub open spec fn path_update_calls(
    calls: Seq<StoreCall>,
    id: Seq<char>,
    ts: i64,
    new_path: Seq<char>,
    outcome: Option<()>,
) -> bool {
    &&& calls.len() >= 2
    &&& calls[0] is Begin
    &&& runs(calls[1], Statement::UpdatePath, seq![SqlValueView::Text(new_path)] + file_key(id, ts))
    &&& (outcome is None <==> calls[1]->changed == 0)
    &&& (outcome is None ==> calls.len() == 2)
    &&& (outcome is Some ==> calls.len() == 3 && calls[2] is Commit)
}

/// What a successful `delete_tracked_file` sends to the store.
pub open spec fn delete_file_calls(calls: Seq<StoreCall>, id: Seq<char>, ts: i64) -> bool {
    &&& calls.len() == 3
    &&& calls[0] is Begin
    &&& runs(calls[1], Statement::DeleteFile, file_key(id, ts))
    &&& calls[2] is Commit
}

/// What a successful search by the tags `names` sends to the store, and that
/// the records `files` are the rows its query returned, in order.
pub open spec fn find_calls(calls: Seq<StoreCall>, names: Seq<Seq<char>>, files: Seq<TrackedFile>) -> bool {
    &&& calls.len() == 3
    &&& calls[0] is Begin
    &&& calls[1] is Fetch
    &&& calls[1]->Fetch_stmt == Statement::SelectFilesByTags
    &&& calls[1]->Fetch_params == seq![SqlValueView::Text(json_string_array(names))]
    &&& files.len() == calls[1]->rows.len()
    &&& forall|k: int| 0 <= k < files.len() ==> file_matches(#[trigger] files[k], calls[1]->rows[k])
    &&& calls[2] is Commit
}

/// The characters of each name.
pub open spec fn names_view(names: Seq<&str>) -> Seq<Seq<char>> {
    names.map_values(|n: &str| n@)
}

/// `f` is the record that `row` describes.
pub open spec fn file_matches(f: TrackedFile, row: (Seq<char>, i64, Seq<char>)) -> bool {
    &&& f.identifier.id_view() == row.0
    &&& f.identifier.ts_view() == row.1
    &&& f.path@ == row.2
}

/// The parameters that select a file record: its identifier, then its timestamp.
pub fn key_params(identifier: &TrackedFileUid) -> (r: Vec<SqlValue>)
    ensures
        values_view(r@) == file_key(identifier.id_view(), identifier.ts_view()),
{
    let r = vec![
        SqlValue::Text(identifier.file_id().to_string()),
        SqlValue::Integer(*identifier.create_ts()),
    ];
    assert(values_view(r@) =~= file_key(identifier.id_view(), identifier.ts_view()));
    r
}

/// The parameters of a new file record: its key, then its path.
pub fn record_params(identifier: &TrackedFileUid, path: &str) -> (r: Vec<SqlValue>)
    ensures
        values_view(r@) == file_key(identifier.id_view(), identifier.ts_view()).push(
            SqlValueView::Text(path@),
        ),
{
    let r = vec![
        SqlValue::Text(identifier.file_id().to_string()),
        SqlValue::Integer(*identifier.create_ts()),
        SqlValue::Text(path.to_string()),
    ];
    assert(values_view(r@) =~= file_key(identifier.id_view(), identifier.ts_view()).push(
        SqlValueView::Text(path@),
    ));
    r
}

/// The parameters that name one association: the file's key, then the tag id.
pub fn link_params(identifier: &TrackedFileUid, tag_id: i64) -> (r: Vec<SqlValue>)
    ensures
        values_view(r@) == link_key(identifier.id_view(), identifier.ts_view(), tag_id),
{
    let r = vec![
        SqlValue::Text(identifier.file_id().to_string()),
        SqlValue::Integer(*identifier.create_ts()),
        SqlValue::Integer(tag_id),
    ];
    assert(values_view(r@) =~= link_key(identifier.id_view(), identifier.ts_view(), tag_id));
    r
}

/// The parameters of a path update: the new path, then the file's key.
pub fn path_params(identifier: &TrackedFileUid, new_path: &str) -> (r: Vec<SqlValue>)
    ensures
        values_view(r@) == seq![SqlValueView::Text(new_path@)] + file_key(
            identifier.id_view(),
            identifier.ts_view(),
        ),
{
    let r = vec![
        SqlValue::Text(new_path.to_string()),
        SqlValue::Text(identifier.file_id().to_string()),
        SqlValue::Integer(*identifier.create_ts()),
    ];
    assert(values_view(r@) =~= seq![SqlValueView::Text(new_path@)] + file_key(
        identifier.id_view(),
        identifier.ts_view(),
    ));
    r
}

/// Within `tx`, creates each tag of `tag_names` unless it exists and attaches
/// it to the file `identifier` unless already attached.
fn attach_tags(
    tx: &rusqlite::Transaction,
    calls: &mut Ghost<Seq<StoreCall>>,
    identifier: &TrackedFileUid,
    tag_names: &[&str],
) -> (r: Result<(), RepoError>)
    ensures
        r is Ok ==> extends(old(calls)@, final(calls)@) && attaches(
            identifier.id_view(),
            identifier.ts_view(),
            names_view(tag_names@),
            added(old(calls)@, final(calls)@),
        ),
        uncommitted(old(calls)@, final(calls)@),
{
    let ghost base = calls@;
    let ghost id = identifier.id_view();
    let ghost ts = identifier.ts_view();
    let mut i: usize = 0;
    assert(added(base, calls@) =~= Seq::<StoreCall>::empty());
    assert(names_view(tag_names@).take(0) =~= Seq::<Seq<char>>::empty());
    while i < tag_names.len()
        invariant
            i <= tag_names@.len(),
            id == identifier.id_view(),
            ts == identifier.ts_view(),
            base == old(calls)@,
            extends(base, calls@),
            uncommitted(base, calls@),
            attaches(id, ts, names_view(tag_names@).take(i as int), added(base, calls@)),
        decreases tag_names@.len() - i,
    {
        let ghost seg = added(base, calls@);
        let tag_name: &str = tag_names[i];
        run(tx, calls, Statement::InsertTag, &name_params(tag_name))?;
        let tag_id = lookup(tx, calls, Statement::SelectTagId, &name_params(tag_name))?;
        run(tx, calls, Statement::InsertFileTag, &link_params(identifier, tag_id))?;
        proof {
            let names = names_view(tag_names@);
            let next = added(base, calls@);
            let n = next.len() as int;
            assert(names.take(i + 1).drop_last() =~= names.take(i as int));
            assert(names.take(i + 1).last() == tag_name@);
            assert(next.subrange(0, n - 3) =~= seg);
            assert(next.subrange(n - 3, n - 1) =~= seq![next[n - 3], next[n - 2]]);
        }
        i = i + 1;
    }
    assert(names_view(tag_names@).take(i as int) =~= names_view(tag_names@));
    Ok(())
}

/// Tracks the file `identifier` at `path` with the tags `tag_names`, creating
/// tags that do not exist yet. A record that already exists under this key
/// keeps its path. Runs as one transaction, so calling it again with the same
/// arguments changes nothing.
pub fn new_tracked_file(
    conn: &mut rusqlite::Connection,
    calls: &mut Ghost<Seq<StoreCall>>,
    identifier: &TrackedFileUid,
    path: &str,
    tag_names: &[&str],
) -> (r: Result<(), RepoError>)
    ensures
        r is Ok ==> extends(old(calls)@, final(calls)@) && track_calls(
            added(old(calls)@, final(calls)@),
            identifier.id_view(),
            identifier.ts_view(),
            path@,
            names_view(tag_names@),
        ),
        r is Err ==> uncommitted(old(calls)@, final(calls)@),
{
    let ghost before = calls@;
    let tx = open_tx(conn, calls)?;
    run(&tx, calls, Statement::InsertFile, &record_params(identifier, path))?;
    let ghost head = calls@;
    attach_tags(&tx, calls, identifier, tag_names)?;
    let ghost tags = added(head, calls@);
    close_tx(tx, calls)?;
    proof {
        let all = added(before, calls@);
        let inner = all.subrange(1, all.len() - 1);
        assert(inner.subrange(1, inner.len() as int) =~= tags);
    }
    Ok(())
}

/// Attaches the tags `tag_names` to the file `identifier`, creating tags that do
/// not exist yet; fails, committing nothing, when no such file is tracked.
pub fn add_tags_to_tracked_file(
    conn: &mut rusqlite::Connection,
    calls: &mut Ghost<Seq<StoreCall>>,
    identifier: &TrackedFileUid,
    tag_names: &[&str],
) -> (r: Result<(), RepoError>)
    ensures
        r is Ok ==> extends(old(calls)@, final(calls)@) && committed_as(
            added(old(calls)@, final(calls)@),
            |inner: Seq<StoreCall>|
                attaches(identifier.id_view(), identifier.ts_view(), names_view(tag_names@), inner),
        ),
        r is Err ==> uncommitted(old(calls)@, final(calls)@),
{
    let ghost before = calls@;
    let tx = open_tx(conn, calls)?;
    let ghost head = calls@;
    attach_tags(&tx, calls, identifier, tag_names)?;
    let ghost tags = added(head, calls@);
    close_tx(tx, calls)?;
    proof {
        let all = added(before, calls@);
        assert(all.subrange(1, all.len() - 1) =~= tags);
    }
    Ok(())
}

/// What a path update reports, given how many rows it changed.
pub fn update_outcome(changed: usize) -> (r: Option<()>)
    ensures
        r is None <==> changed == 0,
{
    if changed == 0 {
        None
    } else {
        Some(())
    }
}

/// Sets the path of the file `identifier` to `new_path`; `None` when no such
/// file is tracked.
pub fn update_tracked_file_path(
    conn: &mut rusqlite::Connection,
    calls: &mut Ghost<Seq<StoreCall>>,
    identifier: &TrackedFileUid,
    new_path: &str,
) -> (r: Result<Option<()>, RepoError>)
    ensures
        r matches Ok(outcome) ==> extends(old(calls)@, final(calls)@) && path_update_calls(
            added(old(calls)@, final(calls)@),
            identifier.id_view(),
            identifier.ts_view(),
            new_path@,
            outcome,
        ),
        r matches Ok(None) ==> uncommitted(old(calls)@, final(calls)@),
        r is Err ==> uncommitted(old(calls)@, final(calls)@),
{
    let tx = open_tx(conn, calls)?;
    let changed = run(&tx, calls, Statement::UpdatePath, &path_params(identifier, new_path))?;
    if changed == 0 {
        return Ok(update_outcome(changed));
    }
    close_tx(tx, calls)?;
    Ok(update_outcome(changed))
}

/// Stops tracking the file `identifier`; its associations go with it.
pub fn delete_tracked_file(
    conn: &mut rusqlite::Connection,
    calls: &mut Ghost<Seq<StoreCall>>,
    identifier: &TrackedFileUid,
) -> (r: Result<(), RepoError>)
    ensures
        r is Ok ==> extends(old(calls)@, final(calls)@) && delete_file_calls(
            added(old(calls)@, final(calls)@),
            identifier.id_view(),
            identifier.ts_view(),
        ),
        r is Err ==> uncommitted(old(calls)@, final(calls)@),
{
    let tx = open_tx(conn, calls)?;
    run(&tx, calls, Statement::DeleteFile, &key_params(identifier))?;
    close_tx(tx, calls)
}

/// Detaches the tags `tag_names` from the file `identifier`. A name that no tag
/// has is a failure, and then nothing is committed.
pub fn delete_tags_from_tracked_file(
    conn: &mut rusqlite::Connection,
    calls: &mut Ghost<Seq<StoreCall>>,
    identifier: &TrackedFileUid,
    tag_names: &[&str],
) -> (r: Result<(), RepoError>)
    ensures
        r is Ok ==> extends(old(calls)@, final(calls)@) && committed_as(
            added(old(calls)@, final(calls)@),
            |inner: Seq<StoreCall>|
                detaches(identifier.id_view(), identifier.ts_view(), names_view(tag_names@), inner),
        ),
        r is Err ==> uncommitted(old(calls)@, final(calls)@),
{
    let ghost before = calls@;
    let ghost id = identifier.id_view();
    let ghost ts = identifier.ts_view();
    let tx = open_tx(conn, calls)?;
    let ghost base = calls@;
    let mut i: usize = 0;
    assert(added(base, calls@) =~= Seq::<StoreCall>::empty());
    assert(names_view(tag_names@).take(0) =~= Seq::<Seq<char>>::empty());
    while i < tag_names.len()
        invariant
            i <= tag_names@.len(),
            id == identifier.id_view(),
            ts == identifier.ts_view(),
            before == old(calls)@,
            extends(before, base),
            base.len() == before.len() + 1,
            base[before.len() as int] is Begin,
            extends(base, calls@),
            uncommitted(before, calls@),
            detaches(id, ts, names_view(tag_names@).take(i as int), added(base, calls@)),
        decreases tag_names@.len() - i,
    {
        let ghost seg = added(base, calls@);
        let tag_name: &str = tag_names[i];
        let tag_id = lookup(&tx, calls, Statement::SelectTagId, &name_params(tag_name))?;
        run(&tx, calls, Statement::DeleteFileTag, &link_params(identifier, tag_id))?;
        proof {
            let names = names_view(tag_names@);
            let next = added(base, calls@);
            let n = next.len() as int;
            assert(names.take(i + 1).drop_last() =~= names.take(i as int));
            assert(names.take(i + 1).last() == tag_name@);
            assert(next.subrange(0, n - 2) =~= seg);
        }
        i = i + 1;
    }
    assert(names_view(tag_names@).take(i as int) =~= names_view(tag_names@));
    let ghost inner = added(base, calls@);
    close_tx(tx, calls)?;
    proof {
        let all = added(before, calls@);
        assert(all.subrange(1, all.len() - 1) =~= inner);
    }
    Ok(())
}

/// The records that the rows of a file query describe, one for each row, in
/// the same order.
pub fn files_from_rows(rows: Vec<(String, i64, String)>) -> (r: Vec<TrackedFile>)
    ensures
        r@.len() == rows@.len(),
        forall|k: int| 0 <= k < rows@.len() ==> file_matches(#[trigger] r@[k], rows_view(rows@)[k]),
{
    let mut r: Vec<TrackedFile> = Vec::new();
    let mut i: usize = 0;
    while i < rows.len()
        invariant
            i <= rows@.len(),
            r@.len() == i,
            forall|k: int| 0 <= k < i ==> file_matches(#[trigger] r@[k], rows_view(rows@)[k]),
        decreases rows@.len() - i,
    {
        let row = &rows[i];
        let identifier = TrackedFileUid::new(row.0.clone(), row.1);
        r.push(TrackedFile::new(identifier, row.2.as_str()));
        i = i + 1;
    }
    r
}

/// Every tracked file that carries at least one of the tags `tag_names`, with
/// its current path; a file appears once for each of those tags it carries.
/// The result is exactly what the one query of the transaction returned; what
/// that query returns is stated in `model::answers`.
pub fn get_tracked_files_by_tags(
    conn: &mut rusqlite::Connection,
    calls: &mut Ghost<Seq<StoreCall>>,
    tag_names: &[&str],
) -> (r: Result<Vec<TrackedFile>, RepoError>)
    ensures
        r matches Ok(files) ==> extends(old(calls)@, final(calls)@) && find_calls(
            added(old(calls)@, final(calls)@),
            names_view(tag_names@),
            files@,
        ),
        r is Err ==> uncommitted(old(calls)@, final(calls)@),
{
    let names_json = json_array(tag_names);
    let tx = open_tx(conn, calls)?;
    let params = vec![SqlValue::Text(names_json)];
    assert(values_view(params@) =~= seq![SqlValueView::Text(json_string_array(names_view(tag_names@)))]);
    let rows = fetch(&tx, calls, Statement::SelectFilesByTags, &params)?;
    close_tx(tx, calls)?;
    Ok(files_from_rows(rows))
}

/// The JSON text of an array of strings, as serde_json writes it.
pub uninterp spec fn json_string_array(items: Seq<Seq<char>>) -> Seq<char>;

/// Relies on serde_json::Value::from on a vector and its Display impl: the
/// compact JSON text of an array holding the names as strings, in order.
#[verifier::external_body]
fn json_array(names: &[&str]) -> (r: String)
    ensures
        r@ == json_string_array(names_view(names@)),
{
    serde_json::Value::from(names.to_vec()).to_string()
}

} // verus!
