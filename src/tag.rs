//! Tags: uniquely named labels with a surrogate integer id.

use vstd::prelude::*;
use crate::error::RepoError;
use crate::schema::Statement;
use crate::sqlite::{
    added, close_tx, extends, lookup, open_tx, run, runs, uncommitted, values_view, SqlValue,
    SqlValueView, StoreCall,
};

verus! {

/// The parameters that select the tag named `name`.
pub open spec fn tag_key(name: Seq<char>) -> Seq<SqlValueView> {
    seq![SqlValueView::Text(name)]
}

/// `calls` create the tag `name` unless it exists and find its id, `id`.
pub open spec fn tag_upserted(calls: Seq<StoreCall>, name: Seq<char>, id: i64) -> bool {
    &&& calls.len() == 2
    &&& runs(calls[0], Statement::InsertTag, tag_key(name))
    &&& calls[1] == StoreCall::Lookup { stmt: Statement::SelectTagId, params: tag_key(name), found: id }
}

/// What a successful `new_tag(name)` that reports `id` sends to the store.
pub open spec fn new_tag_calls(calls: Seq<StoreCall>, name: Seq<char>, id: i64) -> bool {
    &&& calls.len() == 4
    &&& calls[0] is Begin
    &&& tag_upserted(calls.subrange(1, 3), name, id)
    &&& calls[3] is Commit
}

/// What a successful `update_tag(new_name, previous_name)` that reports
/// `outcome` sends to the store: with `None`, one rename that changed no row,
/// never committed; with `Some(id)`, a rename that changed a row, the lookup
/// of `new_name` that found `id`, and the commit.
pub open spec fn update_tag_calls(
    calls: Seq<StoreCall>,
    new_name: Seq<char>,
    previous_name: Seq<char>,
    outcome: Option<i64>,
) -> bool {
    let rename = seq![SqlValueView::Text(new_name), SqlValueView::Text(previous_name)];
    match outcome {
        None => {
            &&& calls.len() == 2
            &&& calls[0] is Begin
            &&& calls[1] == StoreCall::Run { stmt: Statement::RenameTag, params: rename, changed: 0 }
        },
        Some(id) => {
            &&& calls.len() == 4
            &&& calls[0] is Begin
            &&& runs(calls[1], Statement::RenameTag, rename)
            &&& calls[1]->changed > 0
            &&& calls[2] == StoreCall::Lookup { stmt: Statement::SelectTagId, params: tag_key(new_name), found: id }
            &&& calls[3] is Commit
        },
    }
}

/// What a successful `delete_tag(name)` that reports `count` sends to the store.
pub open spec fn delete_tag_calls(calls: Seq<StoreCall>, name: Seq<char>, count: usize) -> bool {
    &&& calls.len() == 3
    &&& calls[0] is Begin
    &&& calls[1] == StoreCall::Run { stmt: Statement::DeleteTag, params: tag_key(name), changed: count as nat }
    &&& calls[2] is Commit
}

/// The parameters that select a tag by name.
pub fn name_params(name: &str) -> (r: Vec<SqlValue>)
    ensures
        values_view(r@) == tag_key(name@),
{
    let r = vec![SqlValue::Text(name.to_string())];
    assert(values_view(r@) =~= tag_key(name@));
    r
}

/// The parameters of a rename: the new name, then the name being replaced.
pub fn rename_params(new_name: &str, previous_name: &str) -> (r: Vec<SqlValue>)
    ensures
        values_view(r@) == seq![SqlValueView::Text(new_name@), SqlValueView::Text(previous_name@)],
{
    let r = vec![SqlValue::Text(new_name.to_string()), SqlValue::Text(previous_name.to_string())];
    assert(values_view(r@) =~= seq![
        SqlValueView::Text(new_name@),
        SqlValueView::Text(previous_name@),
    ]);
    r
}

/// Creates the tag `tag_name` unless it exists, and returns its id either way.
/// Runs as one transaction.
pub fn new_tag(conn: &mut rusqlite::Connection, calls: &mut Ghost<Seq<StoreCall>>, tag_name: &str) -> (r:
    Result<i64, RepoError>)
    ensures
        r matches Ok(id) ==> extends(old(calls)@, final(calls)@) && new_tag_calls(
            added(old(calls)@, final(calls)@),
            tag_name@,
            id,
        ),
        r is Err ==> uncommitted(old(calls)@, final(calls)@),
{
    let tx = open_tx(conn, calls)?;
    run(&tx, calls, Statement::InsertTag, &name_params(tag_name))?;
    let tag_id = lookup(&tx, calls, Statement::SelectTagId, &name_params(tag_name))?;
    close_tx(tx, calls)?;
    Ok(tag_id)
}

/// What a rename reports, given how many rows the update changed and the id
/// that the new name then has.
pub fn rename_outcome(changed: usize, tag_id: i64) -> (r: Option<i64>)
    ensures
        r == (if changed == 0 { None::<i64> } else { Some(tag_id) }),
{
    if changed == 0 {
        None
    } else {
        Some(tag_id)
    }
}

/// Renames the tag `previous_name` to `new_name` and returns its id; `None`
/// when no tag has that name. A rename onto a name that another tag holds is
/// refused by the store, and then nothing is committed.
pub fn update_tag(
    conn: &mut rusqlite::Connection,
    calls: &mut Ghost<Seq<StoreCall>>,
    new_name: &str,
    previous_name: &str,
) -> (r: Result<Option<i64>, RepoError>)
    ensures
        r matches Ok(outcome) ==> extends(old(calls)@, final(calls)@) && update_tag_calls(
            added(old(calls)@, final(calls)@),
            new_name@,
            previous_name@,
            outcome,
        ),
        r matches Ok(None) ==> uncommitted(old(calls)@, final(calls)@),
        r is Err ==> uncommitted(old(calls)@, final(calls)@),
{
    let tx = open_tx(conn, calls)?;
    let changed = run(&tx, calls, Statement::RenameTag, &rename_params(new_name, previous_name))?;
    if changed == 0 {
        return Ok(rename_outcome(changed, 0));
    }
    let tag_id = lookup(&tx, calls, Statement::SelectTagId, &name_params(new_name))?;
    close_tx(tx, calls)?;
    Ok(rename_outcome(changed, tag_id))
}

/// Deletes the tag `tag_name`, and with it every association that refers to
/// it; returns how many tags were deleted (0 or 1).
pub fn delete_tag(conn: &mut rusqlite::Connection, calls: &mut Ghost<Seq<StoreCall>>, tag_name: &str) -> (r:
    Result<usize, RepoError>)
    ensures
        r matches Ok(count) ==> extends(old(calls)@, final(calls)@) && delete_tag_calls(
            added(old(calls)@, final(calls)@),
            tag_name@,
            count,
        ),
        r is Err ==> uncommitted(old(calls)@, final(calls)@),
{
    let tx = open_tx(conn, calls)?;
    let affected = run(&tx, calls, Statement::DeleteTag, &name_params(tag_name))?;
    close_tx(tx, calls)?;
    Ok(affected)
}

} // verus!
