//! The boundary with SQLite: the outside types the store passes around, one
//! trusted wrapper for each rusqlite call the store makes, and the log of the
//! calls the store accepted.
//!
//! What a statement does to the stored rows is SQLite's behaviour on a file on
//! disk, so the wrappers promise nothing about the values that come back. The
//! verified functions `open_tx`, `run`, `lookup`, `fetch` and `close_tx` make
//! those calls and append each accepted one, with what came back, to a ghost
//! log; the contracts of the operations are stated over that log.

use vstd::prelude::*;
use crate::error::{from_store, RepoError};
use crate::schema::Statement;

verus! {

#[verifier::external_type_specification]
#[verifier::external_body]
pub struct ExConnection(rusqlite::Connection);

#[verifier::external_type_specification]
#[verifier::external_body]
pub struct ExTransaction<'conn>(rusqlite::Transaction<'conn>);

#[verifier::external_type_specification]
#[verifier::external_body]
pub struct ExSqlError(rusqlite::Error);

/// A value bound to a statement parameter.
#[derive(Debug)]
pub enum SqlValue {
    Text(String),
    Integer(i64),
}

/// The characters or the integer a parameter carries.
pub enum SqlValueView {
    Text(Seq<char>),
    Integer(i64),
}

impl View for SqlValue {
    type V = SqlValueView;

    open spec fn view(&self) -> SqlValueView {
        match self {
            SqlValue::Text(s) => SqlValueView::Text(s@),
            SqlValue::Integer(i) => SqlValueView::Integer(*i),
        }
    }
}

/// The parameter values of a statement, as characters and integers.
pub open spec fn values_view(v: Seq<SqlValue>) -> Seq<SqlValueView> {
    v.map_values(|x: SqlValue| x@)
}

/// One call that the store accepted, as the library made it.
pub enum StoreCall {
    /// A transaction began.
    Begin,
    /// A statement ran with these parameters and changed this many rows.
    Run { stmt: Statement, params: Seq<SqlValueView>, changed: nat },
    /// A query with these parameters found this integer.
    Lookup { stmt: Statement, params: Seq<SqlValueView>, found: i64 },
    /// A query with these parameters returned these file rows.
    Fetch { stmt: Statement, params: Seq<SqlValueView>, rows: Seq<(Seq<char>, i64, Seq<char>)> },
    /// The transaction committed.
    Commit,
    /// The store file at this path was opened, or created.
    Open { path: Seq<char> },
    /// This batch of statements ran outside any transaction of the library.
    Batch { sql: Seq<char> },
}

/// `calls` is `before` followed by calls none of which is a commit: whatever
/// ran since has been left to roll back.
pub open spec fn uncommitted(before: Seq<StoreCall>, calls: Seq<StoreCall>) -> bool {
    &&& before.len() <= calls.len()
    &&& forall|i: int| 0 <= i < before.len() ==> #[trigger] calls[i] == before[i]
    &&& forall|i: int| before.len() <= i < calls.len() ==> !(#[trigger] calls[i] is Commit)
}

/// `calls` is `before` followed by more calls.
pub open spec fn extends(before: Seq<StoreCall>, calls: Seq<StoreCall>) -> bool {
    &&& before.len() <= calls.len()
    &&& forall|i: int| 0 <= i < before.len() ==> #[trigger] calls[i] == before[i]
}

/// The calls made after `before`.
pub open spec fn added(before: Seq<StoreCall>, calls: Seq<StoreCall>) -> Seq<StoreCall> {
    calls.subrange(before.len() as int, calls.len() as int)
}

/// `call` ran `stmt` with `params`, whatever it changed.
pub open spec fn runs(call: StoreCall, stmt: Statement, params: Seq<SqlValueView>) -> bool {
    call matches StoreCall::Run { stmt: s, params: p, .. } && s == stmt && p == params
}

/// The characters of each row.
pub open spec fn rows_view(rows: Seq<(String, i64, String)>) -> Seq<(Seq<char>, i64, Seq<char>)> {
    rows.map_values(|r: (String, i64, String)| (r.0@, r.1, r.2@))
}

/// Opens, or creates, the store file at `path`, and logs it.
pub fn open_store(path: &str, calls: &mut Ghost<Seq<StoreCall>>) -> (r: Result<rusqlite::Connection, RepoError>)
    ensures
        r is Ok ==> final(calls)@ == old(calls)@.push(StoreCall::Open { path: path@ }),
        r matches Err(e) ==> e is Database && final(calls)@ == old(calls)@,
{
    let conn = from_store(open_connection(path))?;
    *calls = Ghost(calls@.push(StoreCall::Open { path: path@ }));
    Ok(conn)
}

/// Runs the batch `sql` on `conn`, and logs it.
pub fn batch(conn: &rusqlite::Connection, calls: &mut Ghost<Seq<StoreCall>>, sql: &str) -> (r: Result<(), RepoError>)
    ensures
        r is Ok ==> final(calls)@ == old(calls)@.push(StoreCall::Batch { sql: sql@ }),
        r matches Err(e) ==> e is Database && final(calls)@ == old(calls)@,
{
    from_store(execute_batch(conn, sql))?;
    *calls = Ghost(calls@.push(StoreCall::Batch { sql: sql@ }));
    Ok(())
}

/// Begins a transaction on `conn`, and logs it.
pub fn open_tx<'conn>(conn: &'conn mut rusqlite::Connection, calls: &mut Ghost<Seq<StoreCall>>) -> (r:
    Result<rusqlite::Transaction<'conn>, RepoError>)
    ensures
        r is Ok ==> final(calls)@ == old(calls)@.push(StoreCall::Begin),
        r is Err ==> final(calls)@ == old(calls)@,
{
    let tx = from_store(begin(conn))?;
    *calls = Ghost(calls@.push(StoreCall::Begin));
    Ok(tx)
}

/// Commits `tx`, and logs it.
pub fn close_tx(tx: rusqlite::Transaction, calls: &mut Ghost<Seq<StoreCall>>) -> (r: Result<(), RepoError>)
    ensures
        r is Ok ==> final(calls)@ == old(calls)@.push(StoreCall::Commit),
        r is Err ==> final(calls)@ == old(calls)@,
{
    from_store(commit(tx))?;
    *calls = Ghost(calls@.push(StoreCall::Commit));
    Ok(())
}

/// Runs one statement in `tx`, and logs it with the count of changed rows.
pub fn run(tx: &rusqlite::Transaction, calls: &mut Ghost<Seq<StoreCall>>, stmt: Statement, params: &Vec<SqlValue>) -> (r:
    Result<usize, RepoError>)
    ensures
        r matches Ok(n) ==> final(calls)@ == old(calls)@.push(
            StoreCall::Run { stmt, params: values_view(params@), changed: n as nat },
        ),
        r is Err ==> final(calls)@ == old(calls)@,
{
    let n = from_store(execute(tx, stmt.sql(), params))?;
    *calls = Ghost(calls@.push(StoreCall::Run { stmt, params: values_view(params@), changed: n as nat }));
    Ok(n)
}

/// Runs one query for an integer in `tx`, and logs it with what it found.
pub fn lookup(tx: &rusqlite::Transaction, calls: &mut Ghost<Seq<StoreCall>>, stmt: Statement, params: &Vec<SqlValue>) -> (r:
    Result<i64, RepoError>)
    ensures
        r matches Ok(v) ==> final(calls)@ == old(calls)@.push(
            StoreCall::Lookup { stmt, params: values_view(params@), found: v },
        ),
        r is Err ==> final(calls)@ == old(calls)@,
{
    let v = from_store(query_integer(tx, stmt.sql(), params))?;
    *calls = Ghost(calls@.push(StoreCall::Lookup { stmt, params: values_view(params@), found: v }));
    Ok(v)
}

/// Runs one query for file rows in `tx`, and logs it with the rows.
pub fn fetch(tx: &rusqlite::Transaction, calls: &mut Ghost<Seq<StoreCall>>, stmt: Statement, params: &Vec<SqlValue>) -> (r:
    Result<Vec<(String, i64, String)>, RepoError>)
    ensures
        r matches Ok(rows) ==> final(calls)@ == old(calls)@.push(
            StoreCall::Fetch { stmt, params: values_view(params@), rows: rows_view(rows@) },
        ),
        r is Err ==> final(calls)@ == old(calls)@,
{
    let rows = from_store(query_files(tx, stmt.sql(), params))?;
    *calls = Ghost(calls@.push(StoreCall::Fetch { stmt, params: values_view(params@), rows: rows_view(rows@) }));
    Ok(rows)
}

/// Relies on rusqlite::Connection::open: opens, or creates, the database file
/// at `path`.
#[verifier::external_body]
fn open_connection(path: &str) -> (r: Result<rusqlite::Connection, rusqlite::Error>) {
    rusqlite::Connection::open(path)
}

/// Relies on rusqlite::Connection::transaction: begins a deferred transaction
/// that rolls back when dropped without a commit.
#[verifier::external_body]
fn begin<'conn>(conn: &'conn mut rusqlite::Connection) -> (r: Result<
    rusqlite::Transaction<'conn>,
    rusqlite::Error,
>) {
    conn.transaction()
}

/// Relies on rusqlite::Transaction::commit.
#[verifier::external_body]
fn commit(tx: rusqlite::Transaction) -> (r: Result<(), rusqlite::Error>) {
    tx.commit()
}

/// Relies on rusqlite::Connection::execute_batch: runs each statement of `sql`
/// in turn.
#[verifier::external_body]
fn execute_batch(conn: &rusqlite::Connection, sql: &str) -> (r: Result<(), rusqlite::Error>) {
    conn.execute_batch(sql)
}

/// Relies on rusqlite::Connection::execute: runs one statement with `params`
/// bound in order and returns the number of rows it changed.
#[verifier::external_body]
fn execute(tx: &rusqlite::Transaction, sql: &str, params: &Vec<SqlValue>) -> (r: Result<
    usize,
    rusqlite::Error,
>) {
    tx.execute(sql, rusqlite::params_from_iter(params.iter().map(|p| match p {
        SqlValue::Text(s) => rusqlite::types::Value::Text(s.clone()),
        SqlValue::Integer(i) => rusqlite::types::Value::Integer(*i),
    })))
}

/// Relies on rusqlite::Connection::query_row: the first column of the first row
/// that the query returns, read as an integer; `Err` when it returns no row.
#[verifier::external_body]
fn query_integer(tx: &rusqlite::Transaction, sql: &str, params: &Vec<SqlValue>) -> (r:
    Result<i64, rusqlite::Error>) {
    tx.query_row(sql, rusqlite::params_from_iter(params.iter().map(|p| match p {
        SqlValue::Text(s) => rusqlite::types::Value::Text(s.clone()),
        SqlValue::Integer(i) => rusqlite::types::Value::Integer(*i),
    })), |row| row.get(0))
}

/// Relies on rusqlite::Connection::prepare and rusqlite::Statement::query_map:
/// every row that the query returns, its first three columns read as text, an
/// integer and text.
#[verifier::external_body]
fn query_files(tx: &rusqlite::Transaction, sql: &str, params: &Vec<SqlValue>) -> (r:
    Result<Vec<(String, i64, String)>, rusqlite::Error>) {
    let mut stmt = tx.prepare(sql)?;
    let rows = stmt.query_map(
        rusqlite::params_from_iter(params.iter().map(|p| match p {
            SqlValue::Text(s) => rusqlite::types::Value::Text(s.clone()),
            SqlValue::Integer(i) => rusqlite::types::Value::Integer(*i),
        })),
        |row| Ok((row.get(0)?, row.get(1)?, row.get(2)?)),
    )?;
    rows.collect()
}

} // verus!
