//! The SQLite calls the storage layer makes, through `rusqlite`.
//!
//! Every result here comes from the database, whose content is outside the
//! library: the wrappers state no more of a result than its shape, and the
//! verified code above them holds for every value they hand back.
use vstd::prelude::*;

use crate::error::MemError;

verus! {

/// A connection to an SQLite database (`rusqlite::Connection`).
#[verifier::external_type_specification]
#[verifier::external_body]
pub struct ExConnection(rusqlite::Connection);

/// An error reported by SQLite or by `rusqlite` (`rusqlite::Error`).
#[verifier::external_type_specification]
#[verifier::external_body]
pub struct ExSqlError(rusqlite::Error);

/// A prepared statement (`rusqlite::Statement`).
#[verifier::external_type_specification]
#[verifier::external_body]
pub struct ExStatement<'conn>(rusqlite::Statement<'conn>);

/// The result rows of a query, read one at a time (`rusqlite::Rows`).
#[verifier::external_type_specification]
#[verifier::external_body]
pub struct ExRows<'stmt>(rusqlite::Rows<'stmt>);

/// One result row (`rusqlite::Row`).
#[verifier::external_type_specification]
#[verifier::external_body]
pub struct ExRow<'stmt>(rusqlite::Row<'stmt>);

/// An open transaction that rolls back when dropped (`rusqlite::Transaction`).
#[verifier::external_type_specification]
#[verifier::external_body]
pub struct ExTransaction<'conn>(rusqlite::Transaction<'conn>);

/// A value bound to a `?N` parameter of a statement.
#[derive(Debug)]
pub enum SqlParam {
    Integer(i64),
    Text(String),
}

/// `Connection::execute`: run one statement with the parameters bound in
/// order; on success `rusqlite` returns the number of rows changed.
#[verifier::external_body]
pub(crate) fn sql_execute(conn: &rusqlite::Connection, sql: &str, params: &[SqlParam]) -> (res: Result<
    usize,
    rusqlite::Error,
>) {
    let bound: Vec<&dyn rusqlite::ToSql> = params.iter().map(|p| match p {
        SqlParam::Integer(i) => i as &dyn rusqlite::ToSql,
        SqlParam::Text(t) => t as &dyn rusqlite::ToSql,
    }).collect();
    conn.execute(sql, bound.as_slice())
}

/// `Connection::execute_batch`: run the statements of `sql` one after another.
#[verifier::external_body]
pub(crate) fn sql_execute_batch(conn: &rusqlite::Connection, sql: &str) -> (res: Result<
    (),
    rusqlite::Error,
>) {
    conn.execute_batch(sql)
}

/// `Connection::last_insert_rowid`: the rowid of the most recent successful INSERT.
#[verifier::external_body]
pub(crate) fn sql_last_insert_rowid(conn: &rusqlite::Connection) -> (id: i64) {
    conn.last_insert_rowid()
}

/// `Connection::prepare`: compile one statement.
#[verifier::external_body]
pub(crate) fn sql_prepare<'conn>(conn: &'conn rusqlite::Connection, sql: &str) -> (res: Result<
    rusqlite::Statement<'conn>,
    rusqlite::Error,
>) {
    conn.prepare(sql)
}

/// `Statement::query`: bind the parameters in order and start the query.
#[verifier::external_body]
pub(crate) fn sql_query<'stmt, 'conn>(
    stmt: &'stmt mut rusqlite::Statement<'conn>,
    params: &[SqlParam],
) -> (res: Result<rusqlite::Rows<'stmt>, rusqlite::Error>) {
    let bound: Vec<&dyn rusqlite::ToSql> = params.iter().map(|p| match p {
        SqlParam::Integer(i) => i as &dyn rusqlite::ToSql,
        SqlParam::Text(t) => t as &dyn rusqlite::ToSql,
    }).collect();
    stmt.query(bound.as_slice())
}

/// `Statement::execute`: bind the parameters in order and run the statement;
/// on success `rusqlite` returns the number of rows changed.
#[verifier::external_body]
pub(crate) fn sql_statement_execute(
    stmt: &mut rusqlite::Statement,
    params: &[SqlParam],
) -> (res: Result<usize, rusqlite::Error>) {
    let bound: Vec<&dyn rusqlite::ToSql> = params.iter().map(|p| match p {
        SqlParam::Integer(i) => i as &dyn rusqlite::ToSql,
        SqlParam::Text(t) => t as &dyn rusqlite::ToSql,
    }).collect();
    stmt.execute(bound.as_slice())
}

/// `Rows::next`: the next result row, or `None` when all rows were read.
#[verifier::external_body]
pub(crate) fn sql_next_row<'a, 'stmt>(rows: &'a mut rusqlite::Rows<'stmt>) -> (res: Result<
    Option<&'a rusqlite::Row<'stmt>>,
    rusqlite::Error,
>) {
    rows.next()
}

/// `Row::get::<usize, i64>`: column `idx` as an integer. A value of another
/// type is rusqlite's `InvalidColumnType` error, which names the column and
/// the type found.
#[verifier::external_body]
pub(crate) fn sql_get_i64(row: &rusqlite::Row, idx: usize) -> (res: Result<i64, rusqlite::Error>) {
    row.get::<usize, i64>(idx)
}

/// `Row::get::<usize, String>`: column `idx` as text. A value of another
/// type, null included, is rusqlite's `InvalidColumnType` error.
#[verifier::external_body]
pub(crate) fn sql_get_text(row: &rusqlite::Row, idx: usize) -> (res: Result<String, rusqlite::Error>) {
    row.get::<usize, String>(idx)
}

/// `Row::get::<usize, Option<String>>`: column `idx` as text or null. A value
/// of another type is rusqlite's `InvalidColumnType` error.
#[verifier::external_body]
pub(crate) fn sql_get_opt_text(row: &rusqlite::Row, idx: usize) -> (res: Result<
    Option<String>,
    rusqlite::Error,
>) {
    row.get::<usize, Option<String>>(idx)
}

/// `Connection::is_autocommit`: whether the connection is in autocommit mode,
/// that is, no transaction is open on it. The answer depends on the
/// connection's state, so nothing is stated of it.
#[verifier::external_body]
pub(crate) fn sql_is_autocommit(conn: &rusqlite::Connection) -> (autocommit: bool) {
    conn.is_autocommit()
}

/// `Connection::unchecked_transaction`: begin a deferred transaction, which
/// rolls back when dropped without a commit.
#[verifier::external_body]
pub(crate) fn sql_begin<'conn>(conn: &'conn rusqlite::Connection) -> (res: Result<
    rusqlite::Transaction<'conn>,
    rusqlite::Error,
>) {
    conn.unchecked_transaction()
}

/// `<Transaction as Deref>::deref`: the connection the transaction runs on.
#[verifier::external_body]
pub(crate) fn sql_transaction_connection<'a, 'conn>(tx: &'a rusqlite::Transaction<'conn>) -> (conn:
    &'a rusqlite::Connection) {
    tx
}

/// `Transaction::commit`.
#[verifier::external_body]
pub(crate) fn sql_commit(tx: rusqlite::Transaction) -> (res: Result<(), rusqlite::Error>) {
    tx.commit()
}

/// `<rusqlite::Error as Display>`: the message of an SQLite error.
#[verifier::external_body]
pub(crate) fn sql_error_message(e: &rusqlite::Error) -> (msg: String) {
    e.to_string()
}

/// The column as an integer (`Row::get` for `i64`); a failure, a wrong type
/// included, is rusqlite's error.
pub fn column_i64(row: &rusqlite::Row, idx: usize) -> (res: Result<i64, MemError>)
    ensures
        res matches Err(e) ==> e is Storage,
{
    match sql_get_i64(row, idx) {
        Ok(i) => Ok(i),
        Err(e) => Err(MemError::Storage(e)),
    }
}

} // verus!
