//! The calls into SQLite (through `rusqlite`) that the library makes.
//!
//! What a query returns depends on what the database holds, so none of these
//! items promises anything of a result beyond its type. Each records in the
//! `SqlLog` it is given what it handed to SQLite and what it read back, so
//! the library's own functions can state what they ran and what they did
//! with the answers.
use vstd::prelude::*;

use crate::yaml::{SqlValue, SqlValueRef};
use crate::yaml::{reals_are_numbers, yaml_real_is_number};
use crate::database::{named_texts, SqlCall, SqlLog};

verus! {

/// An open SQLite database.
#[verifier::external_type_specification]
#[verifier::external_body]
pub struct ExConnection(rusqlite::Connection);

/// A transaction on an open database; dropped without a commit, it rolls back.
#[verifier::external_type_specification]
#[verifier::external_body]
pub struct ExTransaction<'conn>(rusqlite::Transaction<'conn>);

/// A prepared statement.
#[verifier::external_type_specification]
#[verifier::external_body]
pub struct ExStatement<'conn>(rusqlite::Statement<'conn>);

/// The rows of a running query.
#[verifier::external_type_specification]
#[verifier::external_body]
pub struct ExRows<'stmt>(rusqlite::Rows<'stmt>);

/// One result row.
#[verifier::external_type_specification]
#[verifier::external_body]
pub struct ExRow<'stmt>(rusqlite::Row<'stmt>);

/// A value bound to a statement parameter.
#[verifier::external_type_specification]
#[verifier::external_body]
pub struct ExValue(rusqlite::types::Value);

/// An error reported by SQLite or by `rusqlite`.
#[verifier::external_type_specification]
#[verifier::external_body]
pub struct ExError(rusqlite::Error);

/// Calls `rusqlite::Connection::transaction`, which begins a transaction;
/// the log records it when it began.
#[verifier::external_body]
pub(crate) fn begin_transaction<'c>(conn: &'c mut rusqlite::Connection, log: &mut SqlLog) -> (r: Result<rusqlite::Transaction<'c>, rusqlite::Error>)
    ensures
        r is Ok ==> final(log).calls@ == old(log).calls@.push(SqlCall::Begin),
        r is Err ==> final(log).calls@ == old(log).calls@,
{
    conn.transaction()
}

/// Calls `rusqlite::Transaction::commit`; the log records it when it
/// committed. A transaction that is not committed rolls back when dropped.
#[verifier::external_body]
pub(crate) fn commit_transaction(tx: rusqlite::Transaction<'_>, log: &mut SqlLog) -> (r: Result<(), rusqlite::Error>)
    ensures
        r is Ok ==> final(log).calls@ == old(log).calls@.push(SqlCall::Commit),
        r is Err ==> final(log).calls@ == old(log).calls@,
{
    tx.commit()
}

/// The connection a transaction runs on (`Deref` of `rusqlite::Transaction`).
#[verifier::external_body]
pub(crate) fn transaction_connection<'a>(tx: &'a rusqlite::Transaction<'_>) -> &'a rusqlite::Connection {
    tx
}

/// Calls `rusqlite::Connection::prepare`, which compiles the first statement
/// of `sql`; the log records the text when it compiled.
#[verifier::external_body]
pub(crate) fn prepare<'c>(conn: &'c rusqlite::Connection, sql: &str, log: &mut SqlLog) -> (r: Result<rusqlite::Statement<'c>, rusqlite::Error>)
    ensures
        r is Ok ==> final(log).calls@ == old(log).calls@.push(SqlCall::Prepare(sql@)),
        r is Err ==> final(log).calls@ == old(log).calls@,
{
    conn.prepare(sql)
}

/// Calls `rusqlite::Statement::query` with text values for named
/// parameters; the log records the parameters handed over.
#[verifier::external_body]
pub(crate) fn query<'s>(stmt: &'s mut rusqlite::Statement<'_>, params: &[(&str, &str)], log: &mut SqlLog) -> (r: Result<rusqlite::Rows<'s>, rusqlite::Error>)
    ensures
        final(log).calls@ == old(log).calls@.push(SqlCall::Query(named_texts(params@))),
{
    let named: Vec<(&str, &dyn rusqlite::ToSql)> = params.iter().map(|p| (p.0, &p.1 as &dyn rusqlite::ToSql)).collect();
    stmt.query(named.as_slice())
}

/// Calls `rusqlite::Statement::query_row` with text values for named
/// parameters, and reads the first column of the first row as text; the log
/// records the parameters handed over, and the row and text read.
#[verifier::external_body]
pub(crate) fn query_row_text(stmt: &mut rusqlite::Statement<'_>, params: &[(&str, &str)], log: &mut SqlLog) -> (r: Result<String, rusqlite::Error>)
    ensures
        r matches Ok(s) ==> final(log).calls@ == old(log).calls@ + seq![SqlCall::Query(named_texts(params@)), SqlCall::Row, SqlCall::Text(s@)],
        r is Err ==> final(log).calls@ == old(log).calls@.push(SqlCall::Query(named_texts(params@))),
{
    let named: Vec<(&str, &dyn rusqlite::ToSql)> = params.iter().map(|p| (p.0, &p.1 as &dyn rusqlite::ToSql)).collect();
    stmt.query_row(named.as_slice(), |row| row.get(0))
}

/// Calls `rusqlite::Rows::next`: the next row, or `None` at the end; the log
/// records which.
#[verifier::external_body]
pub(crate) fn next_row<'a, 's>(rows: &'a mut rusqlite::Rows<'s>, log: &mut SqlLog) -> (r: Result<Option<&'a rusqlite::Row<'s>>, rusqlite::Error>)
    ensures
        r matches Ok(Some(_)) ==> final(log).calls@ == old(log).calls@.push(SqlCall::Row),
        r matches Ok(None) ==> final(log).calls@ == old(log).calls@.push(SqlCall::Done),
        r is Err ==> final(log).calls@ == old(log).calls@,
{
    rows.next()
}

/// Calls `rusqlite::Row::get` for a text column; the log records the text
/// read.
#[verifier::external_body]
pub(crate) fn row_text(row: &rusqlite::Row<'_>, i: usize, log: &mut SqlLog) -> (r: Result<String, rusqlite::Error>)
    ensures
        r matches Ok(s) ==> final(log).calls@ == old(log).calls@.push(SqlCall::Text(s@)),
        r is Err ==> final(log).calls@ == old(log).calls@,
{
    row.get(i)
}

/// Calls `rusqlite::Row::get_ref` and copies the value out: a real number as
/// the text Rust writes for it, text and blobs as their bytes; the log
/// records the column and the value read.
#[verifier::external_body]
pub(crate) fn row_value(row: &rusqlite::Row<'_>, i: usize, log: &mut SqlLog) -> (r: Result<SqlValueRef, rusqlite::Error>)
    ensures
        r matches Ok(v) ==> final(log).calls@ == old(log).calls@.push(SqlCall::Value(i as int, v)),
        r is Err ==> final(log).calls@ == old(log).calls@,
{
    row.get_ref(i).map(|v| match v {
        rusqlite::types::ValueRef::Null => SqlValueRef::Null,
        rusqlite::types::ValueRef::Integer(n) => SqlValueRef::Integer(n),
        rusqlite::types::ValueRef::Real(x) => SqlValueRef::Real(x.to_string()),
        rusqlite::types::ValueRef::Text(t) => SqlValueRef::Text(t.to_vec()),
        rusqlite::types::ValueRef::Blob(b) => SqlValueRef::Blob(b.to_vec()),
    })
}

/// The `rusqlite` value for a parameter. A real number is the number that
/// `yaml_rust::Yaml::as_f64` reads from its text; the `requires` asks that it
/// reads one.
#[verifier::external_body]
fn bound_value(v: &SqlValue) -> rusqlite::types::Value
    requires
        v matches SqlValue::Real(t) ==> yaml_real_is_number(t@),
{
    match v {
        SqlValue::Null => rusqlite::types::Value::Null,
        SqlValue::Integer(n) => rusqlite::types::Value::Integer(*n),
        SqlValue::Real(t) => yaml_rust::Yaml::Real(t.clone()).as_f64().map_or(rusqlite::types::Value::Null, rusqlite::types::Value::Real),
        SqlValue::Text(s) => rusqlite::types::Value::Text(s.clone()),
    }
}

/// Calls `rusqlite::Statement::insert`, which runs the statement with the
/// parameters (each converted by `bound_value`) in order and fails unless
/// it changed exactly one row; the log records the parameters handed over
/// and whether it succeeded.
#[verifier::external_body]
pub(crate) fn insert_row(stmt: &mut rusqlite::Statement<'_>, params: &Vec<SqlValue>, log: &mut SqlLog) -> (r: Result<i64, rusqlite::Error>)
    requires
        reals_are_numbers(params@),
    ensures
        final(log).calls@ == old(log).calls@.push(SqlCall::Run(params@, r is Ok)),
{
    stmt.insert(rusqlite::params_from_iter(params.iter().map(bound_value)))
}

/// Calls `rusqlite::Statement::execute` with the parameters (each converted
/// by `bound_value`) in order; the log records the parameters handed over
/// and whether it succeeded.
#[verifier::external_body]
pub(crate) fn execute(stmt: &mut rusqlite::Statement<'_>, params: &Vec<SqlValue>, log: &mut SqlLog) -> (r: Result<usize, rusqlite::Error>)
    requires
        reals_are_numbers(params@),
    ensures
        final(log).calls@ == old(log).calls@.push(SqlCall::Run(params@, r is Ok)),
{
    stmt.execute(rusqlite::params_from_iter(params.iter().map(bound_value)))
}

} // verus!
