//! The trusted boundary to the embedded SQL engine.
//!
//! Each function here wraps exactly one call into the `sqlite` crate. Their
//! bodies are not verified; nothing is promised of what the engine returns,
//! since that depends on what is on disk. The verified store treats every
//! returned row as an arbitrary record and computes its own projections.

use vstd::prelude::*;

verus! {

#[verifier::external_type_specification]
#[verifier::external_body]
pub struct ExConnection(sqlite::Connection);

#[verifier::external_type_specification]
#[verifier::external_body]
pub struct ExStatement<'l>(sqlite::Statement<'l>);

#[verifier::external_type_specification]
#[verifier::external_body]
pub struct ExSqliteError(sqlite::Error);

/// Relies on `sqlite::open`: opens a read-write connection to a new or
/// existing database at `path` (`:memory:` for a transient one).
#[verifier::external_body]
pub(crate) fn open_connection(path: &str) -> (r: Result<sqlite::Connection, sqlite::Error>) {
    sqlite::open(path)
}

/// Relies on `sqlite::Connection::execute`: runs the given SQL text to
/// completion without reading rows back.
#[verifier::external_body]
pub(crate) fn execute_sql(conn: &sqlite::Connection, sql: &str) -> (r: Result<
    (),
    sqlite::Error,
>) {
    conn.execute(sql)
}

/// Relies on `sqlite::Connection::prepare`: compiles one SQL statement.
#[verifier::external_body]
pub(crate) fn prepare_sql<'l>(conn: &'l sqlite::Connection, sql: &str) -> (r: Result<
    sqlite::Statement<'l>,
    sqlite::Error,
>) {
    conn.prepare(sql)
}

/// Relies on `sqlite::Statement::bind`: binds `value` as text to the
/// statement parameter at `index` (the first parameter has index 1).
#[verifier::external_body]
pub(crate) fn bind_text<'l>(
    stmt: &mut sqlite::Statement<'l>,
    index: usize,
    value: &str,
) -> (r: Result<(), sqlite::Error>) {
    stmt.bind((index, value))
}

/// Relies on `sqlite::Statement::next`: advances the statement, giving
/// `true` while a row is ready and `false` once evaluation is done.
#[verifier::external_body]
pub(crate) fn step_row<'l>(stmt: &mut sqlite::Statement<'l>) -> (r: Result<
    bool,
    sqlite::Error,
>) {
    match stmt.next() {
        Ok(sqlite::State::Row) => Ok(true),
        Ok(sqlite::State::Done) => Ok(false),
        Err(e) => Err(e),
    }
}

/// Relies on `sqlite::Statement::read` at type `i64`: the integer in
/// column `col` of the current row.
#[verifier::external_body]
pub(crate) fn read_int<'l>(stmt: &sqlite::Statement<'l>, col: usize) -> (r: Result<
    i64,
    sqlite::Error,
>) {
    stmt.read::<i64, _>(col)
}

/// Relies on `sqlite::Statement::read` at type `String`: the text in
/// column `col` of the current row.
#[verifier::external_body]
pub(crate) fn read_text<'l>(stmt: &sqlite::Statement<'l>, col: usize) -> (r: Result<
    String,
    sqlite::Error,
>) {
    stmt.read::<String, _>(col)
}

/// Relies on the `Display` rendering of `sqlite::Error`: its message
/// text, with the engine's code when one is present.
#[verifier::external_body]
pub(crate) fn error_text(e: &sqlite::Error) -> (r: String) {
    format!("{}", e)
}

} // verus!
