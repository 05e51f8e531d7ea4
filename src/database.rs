use vstd::prelude::*;

use rusqlite::Connection;

verus! {

#[verifier::external_type_specification]
#[verifier::external_body]
pub struct ExConnection(rusqlite::Connection);

#[verifier::external_type_specification]
#[verifier::external_body]
pub struct ExError(rusqlite::Error);

/// The tables of the archive: one row per conversation, keyed by its id, and
/// one row per prompt and response.
pub const SCHEMA: &'static str = "CREATE TABLE IF NOT EXISTS conversations (
    id TEXT PRIMARY KEY NOT NULL,
    msec INTEGER NOT NULL
);
CREATE TABLE IF NOT EXISTS messages (
    conversation_id TEXT NOT NULL REFERENCES conversations (id),
    msec INTEGER NOT NULL,
    prompt TEXT NOT NULL,
    response TEXT NOT NULL
);
";

/// What kind of storage failure occurred.
#[derive(Debug, Clone, Copy, PartialEq, Eq, Structural)]
pub enum StorageErrorKind {
    /// A constraint of the schema refused the write, such as a second
    /// conversation with the same id.
    Constraint,
    /// Any other failure of the database.
    Other,
}

/// A failed read or write of the archive.
pub struct StorageError {
    pub kind: StorageErrorKind,
    pub source: rusqlite::Error,
}

/// Relies on `rusqlite::Connection::open`: opens or creates the database
/// file at `path`.
#[verifier::external_body]
fn connection_open(path: &str) -> (r: Result<Connection, rusqlite::Error>) {
    Connection::open(path)
}

/// Relies on `rusqlite::Connection::execute_batch`: runs the statements of
/// `sql` in order.
#[verifier::external_body]
fn connection_execute_batch(db: &Connection, sql: &str) -> (r: Result<(), rusqlite::Error>) {
    db.execute_batch(sql)
}

/// Relies on `rusqlite::Connection::execute`: runs the one statement `sql`
/// with `params` bound as text to `?1`, `?2`, ...
#[verifier::external_body]
pub(crate) fn connection_execute(db: &Connection, sql: &str, params: &Vec<String>) -> (r: Result<
    usize,
    rusqlite::Error,
>) {
    db.execute(sql, rusqlite::params_from_iter(params.iter()))
}

/// Relies on `rusqlite::Error::sqlite_error_code`: whether SQLite reported a
/// constraint violation.
#[verifier::external_body]
fn is_constraint_violation(e: &rusqlite::Error) -> (r: bool) {
    e.sqlite_error_code() == Some(rusqlite::ErrorCode::ConstraintViolation)
}

/// The error of the library for an error of the database.
pub fn storage_error(e: rusqlite::Error) -> (r: StorageError)
    ensures
        r.source == e,
{
    let kind = if is_constraint_violation(&e) {
        StorageErrorKind::Constraint
    } else {
        StorageErrorKind::Other
    };
    StorageError { kind, source: e }
}

/// Write the database schema
pub fn write_schema(conn: &Connection, schema: &str) -> (r: Result<(), StorageError>) {
    match connection_execute_batch(conn, schema) {
        Ok(()) => Ok(()),
        Err(e) => Err(storage_error(e)),
    }
}

/// Open an SQLite database and make sure that it holds the archive's tables.
pub fn open_database(path: &str) -> (r: Result<Connection, StorageError>) {
    match connection_open(path) {
        Ok(db) => match write_schema(&db, SCHEMA) {
            Ok(()) => Ok(db),
            Err(e) => Err(e),
        },
        Err(e) => Err(storage_error(e)),
    }
}

} // verus!
