//! The thin trusted seam to the SQLite engine: opening a connection,
//! executing one statement, and running one query. Everything above this
//! seam — SQL text, parameter building, row decoding, aggregate
//! reconstruction and filtering — is verified library code working on the
//! plain [`SqlArg`] and [`SqlVal`] values.

use vstd::prelude::*;

use crate::error::Error;

verus! {

/// A parameter bound into a SQL statement, in positional order.
#[derive(Debug)]
pub enum SqlArg {
    Int(i64),
    Text(String),
}

/// One cell of a query result, as SQLite's dynamic typing returns it.
/// Floats and blobs carry no value this schema stores, so they read as
/// null.
#[derive(Debug)]
pub enum SqlVal {
    Int(i64),
    Text(String),
    Null,
}

/// The mathematical content of a bound parameter.
pub enum SqlArgV {
    Int(i64),
    Text(Seq<char>),
}

/// The view of one bound parameter.
pub open spec fn sql_arg_view(a: SqlArg) -> SqlArgV {
    match a {
        SqlArg::Int(n) => SqlArgV::Int(n),
        SqlArg::Text(s) => SqlArgV::Text(s@),
    }
}

/// The views of a parameter list, in binding order.
pub open spec fn sql_arg_views(args: Seq<SqlArg>) -> Seq<SqlArgV> {
    args.map_values(|a: SqlArg| sql_arg_view(a))
}

#[verifier::external_type_specification]
#[verifier::external_body]
pub struct ExConnection(rusqlite::Connection);

#[verifier::external_type_specification]
#[verifier::external_body]
pub struct ExValue(rusqlite::types::Value);

#[verifier::external_type_specification]
#[verifier::external_body]
pub struct ExValueRef<'a>(rusqlite::types::ValueRef<'a>);

/// Relies on `rusqlite::Connection::open`: opens the database file at the
/// path, creating it when absent.
#[verifier::external_body]
pub(crate) fn db_open(path: &str) -> (r: Result<rusqlite::Connection, Error>) {
    rusqlite::Connection::open(path).map_err(
        |e| Error::InfrastructureError(format!("failed to open connection: {}", e)),
    )
}

/// Relies on `rusqlite::params_from_iter` and `rusqlite::types::Value`:
/// turns the library's argument list into SQLite values, one for one.
#[verifier::external_body]
fn to_params(args: &Vec<SqlArg>) -> (r: Vec<rusqlite::types::Value>) {
    args.iter().map(|a| match a {
        SqlArg::Int(v) => rusqlite::types::Value::Integer(*v),
        SqlArg::Text(v) => rusqlite::types::Value::Text(v.clone()),
    }).collect()
}

/// Relies on `rusqlite::types::ValueRef`: reads one result cell; integers
/// and text keep their value, nulls, floats and blobs read as null.
#[verifier::external_body]
fn cell_value(v: rusqlite::types::ValueRef<'_>) -> (r: SqlVal) {
    match v {
        rusqlite::types::ValueRef::Integer(n) => SqlVal::Int(n),
        rusqlite::types::ValueRef::Text(t) => SqlVal::Text(String::from_utf8_lossy(t).to_string()),
        _ => SqlVal::Null,
    }
}

/// Relies on `rusqlite::Connection::execute`: runs one SQL statement with
/// the given parameters bound in order and returns how many rows changed.
#[verifier::external_body]
pub(crate) fn db_execute(conn: &rusqlite::Connection, sql: &str, args: &Vec<SqlArg>) -> (r: Result<
    usize,
    Error,
>) {
    conn.execute(sql, rusqlite::params_from_iter(to_params(args))).map_err(
        |e| Error::InfrastructureError(format!("failed to execute statement: {}", e)),
    )
}

/// Relies on `rusqlite`'s `prepare`, `query_map` and `Row::get_ref`: runs
/// one SQL query with the given parameters bound in order and returns every
/// result row, each cell as its SQLite value.
#[verifier::external_body]
pub(crate) fn db_query(conn: &rusqlite::Connection, sql: &str, args: &Vec<SqlArg>) -> (r: Result<
    Vec<Vec<SqlVal>>,
    Error,
>) {
    let mut stmt = conn.prepare(sql).map_err(
        |e| Error::InfrastructureError(format!("failed to prepare statement: {}", e)),
    )?;
    let n = stmt.column_count();
    let mapped = stmt.query_map(rusqlite::params_from_iter(to_params(args)), |row| {
        let mut cells: Vec<SqlVal> = Vec::new();
        for i in 0..n {
            cells.push(cell_value(row.get_ref(i)?));
        }
        Ok(cells)
    }).map_err(|e| Error::InfrastructureError(format!("failed to query: {}", e)))?;
    mapped.collect::<Result<Vec<Vec<SqlVal>>, rusqlite::Error>>().map_err(
        |e| Error::InfrastructureError(format!("failed to convert rows: {}", e)),
    )
}

} // verus!
