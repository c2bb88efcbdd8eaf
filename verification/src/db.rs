//! What is asked of a database besides reading and writing rows.

use vstd::prelude::*;

use crate::text;

verus! {

/// SQLite permits exactly one writer, and a change of the schema on one connection is not seen by
/// another. Not a tuning knob.
pub const SQLITE_MAX_CONNECTIONS: u32 = 1;

/// How long SQLite waits for a lock to clear.
pub const SQLITE_BUSY_TIMEOUT_MS: u64 = 5_000;

/// The supported databases.
#[derive(Clone, Copy, Debug, PartialEq, Eq, Structural)]
pub enum Backend {
    /// SQLite.
    Sqlite,
    /// PostgreSQL.
    Postgres,
    /// MySQL.
    MySql,
}

/// Whether a URL names a SQLite database, which is connected to with session settings of its own.
pub fn is_sqlite_url(database_url: &str) -> (b: bool)
    ensures
        b == text::has_prefix(database_url@, "sqlite://"@),
{
    match text::strip_prefix(database_url, "sqlite://") {
        Some(_) => true,
        None => false,
    }
}

/// The statements that confirm the session settings of a SQLite connection.
pub open spec fn sqlite_pragmas() -> Seq<Seq<char>> {
    seq![
        "PRAGMA foreign_keys = ON"@,
        "PRAGMA synchronous = NORMAL"@,
        "PRAGMA busy_timeout = "@ + text::decimal(SQLITE_BUSY_TIMEOUT_MS as nat),
    ]
}

/// The statements that confirm the session settings of a SQLite connection.
pub fn sqlite_pragma_statements() -> (r: Vec<String>)
    ensures
        text::texts(r@) == sqlite_pragmas(),
{
    let mut r: Vec<String> = Vec::new();
    r.push("PRAGMA foreign_keys = ON".to_owned());
    r.push("PRAGMA synchronous = NORMAL".to_owned());
    r.push(
        text::concat(
            "PRAGMA busy_timeout = ",
            text::decimal_string(SQLITE_BUSY_TIMEOUT_MS).as_str(),
        ),
    );
    assert(text::texts(r@) =~= sqlite_pragmas());
    r
}

/// The query of a database's own catalog for an index, by index name and table name.
pub fn has_index_query(backend: Backend) -> (s: &'static str)
    ensures
        s@ == match backend {
            Backend::Sqlite => "SELECT 1 FROM sqlite_master WHERE type = 'index' AND name = ? AND tbl_name = ?"@,
            Backend::Postgres => "SELECT 1 FROM pg_indexes WHERE indexname = $1 AND tablename = $2"@,
            Backend::MySql => "SELECT 1 FROM information_schema.statistics WHERE index_name = ? AND table_name = ?"@,
        },
{
    match backend {
        Backend::Sqlite => "SELECT 1 FROM sqlite_master WHERE type = 'index' AND name = ? AND tbl_name = ?",
        Backend::Postgres => "SELECT 1 FROM pg_indexes WHERE indexname = $1 AND tablename = $2",
        Backend::MySql => "SELECT 1 FROM information_schema.statistics WHERE index_name = ? AND table_name = ?",
    }
}

/// A database is taken for one of SQLite by the start of its URL.
pub proof fn law_sqlite_sessions(rest: Seq<char>)
    ensures
        text::has_prefix("sqlite://"@ + rest, "sqlite://"@),
        sqlite_pragmas().len() == 3,
        sqlite_pragmas()[0] == "PRAGMA foreign_keys = ON"@,
        sqlite_pragmas()[1] == "PRAGMA synchronous = NORMAL"@,
        sqlite_pragmas()[2] == "PRAGMA busy_timeout = "@ + text::decimal(5_000),
{
    text::law_prefixes_are_seen("sqlite://"@, rest);
}

} // verus!
