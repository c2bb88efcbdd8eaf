//! The statements and definitions of the schema's migrations.

use vstd::prelude::*;

use crate::db::Backend;
use crate::text;

verus! {

// ---------------------------------------------------------------------------
// The master marker
// ---------------------------------------------------------------------------
/// What stands against adding the marker to a database with this many Master keys, if anything.
pub open spec fn marker_refusal(masters: nat) -> Option<Seq<char>> {
    if masters > 1 {
        Some(
            "refusing to add master_marker: "@ + text::decimal(masters)
                + " rows already have is_master=true, expected at most 1"@,
        )
    } else {
        None
    }
}

/// Checks that the marker can be added, before anything is changed.
pub fn check_masters(masters: usize) -> (r: Result<(), String>)
    ensures
        match marker_refusal(masters as nat) {
            Some(message) => r is Err && r->Err_0@ == message,
            None => r is Ok,
        },
{
    if masters > 1 {
        return Err(
            text::concat3(
                "refusing to add master_marker: ",
                text::decimal_string(masters as u64).as_str(),
                " rows already have is_master=true, expected at most 1",
            ),
        );
    }
    Ok(())
}

/// How a database keeps a generated column.
pub open spec fn storage(backend: Backend) -> Seq<char> {
    match backend {
        Backend::Postgres => "STORED"@,
        _ => "VIRTUAL"@,
    }
}

/// The statement that adds the marker: a column that the database derives, so that no writer can
/// set `is_master` and leave the marker out.
pub fn add_marker_statement(backend: Backend) -> (s: String)
    ensures
        s@
            == "ALTER TABLE api_keys ADD COLUMN master_marker INTEGER GENERATED ALWAYS AS (CASE WHEN is_master THEN 1 ELSE NULL END) "@
            + storage(backend),
{
    let storage = match backend {
        Backend::Postgres => "STORED",
        _ => "VIRTUAL",
    };
    text::concat(
        "ALTER TABLE api_keys ADD COLUMN master_marker INTEGER GENERATED ALWAYS AS (CASE WHEN is_master THEN 1 ELSE NULL END) ",
        storage,
    )
}

// ---------------------------------------------------------------------------
// Attribution in the audit trail
// ---------------------------------------------------------------------------
/// What is written where attribution was never recorded: unmistakably not a key name, a prefix, or
/// an address.
pub const UNRECORDED: &'static str = "(unknown)";

/// The columns that attribute a row of the trail, and survive the key that made it.
#[derive(Clone, Copy, Debug, PartialEq, Eq, Structural)]
pub enum Attribution {
    /// The key's name.
    ApiKeyName,
    /// The key's prefix.
    ApiKeyPrefix,
    /// The client's address.
    ClientIp,
}

impl Attribution {
    /// The column's name.
    pub open spec fn text(self) -> Seq<char> {
        match self {
            Attribution::ApiKeyName => "api_key_name"@,
            Attribution::ApiKeyPrefix => "api_key_prefix"@,
            Attribution::ClientIp => "client_ip"@,
        }
    }

    /// The column's name.
    pub fn as_str(self) -> (s: &'static str)
        ensures
            s@ == self.text(),
    {
        match self {
            Attribution::ApiKeyName => "api_key_name",
            Attribution::ApiKeyPrefix => "api_key_prefix",
            Attribution::ClientIp => "client_ip",
        }
    }
}

/// The columns that attribute a row of the trail.
pub fn attribution_columns() -> (r: Vec<Attribution>)
    ensures
        r@ == seq![Attribution::ApiKeyName, Attribution::ApiKeyPrefix, Attribution::ClientIp],
{
    let r = vec![Attribution::ApiKeyName, Attribution::ApiKeyPrefix, Attribution::ClientIp];
    assert(r@ =~= seq![
        Attribution::ApiKeyName,
        Attribution::ApiKeyPrefix,
        Attribution::ClientIp,
    ]);
    r
}

/// The statement that fills a column in where nothing was recorded.
pub fn backfill_statement(column: Attribution) -> (s: String)
    ensures
        s@ == "UPDATE audit_logs SET "@ + column.text() + " = '"@ + UNRECORDED@ + "' WHERE "@
            + column.text() + " IS NULL"@,
{
    let head = text::concat3("UPDATE audit_logs SET ", column.as_str(), " = '");
    let middle = text::concat3(head.as_str(), UNRECORDED, "' WHERE ");
    text::concat3(middle.as_str(), column.as_str(), " IS NULL")
}

/// The type of a column.
#[derive(Clone, Copy, Debug, PartialEq, Eq, Structural)]
pub enum ColumnKind {
    /// A unique id.
    Uuid,
    /// A short text.
    ShortText,
    /// A text of any length.
    LongText,
    /// A point in time with its zone.
    Time,
}

/// A column of a table.
#[derive(Clone, Copy, Debug)]
pub struct ColumnSpec {
    /// The column's name.
    pub name: &'static str,
    /// Its type.
    pub kind: ColumnKind,
    /// Whether every row has a value in it.
    pub not_null: bool,
    /// Whether it identifies a row.
    pub primary_key: bool,
}

/// What a [`ColumnSpec`] says.
pub struct Column {
    /// The column's name.
    pub name: Seq<char>,
    /// Its type.
    pub kind: ColumnKind,
    /// Whether every row has a value in it.
    pub not_null: bool,
    /// Whether it identifies a row.
    pub primary_key: bool,
}

impl View for ColumnSpec {
    type V = Column;

    open spec fn view(&self) -> Column {
        Column {
            name: self.name@,
            kind: self.kind,
            not_null: self.not_null,
            primary_key: self.primary_key,
        }
    }
}

/// A column that identifies nothing.
pub open spec fn plain(name: Seq<char>, kind: ColumnKind, not_null: bool) -> Column {
    Column { name, kind, not_null, primary_key: false }
}

/// The columns of the audit trail, with its attribution optional or not.
pub open spec fn audit_log_columns(attribution_not_null: bool) -> Seq<Column> {
    seq![
        Column { name: "id"@, kind: ColumnKind::Uuid, not_null: true, primary_key: true },
        plain("api_key_id"@, ColumnKind::Uuid, false),
        plain("api_key_name"@, ColumnKind::ShortText, attribution_not_null),
        plain("api_key_prefix"@, ColumnKind::ShortText, attribution_not_null),
        plain("client_ip"@, ColumnKind::ShortText, attribution_not_null),
        plain("action"@, ColumnKind::ShortText, true),
        plain("target_resource"@, ColumnKind::ShortText, false),
        plain("details"@, ColumnKind::LongText, false),
        plain("timestamp"@, ColumnKind::Time, true),
    ]
}

/// What columns say.
pub open spec fn columns(specs: Seq<ColumnSpec>) -> Seq<Column> {
    specs.map_values(|c: ColumnSpec| c@)
}

fn column(name: &'static str, kind: ColumnKind, not_null: bool) -> (c: ColumnSpec)
    ensures
        c@ == plain(name@, kind, not_null),
{
    ColumnSpec { name, kind, not_null, primary_key: false }
}

/// The definition of the audit trail, with its attribution optional or not. One definition serves
/// both directions, so that the two cannot describe different tables.
pub fn table_definition(attribution_not_null: bool) -> (r: Vec<ColumnSpec>)
    ensures
        columns(r@) == audit_log_columns(attribution_not_null),
{
    let id = ColumnSpec {
        name: "id",
        kind: ColumnKind::Uuid,
        not_null: true,
        primary_key: true,
    };
    let r = vec![
        id,
        column("api_key_id", ColumnKind::Uuid, false),
        column("api_key_name", ColumnKind::ShortText, attribution_not_null),
        column("api_key_prefix", ColumnKind::ShortText, attribution_not_null),
        column("client_ip", ColumnKind::ShortText, attribution_not_null),
        column("action", ColumnKind::ShortText, true),
        column("target_resource", ColumnKind::ShortText, false),
        column("details", ColumnKind::LongText, false),
        column("timestamp", ColumnKind::Time, true),
    ];
    assert(columns(r@) =~= audit_log_columns(attribution_not_null));
    r
}

/// What becomes of a row when the row that it refers to is deleted.
#[derive(Clone, Copy, Debug, PartialEq, Eq, Structural)]
pub enum DeleteAction {
    /// The row stays, and no longer refers to anything.
    SetNull,
    /// The row is deleted too.
    Cascade,
}

/// A reference from a column of a table to a column of another.
#[derive(Clone, Copy, Debug)]
pub struct ForeignKeySpec {
    /// The name of the constraint.
    pub name: &'static str,
    /// The column that refers.
    pub column: &'static str,
    /// The table that is referred to.
    pub table: &'static str,
    /// The column that is referred to.
    pub references: &'static str,
    /// What becomes of a row when the row that it refers to is deleted.
    pub on_delete: DeleteAction,
}

/// The reference from the audit trail to the keys. A key that is deleted leaves its trail behind: a
/// cascade would let the deletion of a key erase its own trail.
pub fn audit_log_foreign_key() -> (r: ForeignKeySpec)
    ensures
        r.name@ == "fk-audit_logs-api_key"@,
        r.column@ == "api_key_id"@,
        r.table@ == "api_keys"@,
        r.references@ == "id"@,
        r.on_delete == DeleteAction::SetNull,
{
    ForeignKeySpec {
        name: "fk-audit_logs-api_key",
        column: "api_key_id",
        table: "api_keys",
        references: "id",
        on_delete: DeleteAction::SetNull,
    }
}

/// Whether a column attributes a row of the trail.
pub open spec fn is_attribution(name: Seq<char>) -> bool {
    name == Attribution::ApiKeyName.text() || name == Attribution::ApiKeyPrefix.text() || name
        == Attribution::ClientIp.text()
}

/// The two definitions have the same columns in the same order, and differ in nothing but whether
/// the attribution may be missing.
pub proof fn law_definitions_differ_only_in_nullability(i: int)
    requires
        0 <= i < audit_log_columns(true).len(),
    ensures
        audit_log_columns(true).len() == audit_log_columns(false).len(),
        audit_log_columns(true)[i].name == audit_log_columns(false)[i].name,
        audit_log_columns(true)[i].kind == audit_log_columns(false)[i].kind,
        audit_log_columns(true)[i].primary_key == audit_log_columns(false)[i].primary_key,
        is_attribution(audit_log_columns(true)[i].name) <==> audit_log_columns(true)[i].not_null
            && !audit_log_columns(false)[i].not_null,
        !is_attribution(audit_log_columns(true)[i].name) ==> audit_log_columns(true)[i].not_null
            == audit_log_columns(false)[i].not_null,
{
    reveal_strlit("id");
    reveal_strlit("api_key_id");
    reveal_strlit("api_key_name");
    reveal_strlit("api_key_prefix");
    reveal_strlit("client_ip");
    reveal_strlit("action");
    reveal_strlit("target_resource");
    reveal_strlit("details");
    reveal_strlit("timestamp");
    assert("id"@.len() == 2 && "api_key_id"@.len() == 10 && "api_key_name"@.len() == 12
        && "api_key_prefix"@.len() == 14 && "client_ip"@.len() == 9 && "action"@.len() == 6
        && "target_resource"@.len() == 15 && "details"@.len() == 7);
    assert("timestamp"@[0] != "client_ip"@[0]);
}

/// The names of columns, in order.
pub open spec fn names(specs: Seq<Column>) -> Seq<Seq<char>> {
    specs.map_values(|c: Column| c.name)
}

/// The statement that carries every row of the trail into a table built afresh. The columns are
/// named on both sides: copying by position would silently mix them up.
pub fn copy_statement() -> (s: String)
    ensures
        s@ == "INSERT INTO audit_logs_rebuild ("@ + text::joined(
            names(audit_log_columns(true)),
            ", "@,
        ) + ") SELECT "@ + text::joined(names(audit_log_columns(true)), ", "@)
            + " FROM audit_logs"@,
{
    let definition = table_definition(true);
    let mut parts: Vec<String> = Vec::new();
    for i in 0..definition.len()
        invariant
            columns(definition@) == audit_log_columns(true),
            text::texts(parts@) == names(audit_log_columns(true)).take(i as int),
            parts@.len() == i,
    {
        let ghost before = parts@;
        assert(columns(definition@).len() == definition@.len());
        assert(definition@[i as int]@ == columns(definition@)[i as int]);
        parts.push(definition[i].name.to_owned());
        assert(forall|j: int| 0 <= j < i ==> parts@[j]@ == #[trigger] text::texts(before)[j]);
        assert(text::texts(parts@) =~= names(audit_log_columns(true)).take(i + 1));
    }
    assert(names(audit_log_columns(true)).take(definition@.len() as int) =~= names(
        audit_log_columns(true),
    ));
    let list = text::join(&parts, ", ");
    let head = text::concat3("INSERT INTO audit_logs_rebuild (", list.as_str(), ") SELECT ");
    text::concat3(head.as_str(), list.as_str(), " FROM audit_logs")
}

/// The marker is refused exactly where there is more than one Master key, and the refusal says how
/// many there are.
pub proof fn law_when_the_marker_is_refused(masters: nat)
    ensures
        marker_refusal(masters) is None <==> masters <= 1,
        masters > 1 ==> marker_refusal(masters) == Some(
            "refusing to add master_marker: "@ + text::decimal(masters)
                + " rows already have is_master=true, expected at most 1"@,
        ),
        storage(Backend::Postgres) == "STORED"@,
        storage(Backend::Sqlite) == "VIRTUAL"@,
        storage(Backend::MySql) == "VIRTUAL"@,
{
}

/// The trail holds who did what to what, from where and when: one column identifies a row, the key may
/// be gone, and what was done and when is always there.
pub proof fn law_what_the_trail_holds(attribution_not_null: bool)
    ensures
        ({
            let table = audit_log_columns(attribution_not_null);
            &&& names(table) == seq![
                "id"@,
                "api_key_id"@,
                "api_key_name"@,
                "api_key_prefix"@,
                "client_ip"@,
                "action"@,
                "target_resource"@,
                "details"@,
                "timestamp"@,
            ]
            &&& forall|i: int|
                0 <= i < table.len() ==> ((#[trigger] table[i]).primary_key <==> i == 0)
            &&& table[0].not_null && table[5].not_null && table[8].not_null
            &&& !table[1].not_null && !table[6].not_null && !table[7].not_null
            &&& table[2].not_null == attribution_not_null
            &&& table[3].not_null == attribution_not_null
            &&& table[4].not_null == attribution_not_null
            &&& table[0].kind == ColumnKind::Uuid && table[1].kind == ColumnKind::Uuid
            &&& table[2].kind == ColumnKind::ShortText && table[3].kind == ColumnKind::ShortText
            &&& table[4].kind == ColumnKind::ShortText && table[5].kind == ColumnKind::ShortText
            &&& table[6].kind == ColumnKind::ShortText && table[7].kind == ColumnKind::LongText
            &&& table[8].kind == ColumnKind::Time
        }),
        Attribution::ApiKeyName.text() == "api_key_name"@,
        Attribution::ApiKeyPrefix.text() == "api_key_prefix"@,
        Attribution::ClientIp.text() == "client_ip"@,
        UNRECORDED@ == "(unknown)"@,
{
    assert(names(audit_log_columns(attribution_not_null)) =~= seq![
        "id"@,
        "api_key_id"@,
        "api_key_name"@,
        "api_key_prefix"@,
        "client_ip"@,
        "action"@,
        "target_resource"@,
        "details"@,
        "timestamp"@,
    ]);
}

} // verus!
