//! Turning what each engine lists into catalog objects for the tree.
use vstd::prelude::*;
use crate::db::SqliteCatalogEntry;
use crate::drivers::{CatalogObject, ObjectKind};
use crate::text::{has_prefix, parse_u32, parse_unsigned, same_text, starts_with};

verus! {

/// The PostgreSQL server version from which routines have a `prokind`.
pub const PROKIND_SINCE: u32 = 110000;

/// Whether the server reports, in `server_version_num`, a version with
/// `pg_proc.prokind` (PostgreSQL 11 or later). An unreadable answer counts
/// as an older server.
pub open spec fn has_prokind(version: Option<Seq<char>>) -> bool {
    match version {
        Some(v) => match parse_unsigned(v, u32::MAX as nat) {
            Some(n) => n >= PROKIND_SINCE,
            None => false,
        },
        None => false,
    }
}

pub fn server_has_prokind(version: Option<&str>) -> (r: bool)
    ensures
        r == has_prokind(match version {
            Some(v) => Some(v@),
            None => None,
        }),
{
    match version {
        Some(v) => match parse_u32(v) {
            Some(n) => n >= PROKIND_SINCE,
            None => false,
        },
        None => false,
    }
}

pub const PG_CATALOG_HEAD: &'static str = "SELECT table_schema, table_name, 'table' FROM information_schema.tables \
     WHERE table_type = 'BASE TABLE' AND table_schema NOT IN ('pg_catalog', 'information_schema') \
     UNION ALL \
     SELECT table_schema, table_name, 'view' FROM information_schema.tables \
     WHERE table_type = 'VIEW' AND table_schema NOT IN ('pg_catalog', 'information_schema') \
     UNION ALL \
     SELECT schemaname, matviewname, 'materialized_view' FROM pg_matviews \
     WHERE schemaname NOT IN ('pg_catalog', 'information_schema') \
     UNION ALL \
     SELECT n.nspname, p.proname, ";

pub const PG_CATALOG_MIDDLE: &'static str = " FROM pg_proc p JOIN pg_namespace n ON n.oid = p.pronamespace \
     WHERE ";

pub const PG_CATALOG_TAIL: &'static str = " AND n.nspname NOT IN ('pg_catalog', 'information_schema') \
     ORDER BY 1, 3, 2";

pub const PG_ROUTINE_KIND_BY_PROKIND: &'static str = "CASE p.prokind WHEN 'p' THEN 'procedure' ELSE 'function' END";

pub const PG_ROUTINE_KIND_FUNCTION: &'static str = "'function'";

pub const PG_ROUTINE_FILTER_BY_PROKIND: &'static str = "p.prokind IN ('f', 'p')";

pub const PG_ROUTINE_FILTER_ALL: &'static str = "true";

/// The catalog query for PostgreSQL: tables, views, materialized views and
/// routines outside the system schemas, routines told apart by `prokind`
/// only where the server has it.
pub open spec fn pg_catalog_query(prokind: bool) -> Seq<char> {
    let kind = if prokind {
        PG_ROUTINE_KIND_BY_PROKIND@
    } else {
        PG_ROUTINE_KIND_FUNCTION@
    };
    let filter = if prokind {
        PG_ROUTINE_FILTER_BY_PROKIND@
    } else {
        PG_ROUTINE_FILTER_ALL@
    };
    PG_CATALOG_HEAD@ + kind + PG_CATALOG_MIDDLE@ + filter + PG_CATALOG_TAIL@
}

pub fn postgres_catalog_query(prokind: bool) -> (q: String)
    ensures
        q@ == pg_catalog_query(prokind),
{
    let mut q = String::from_str(PG_CATALOG_HEAD);
    q.append(
        if prokind {
            PG_ROUTINE_KIND_BY_PROKIND
        } else {
            PG_ROUTINE_KIND_FUNCTION
        },
    );
    q.append(PG_CATALOG_MIDDLE);
    q.append(
        if prokind {
            PG_ROUTINE_FILTER_BY_PROKIND
        } else {
            PG_ROUTINE_FILTER_ALL
        },
    );
    q.append(PG_CATALOG_TAIL);
    q
}

/// The MySQL catalog query: tables, views and routines of the current
/// database.
pub const MYSQL_CATALOG_QUERY: &'static str = "SELECT TABLE_SCHEMA, TABLE_NAME, TABLE_TYPE FROM information_schema.tables \
     WHERE TABLE_SCHEMA = DATABASE() \
     UNION ALL \
     SELECT ROUTINE_SCHEMA, ROUTINE_NAME, ROUTINE_TYPE FROM information_schema.routines \
     WHERE ROUTINE_SCHEMA = DATABASE() \
     ORDER BY 3, 2";

/// The kind named in the third column of the PostgreSQL catalog query.
pub open spec fn pg_kind(k: Seq<char>) -> Option<ObjectKind> {
    if k == "table"@ {
        Some(ObjectKind::Table)
    } else if k == "view"@ {
        Some(ObjectKind::View)
    } else if k == "materialized_view"@ {
        Some(ObjectKind::MaterializedView)
    } else if k == "function"@ {
        Some(ObjectKind::Function)
    } else if k == "procedure"@ {
        Some(ObjectKind::Procedure)
    } else {
        None
    }
}

/// A PostgreSQL catalog row as an object, filed under its schema; rows of
/// any other kind are left out.
pub fn postgres_object(schema: String, name: String, kind: &str) -> (r: Option<CatalogObject>)
    ensures
        match pg_kind(kind@) {
            Some(k) => r == Some(CatalogObject { schema: Some(schema), name, kind: k }),
            None => r is None,
        },
{
    let k = if same_text(kind, "table") {
        ObjectKind::Table
    } else if same_text(kind, "view") {
        ObjectKind::View
    } else if same_text(kind, "materialized_view") {
        ObjectKind::MaterializedView
    } else if same_text(kind, "function") {
        ObjectKind::Function
    } else if same_text(kind, "procedure") {
        ObjectKind::Procedure
    } else {
        return None;
    };
    Some(CatalogObject { schema: Some(schema), name, kind: k })
}

/// The kind named by `TABLE_TYPE` or `ROUTINE_TYPE` in MySQL.
pub open spec fn mysql_kind(k: Seq<char>) -> Option<ObjectKind> {
    if k == "BASE TABLE"@ {
        Some(ObjectKind::Table)
    } else if k == "VIEW"@ {
        Some(ObjectKind::View)
    } else if k == "FUNCTION"@ {
        Some(ObjectKind::Function)
    } else if k == "PROCEDURE"@ {
        Some(ObjectKind::Procedure)
    } else {
        None
    }
}

/// A MySQL catalog row as an object; rows of any other type are left out.
pub fn mysql_object(schema: String, name: String, kind: &str) -> (r: Option<CatalogObject>)
    ensures
        match mysql_kind(kind@) {
            Some(k) => r == Some(CatalogObject { schema: Some(schema), name, kind: k }),
            None => r is None,
        },
{
    let k = if same_text(kind, "BASE TABLE") {
        ObjectKind::Table
    } else if same_text(kind, "VIEW") {
        ObjectKind::View
    } else if same_text(kind, "FUNCTION") {
        ObjectKind::Function
    } else if same_text(kind, "PROCEDURE") {
        ObjectKind::Procedure
    } else {
        return None;
    };
    Some(CatalogObject { schema: Some(schema), name, kind: k })
}

/// MongoDB's own databases, which the tree does not show.
pub open spec fn mongo_system_database(name: Seq<char>) -> bool {
    name == "admin"@ || name == "local"@ || name == "config"@
}

pub fn is_listed_database(name: &str) -> (r: bool)
    ensures
        r == !mongo_system_database(name@),
{
    !(same_text(name, "admin") || same_text(name, "local") || same_text(name, "config"))
}

/// A collection or view of a MongoDB database, filed under the database;
/// the `system.` collections are left out.
pub fn mongo_object(database: String, name: String, is_view: bool) -> (r: Option<CatalogObject>)
    ensures
        has_prefix(name@, "system."@) ==> r is None,
        !has_prefix(name@, "system."@) ==> r == Some(
            CatalogObject {
                schema: Some(database),
                name,
                kind: if is_view {
                    ObjectKind::View
                } else {
                    ObjectKind::Collection
                },
            },
        ),
{
    if starts_with(name.as_str(), "system.") {
        return None;
    }
    let kind = if is_view {
        ObjectKind::View
    } else {
        ObjectKind::Collection
    };
    Some(CatalogObject { schema: Some(database), name, kind })
}

/// A SQLite table or view, which has no schema.
pub fn sqlite_object(entry: SqliteCatalogEntry) -> (r: CatalogObject)
    ensures
        r == (CatalogObject {
            schema: None,
            name: entry.name,
            kind: if entry.is_view {
                ObjectKind::View
            } else {
                ObjectKind::Table
            },
        }),
{
    CatalogObject {
        schema: None,
        name: entry.name,
        kind: if entry.is_view {
            ObjectKind::View
        } else {
            ObjectKind::Table
        },
    }
}


/// The tables and views of a SQLite database, by name, without SQLite's own.
pub const SQLITE_CATALOG_QUERY: &'static str = "SELECT name, type FROM sqlite_schema WHERE type IN ('table', 'view') AND name NOT LIKE 'sqlite_%' ORDER BY name";

/// A row of the SQLite catalog query: a view where its type says so, a
/// table otherwise.
pub fn sqlite_entry(name: String, kind: &str) -> (r: SqliteCatalogEntry)
    ensures
        r.name == name,
        r.is_view == (kind@ == "view"@),
{
    let is_view = same_text(kind, "view");
    SqliteCatalogEntry { name, is_view }
}


/// PostgreSQL catalog rows are filed by the kind their third column names,
/// and two different kind names never give the same kind.
pub proof fn law_pg_kinds()
    ensures
        pg_kind("table"@) == Some(ObjectKind::Table),
        pg_kind("view"@) == Some(ObjectKind::View),
        pg_kind("materialized_view"@) == Some(ObjectKind::MaterializedView),
        pg_kind("function"@) == Some(ObjectKind::Function),
        pg_kind("procedure"@) == Some(ObjectKind::Procedure),
        forall|a: Seq<char>, b: Seq<char>| #[trigger] pg_kind(a) is Some && pg_kind(a) == #[trigger] pg_kind(b) ==> a == b,
{
    reveal_strlit("table");
    reveal_strlit("view");
    reveal_strlit("materialized_view");
    reveal_strlit("function");
    reveal_strlit("procedure");
    assert("view"@ != "table"@) by { assert("view"@.len() != "table"@.len()); }
    assert("materialized_view"@ != "table"@) by { assert("materialized_view"@.len() != "table"@.len()); }
    assert("materialized_view"@ != "view"@) by { assert("materialized_view"@.len() != "view"@.len()); }
    assert("function"@ != "table"@) by { assert("function"@.len() != "table"@.len()); }
    assert("function"@ != "view"@) by { assert("function"@.len() != "view"@.len()); }
    assert("function"@ != "materialized_view"@) by { assert("function"@.len() != "materialized_view"@.len()); }
    assert("procedure"@ != "table"@) by { assert("procedure"@.len() != "table"@.len()); }
    assert("procedure"@ != "view"@) by { assert("procedure"@.len() != "view"@.len()); }
    assert("procedure"@ != "materialized_view"@) by { assert("procedure"@.len() != "materialized_view"@.len()); }
    assert("procedure"@ != "function"@) by { assert("procedure"@.len() != "function"@.len()); }
}

/// MySQL catalog rows are filed by the kind their type column names, and
/// two different type names never give the same kind.
pub proof fn law_mysql_kinds()
    ensures
        mysql_kind("BASE TABLE"@) == Some(ObjectKind::Table),
        mysql_kind("VIEW"@) == Some(ObjectKind::View),
        mysql_kind("FUNCTION"@) == Some(ObjectKind::Function),
        mysql_kind("PROCEDURE"@) == Some(ObjectKind::Procedure),
        forall|a: Seq<char>, b: Seq<char>| #[trigger] mysql_kind(a) is Some && mysql_kind(a) == #[trigger] mysql_kind(b) ==> a == b,
{
    reveal_strlit("BASE TABLE");
    reveal_strlit("VIEW");
    reveal_strlit("FUNCTION");
    reveal_strlit("PROCEDURE");
    assert("VIEW"@ != "BASE TABLE"@) by { assert("VIEW"@.len() != "BASE TABLE"@.len()); }
    assert("FUNCTION"@ != "BASE TABLE"@) by { assert("FUNCTION"@.len() != "BASE TABLE"@.len()); }
    assert("FUNCTION"@ != "VIEW"@) by { assert("FUNCTION"@.len() != "VIEW"@.len()); }
    assert("PROCEDURE"@ != "BASE TABLE"@) by { assert("PROCEDURE"@.len() != "BASE TABLE"@.len()); }
    assert("PROCEDURE"@ != "VIEW"@) by { assert("PROCEDURE"@.len() != "VIEW"@.len()); }
    assert("PROCEDURE"@ != "FUNCTION"@) by { assert("PROCEDURE"@.len() != "FUNCTION"@.len()); }
}

} // verus!
