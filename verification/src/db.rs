//! Query results and the SQLite-specific rules: the row cap, identifier
//! quoting for previews and how a cell is shown.
use vstd::prelude::*;
use crate::text::{blank, decimal, decimal_text, is_blank, push_quoted, quoted};

verus! {

/// The most rows a result keeps; more are counted as truncation.
pub const ROW_LIMIT: usize = 500;

/// What a statement gave back: its columns, at most `ROW_LIMIT` rows of
/// rendered cells, the affected-row count and whether rows were dropped.
#[derive(Debug, Clone)]
pub struct QueryResult {
    pub columns: Vec<String>,
    pub rows: Vec<Vec<String>>,
    pub affected: usize,
    pub truncated: bool,
}

impl QueryResult {
    /// No columns, no rows, nothing affected, nothing dropped.
    pub open spec fn is_empty_result(&self) -> bool {
        &&& self.columns@.len() == 0
        &&& self.rows@.len() == 0
        &&& self.affected == 0
        &&& !self.truncated
    }

    /// Keeps `row` while fewer than `ROW_LIMIT` rows are held; otherwise
    /// only records that the result was truncated.
    pub fn push_row(&mut self, row: Vec<String>)
        ensures
            old(self).rows@.len() < ROW_LIMIT ==> {
                &&& final(self).rows@ == old(self).rows@.push(row)
                &&& final(self).truncated == old(self).truncated
            },
            old(self).rows@.len() >= ROW_LIMIT ==> {
                &&& final(self).rows@ == old(self).rows@
                &&& final(self).truncated
            },
            final(self).columns == old(self).columns,
            final(self).affected == old(self).affected,
    {
        if self.rows.len() < ROW_LIMIT {
            self.rows.push(row);
        } else {
            self.truncated = true;
        }
    }
}

impl Default for QueryResult {
    fn default() -> (r: Self)
        ensures
            r.is_empty_result(),
    {
        QueryResult { columns: Vec::new(), rows: Vec::new(), affected: 0, truncated: false }
    }
}

/// A table or view of a SQLite database.
#[derive(Debug, Clone, PartialEq, Eq)]
pub struct SqliteCatalogEntry {
    pub name: String,
    pub is_view: bool,
}

/// The query that previews a SQLite table.
pub open spec fn sqlite_preview(table: Seq<char>) -> Seq<char> {
    "SELECT * FROM "@ + quoted(table, '"') + " LIMIT "@ + decimal(ROW_LIMIT as nat) + ";"@
}

/// `SELECT * FROM "<table>" LIMIT 500;`, with the table name quoted.
pub fn preview_sql(table: &str) -> (sql: String)
    ensures
        sql@ == sqlite_preview(table@),
{
    let mut sql = String::from_str("SELECT * FROM ");
    push_quoted(&mut sql, table, '"');
    sql.append(" LIMIT ");
    let limit = decimal_text(ROW_LIMIT as u64);
    sql.append(limit.as_str());
    sql.append(";");
    sql
}

/// The message for a SQLite path that is empty or only whitespace.
pub open spec fn missing_path_message() -> Seq<char> {
    "Ingresa una ruta SQLite o :memory:."@
}

/// The check made before opening a SQLite database.
pub fn check_sqlite_path(path: &str) -> (r: Result<(), String>)
    ensures
        blank(path@) ==> r == Err::<(), String>(r->Err_0) && r->Err_0@ == missing_path_message(),
        !blank(path@) ==> r is Ok,
{
    if is_blank(path) {
        Err(String::from_str("Ingresa una ruta SQLite o :memory:."))
    } else {
        Ok(())
    }
}

/// The check made before running a statement on SQLite.
pub fn check_sqlite_statement(sql: &str) -> (r: Result<(), String>)
    ensures
        blank(sql@) ==> r is Err && r->Err_0@ == "Escribe una sentencia SQL."@,
        !blank(sql@) ==> r is Ok,
{
    if is_blank(sql) {
        Err(String::from_str("Escribe una sentencia SQL."))
    } else {
        Ok(())
    }
}

/// A value read from a driver, before it is shown in the grid.
pub enum CellValue {
    Null,
    Integer(i64),
    Text(String),
    Blob(usize),
    /// A value the driver already rendered.
    Rendered(String),
}

/// `n.to_string()` for a signed integer.
pub open spec fn signed_decimal(n: int) -> Seq<char> {
    if n < 0 {
        "-"@ + decimal((-n) as nat)
    } else {
        decimal(n as nat)
    }
}

/// `[BLOB: <n> bytes]`.
pub open spec fn blob_label(n: nat) -> Seq<char> {
    "[BLOB: "@ + decimal(n) + " bytes]"@
}

/// How a cell is shown: `NULL`, the number, the text, or a blob's size.
pub open spec fn cell_text(v: CellValue) -> Seq<char> {
    match v {
        CellValue::Null => "NULL"@,
        CellValue::Integer(n) => signed_decimal(n as int),
        CellValue::Text(s) => s@,
        CellValue::Blob(n) => blob_label(n as nat),
        CellValue::Rendered(s) => s@,
    }
}

/// Renders a cell for the result grid.
pub fn render_cell(v: CellValue) -> (s: String)
    ensures
        s@ == cell_text(v),
{
    match v {
        CellValue::Null => String::from_str("NULL"),
        CellValue::Integer(n) => signed_text(n),
        CellValue::Text(t) => t,
        CellValue::Blob(n) => {
            let mut s = String::from_str("[BLOB: ");
            let digits = decimal_text(n as u64);
            s.append(digits.as_str());
            s.append(" bytes]");
            s
        },
        CellValue::Rendered(t) => t,
    }
}

/// `n.to_string()` for an `i64`.
pub fn signed_text(n: i64) -> (s: String)
    ensures
        s@ == signed_decimal(n as int),
{
    if n < 0 {
        let mut s = String::from_str("-");
        let magnitude: u64 = if n == i64::MIN {
            9223372036854775808u64
        } else {
            (-n) as u64
        };
        let digits = decimal_text(magnitude);
        s.append(digits.as_str());
        s
    } else {
        decimal_text(n as u64)
    }
}

} // verus!
