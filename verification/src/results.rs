//! Shaping what the engines send back into a `QueryResult`: PostgreSQL's
//! message stream and MongoDB's documents.
use vstd::prelude::*;
use crate::db::{signed_decimal, signed_text, QueryResult, ROW_LIMIT};

verus! {

/// A column list with no rows yet.
pub fn result_with_columns(columns: Vec<String>, affected: usize) -> (r: QueryResult)
    ensures
        r.columns == columns,
        r.rows@.len() == 0,
        r.affected == affected,
        !r.truncated,
{
    QueryResult { columns, rows: Vec::new(), affected, truncated: false }
}

/// A message of PostgreSQL's simple query protocol.
pub enum PgMessage {
    /// The columns of the rows that follow.
    RowDescription(Vec<String>),
    /// A row; `None` is SQL `NULL`.
    Row(Vec<Option<String>>),
    /// A statement finished, having affected this many rows.
    CommandComplete(u64),
    /// Anything else, which changes nothing.
    Other,
}

/// How a PostgreSQL cell is shown.
pub open spec fn pg_cell(v: Option<String>) -> Seq<char> {
    match v {
        Some(s) => s@,
        None => "NULL"@,
    }
}

/// `row` shows `values` cell by cell.
pub open spec fn shows_cells(row: Vec<String>, values: Seq<Option<String>>) -> bool {
    &&& row@.len() == values.len()
    &&& forall|i: int| 0 <= i < values.len() ==> #[trigger] row@[i]@ == pg_cell(values[i])
}

/// Builds the result of a PostgreSQL script from its messages: each row
/// description starts a fresh result, rows are kept up to `ROW_LIMIT`, and a
/// statement that completes after another one already did (without rows in
/// between) replaces the result with a bare count. The last statement wins.
pub struct PgCollector {
    pub result: QueryResult,
    pub completed: bool,
}

pub fn render_pg_row(values: Vec<Option<String>>) -> (row: Vec<String>)
    ensures
        shows_cells(row, values@),
{
    let mut row: Vec<String> = Vec::new();
    let mut i: usize = 0;
    while i < values.len()
        invariant
            i <= values.len(),
            row@.len() == i,
            forall|k: int| 0 <= k < i ==> #[trigger] row@[k]@ == pg_cell(values@[k]),
        decreases values.len() - i,
    {
        let cell = match &values[i] {
            Some(s) => s.clone(),
            None => String::from_str("NULL"),
        };
        row.push(cell);
        i = i + 1;
    }
    row
}

impl PgCollector {
    pub fn new() -> (c: PgCollector)
        ensures
            c.result.is_empty_result(),
            !c.completed,
    {
        PgCollector { result: QueryResult::default(), completed: false }
    }

    /// Takes in the next message.
    pub fn feed(&mut self, message: PgMessage)
        ensures
            match message {
                PgMessage::RowDescription(columns) => {
                    &&& !final(self).completed
                    &&& final(self).result.columns == columns
                    &&& final(self).result.rows@.len() == 0
                    &&& final(self).result.affected == 0
                    &&& !final(self).result.truncated
                },
                PgMessage::Row(values) => {
                    &&& final(self).completed == old(self).completed
                    &&& final(self).result.columns == old(self).result.columns
                    &&& final(self).result.affected == old(self).result.affected
                    &&& if old(self).result.rows@.len() < ROW_LIMIT {
                        &&& final(self).result.rows@.len() == old(self).result.rows@.len() + 1
                        &&& final(self).result.rows@.drop_last() == old(self).result.rows@
                        &&& shows_cells(final(self).result.rows@.last(), values@)
                        &&& final(self).result.truncated == old(self).result.truncated
                    } else {
                        &&& final(self).result.rows@ == old(self).result.rows@
                        &&& final(self).result.truncated
                    }
                },
                PgMessage::CommandComplete(count) => {
                    &&& final(self).completed
                    &&& final(self).result.affected == count as usize
                    &&& if old(self).completed {
                        &&& final(self).result.columns@.len() == 0
                        &&& final(self).result.rows@.len() == 0
                        &&& !final(self).result.truncated
                    } else {
                        &&& final(self).result.columns == old(self).result.columns
                        &&& final(self).result.rows == old(self).result.rows
                        &&& final(self).result.truncated == old(self).result.truncated
                    }
                },
                PgMessage::Other => *final(self) == *old(self),
            },
    {
        match message {
            PgMessage::RowDescription(columns) => {
                self.completed = false;
                self.result = result_with_columns(columns, 0);
            },
            PgMessage::Row(values) => {
                let row = render_pg_row(values);
                let ghost before = self.result.rows@;
                self.result.push_row(row);
                proof {
                    if before.len() < ROW_LIMIT {
                        assert(self.result.rows@.drop_last() =~= before);
                    }
                }
            },
            PgMessage::CommandComplete(count) => {
                if self.completed {
                    self.result = QueryResult::default();
                }
                self.result.affected = count as usize;
                self.completed = true;
            },
            PgMessage::Other => {},
        }
    }

    pub fn finish(self) -> (r: QueryResult)
        ensures
            r == self.result,
    {
        self.result
    }
}

/// A MongoDB document as the grid reads it: each top-level field's name and
/// its rendered value, `None` standing for BSON `null`.
pub type DocumentFields = Vec<(String, Option<String>)>;

/// The names of a document's fields, in order.
pub open spec fn field_names(doc: Seq<(String, Option<String>)>) -> Seq<Seq<char>>
    decreases doc.len(),
{
    if doc.len() == 0 {
        seq![]
    } else {
        field_names(doc.drop_last()).push(doc.last().0@)
    }
}

/// `columns` extended by each of `names` not already among them, in order.
pub open spec fn add_new(columns: Seq<Seq<char>>, names: Seq<Seq<char>>) -> Seq<Seq<char>>
    decreases names.len(),
{
    if names.len() == 0 {
        columns
    } else {
        let before = add_new(columns, names.drop_last());
        if before.contains(names.last()) {
            before
        } else {
            before.push(names.last())
        }
    }
}

/// The union of the documents' field names, in order of first appearance.
pub open spec fn document_columns(docs: Seq<Vec<(String, Option<String>)>>) -> Seq<Seq<char>>
    decreases docs.len(),
{
    if docs.len() == 0 {
        seq![]
    } else {
        add_new(document_columns(docs.drop_last()), field_names(docs.last()@))
    }
}

/// The value of a document's first field named `key`, if it has one.
pub open spec fn field_value(doc: Seq<(String, Option<String>)>, key: Seq<char>) -> Option<
    Option<String>,
>
    decreases doc.len(),
{
    if doc.len() == 0 {
        None
    } else if doc[0].0@ == key {
        Some(doc[0].1)
    } else {
        field_value(doc.drop_first(), key)
    }
}

/// The cell of a document under a column: its value, or `NULL` where the
/// field is missing or null.
pub open spec fn document_cell(doc: Seq<(String, Option<String>)>, key: Seq<char>) -> Seq<char> {
    match field_value(doc, key) {
        Some(Some(v)) => v@,
        _ => "NULL"@,
    }
}

/// The result grid of a list of documents: the columns are the union of
/// their top-level field names in order of first appearance, and each
/// document gives one row, with `NULL` where it lacks a field.
pub open spec fn documents_shown(
    docs: Seq<Vec<(String, Option<String>)>>,
    truncated: bool,
    r: QueryResult,
) -> bool {
    let columns = document_columns(docs);
    &&& r.columns@.len() == columns.len()
    &&& forall|j: int| 0 <= j < columns.len() ==> #[trigger] r.columns@[j]@ == columns[j]
    &&& r.rows@.len() == docs.len()
    &&& forall|i: int|
        0 <= i < docs.len() ==> (#[trigger] r.rows@[i])@.len() == columns.len()
    &&& forall|i: int, j: int|
        0 <= i < docs.len() && 0 <= j < columns.len() ==> (#[trigger] r.rows@[i]@[j])@
            == document_cell(docs[i]@, columns[j])
    &&& r.affected == 0
    &&& r.truncated == truncated
}

spec fn views(v: Seq<String>) -> Seq<Seq<char>> {
    v.map_values(|s: String| s@)
}

fn contains_text(columns: &Vec<String>, key: &String) -> (r: bool)
    ensures
        r == views(columns@).contains(key@),
{
    let mut i: usize = 0;
    while i < columns.len()
        invariant
            i <= columns.len(),
            forall|k: int| 0 <= k < i ==> columns@[k]@ != key@,
        decreases columns.len() - i,
    {
        if columns[i] == *key {
            assert(views(columns@)[i as int] == key@);
            return true;
        }
        i = i + 1;
    }
    assert forall|k: int| 0 <= k < views(columns@).len() implies views(columns@)[k] != key@ by {
        assert(views(columns@)[k] == columns@[k]@);
    }
    false
}

fn cell_of(doc: &Vec<(String, Option<String>)>, key: &String) -> (r: String)
    ensures
        r@ == document_cell(doc@, key@),
{
    let mut i: usize = 0;
    assert(doc@.skip(0) =~= doc@);
    while i < doc.len()
        invariant
            i <= doc.len(),
            field_value(doc@, key@) == field_value(doc@.skip(i as int), key@),
        decreases doc.len() - i,
    {
        assert(doc@.skip(i as int).drop_first() =~= doc@.skip(i + 1));
        if doc[i].0 == *key {
            return match &doc[i].1 {
                Some(v) => v.clone(),
                None => String::from_str("NULL"),
            };
        }
        i = i + 1;
    }
    String::from_str("NULL")
}

/// Builds the grid of a list of MongoDB documents.
pub fn documents_to_result(docs: Vec<Vec<(String, Option<String>)>>, truncated: bool) -> (r:
    QueryResult)
    ensures
        documents_shown(docs@, truncated, r),
{
    let mut columns: Vec<String> = Vec::new();
    let mut d: usize = 0;
    while d < docs.len()
        invariant
            d <= docs.len(),
            views(columns@) == document_columns(docs@.take(d as int)),
        decreases docs.len() - d,
    {
        let doc = &docs[d];
        let ghost before = views(columns@);
        let mut f: usize = 0;
        while f < doc.len()
            invariant
                d < docs.len(),
                f <= doc.len(),
                doc == docs@[d as int],
                views(columns@) == add_new(before, field_names(doc@.take(f as int))),
            decreases doc.len() - f,
        {
            let key = &doc[f].0;
            let ghost names = field_names(doc@.take(f + 1));
            assert(doc@.take(f + 1).drop_last() =~= doc@.take(f as int));
            assert(names == field_names(doc@.take(f as int)).push(key@));
            assert(names.drop_last() =~= field_names(doc@.take(f as int)));
            assert(names.last() == key@);
            let ghost prior = views(columns@);
            if !contains_text(&columns, key) {
                columns.push(key.clone());
                assert(views(columns@) =~= prior.push(key@));
            }
            f = f + 1;
        }
        assert(doc@.take(doc@.len() as int) =~= doc@);
        assert(docs@.take(d + 1).drop_last() =~= docs@.take(d as int));
        d = d + 1;
    }
    assert(docs@.take(docs@.len() as int) =~= docs@);
    let ghost cols = document_columns(docs@);
    let mut rows: Vec<Vec<String>> = Vec::new();
    let mut i: usize = 0;
    while i < docs.len()
        invariant
            i <= docs.len(),
            views(columns@) == cols,
            cols == document_columns(docs@),
            rows@.len() == i,
            forall|a: int| 0 <= a < i ==> (#[trigger] rows@[a])@.len() == cols.len(),
            forall|a: int, b: int|
                0 <= a < i && 0 <= b < cols.len() ==> (#[trigger] rows@[a]@[b])@ == document_cell(
                    docs@[a]@,
                    cols[b],
                ),
        decreases docs.len() - i,
    {
        let mut row: Vec<String> = Vec::new();
        let mut j: usize = 0;
        while j < columns.len()
            invariant
                i < docs.len(),
                j <= columns.len(),
                views(columns@) == cols,
                row@.len() == j,
                forall|b: int|
                    0 <= b < j ==> (#[trigger] row@[b])@ == document_cell(docs@[i as int]@, cols[b]),
            decreases columns.len() - j,
        {
            assert(cols[j as int] == columns@[j as int]@);
            let cell = cell_of(&docs[i], &columns[j]);
            row.push(cell);
            j = j + 1;
        }
        rows.push(row);
        i = i + 1;
    }
    assert forall|j: int| 0 <= j < cols.len() implies #[trigger] columns@[j]@ == cols[j] by {
        assert(views(columns@)[j] == columns@[j]@);
    }
    QueryResult { columns, rows, affected: 0, truncated }
}


/// Whether some field of some document is named `x`.
pub open spec fn some_field_named(docs: Seq<Vec<(String, Option<String>)>>, x: Seq<char>) -> bool {
    exists|i: int, k: int| 0 <= i < docs.len() && 0 <= k < docs[i]@.len() && #[trigger] docs[i]@[k].0@ == x
}

proof fn lemma_field_names(doc: Seq<(String, Option<String>)>)
    ensures
        field_names(doc).len() == doc.len(),
        forall|k: int| 0 <= k < doc.len() ==> #[trigger] field_names(doc)[k] == doc[k].0@,
    decreases doc.len(),
{
    if doc.len() > 0 {
        lemma_field_names(doc.drop_last());
    }
}

proof fn lemma_add_new(columns: Seq<Seq<char>>, names: Seq<Seq<char>>)
    requires
        columns.no_duplicates(),
    ensures
        add_new(columns, names).no_duplicates(),
        forall|x: Seq<char>| #[trigger] add_new(columns, names).contains(x) <==> (columns.contains(x) || names.contains(x)),
    decreases names.len(),
{
    if names.len() > 0 {
        let init = names.drop_last();
        lemma_add_new(columns, init);
        assert forall|x: Seq<char>| names.contains(x) <==> (init.contains(x) || x == names.last()) by {
            if names.contains(x) {
                let k = choose|k: int| 0 <= k < names.len() && names[k] == x;
                if k < names.len() - 1 {
                    assert(init[k] == x);
                }
            }
            if init.contains(x) {
                let k = choose|k: int| 0 <= k < init.len() && init[k] == x;
                assert(names[k] == x);
            }
            if x == names.last() {
                assert(names[names.len() - 1] == x);
            }
        }
        let before = add_new(columns, init);
        let l = names.last();
        assert forall|x: Seq<char>| before.push(l).contains(x) <==> (before.contains(x) || x == l) by {
            if before.push(l).contains(x) {
                let k = choose|k: int| 0 <= k < before.len() + 1 && before.push(l)[k] == x;
                if k < before.len() {
                    assert(before[k] == x);
                }
            }
            if before.contains(x) {
                let k = choose|k: int| 0 <= k < before.len() && before[k] == x;
                assert(before.push(l)[k] == x);
            }
            if x == l {
                assert(before.push(l)[before.len() as int] == x);
            }
        }
        if !before.contains(l) {
            assert forall|i: int, j: int| 0 <= i < j < before.len() + 1 implies before.push(l)[i] != before.push(l)[j] by {
                if j == before.len() {
                    assert(before.push(l)[i] == before[i]);
                }
            }
        }
        assert forall|x: Seq<char>| #[trigger] add_new(columns, names).contains(x) <==> (columns.contains(x)
            || names.contains(x)) by {
            assert(before.contains(x) <==> (columns.contains(x) || init.contains(x)));
        }
    }
}

/// The columns of a list of documents name each field of each document,
/// and nothing else, each once.
pub proof fn law_columns_cover_fields(docs: Seq<Vec<(String, Option<String>)>>)
    ensures
        document_columns(docs).no_duplicates(),
        forall|x: Seq<char>| #[trigger] document_columns(docs).contains(x) <==> some_field_named(docs, x),
    decreases docs.len(),
{
    if docs.len() > 0 {
        let init = docs.drop_last();
        let last = docs.last()@;
        law_columns_cover_fields(init);
        lemma_add_new(document_columns(init), field_names(last));
        lemma_field_names(last);
        assert forall|x: Seq<char>| #[trigger] document_columns(docs).contains(x) <==> some_field_named(docs, x) by {
            if some_field_named(docs, x) {
                let (i, k) = choose|i: int, k: int|
                    0 <= i < docs.len() && 0 <= k < docs[i]@.len() && #[trigger] docs[i]@[k].0@ == x;
                if i < docs.len() - 1 {
                    assert(init[i]@[k].0@ == x);
                    assert(some_field_named(init, x));
                } else {
                    assert(field_names(last)[k] == x);
                    assert(field_names(last).contains(x));
                }
            }
            if document_columns(docs).contains(x) {
                if document_columns(init).contains(x) {
                    let (i, k) = choose|i: int, k: int|
                        0 <= i < init.len() && 0 <= k < init[i]@.len() && #[trigger] init[i]@[k].0@ == x;
                    assert(docs[i]@[k].0@ == x);
                } else {
                    assert(field_names(last).contains(x));
                    let k = choose|k: int| 0 <= k < field_names(last).len() && field_names(last)[k] == x;
                    assert(docs[docs.len() - 1]@[k].0@ == x);
                }
            }
        }
    } else {
        assert(document_columns(docs) =~= Seq::<Seq<char>>::empty());
    }
}


/// A MongoDB field's value, as the grid reads it.
pub enum BsonValue {
    Null,
    Text(String),
    Boolean(bool),
    Int32(i32),
    Int64(i64),
    /// An ObjectId, by its hexadecimal text.
    ObjectId(String),
    /// Any other value, already written out (a double, or a subdocument or
    /// array as its compact relaxed extended JSON).
    Rendered(String),
}

/// How a MongoDB value shows in a cell: `None` for null (shown as `NULL`),
/// strings as they are, booleans and integers as Rust writes them.
pub open spec fn bson_text(v: BsonValue) -> Option<Seq<char>> {
    match v {
        BsonValue::Null => None,
        BsonValue::Text(s) => Some(s@),
        BsonValue::Boolean(b) => Some(if b { "true"@ } else { "false"@ }),
        BsonValue::Int32(n) => Some(signed_decimal(n as int)),
        BsonValue::Int64(n) => Some(signed_decimal(n as int)),
        BsonValue::ObjectId(h) => Some(h@),
        BsonValue::Rendered(s) => Some(s@),
    }
}

/// A MongoDB value as a field of a document row (`None` for null).
pub fn bson_cell(v: BsonValue) -> (r: Option<String>)
    ensures
        match r {
            Some(t) => bson_text(v) == Some(t@),
            None => bson_text(v) is None,
        },
{
    match v {
        BsonValue::Null => None,
        BsonValue::Text(s) => Some(s),
        BsonValue::Boolean(b) => Some(String::from_str(if b { "true" } else { "false" })),
        BsonValue::Int32(n) => Some(signed_text(n as i64)),
        BsonValue::Int64(n) => Some(signed_text(n)),
        BsonValue::ObjectId(h) => Some(h),
        BsonValue::Rendered(s) => Some(s),
    }
}

} // verus!
