//! The connections explorer: the rows of the tree beside the editor. Each
//! saved connection shows as a row, with its actions where it is selected
//! and its error where connecting failed; an expanded live connection lists
//! its catalog, in schema folders for PostgreSQL and MongoDB (sorted, each
//! once) and in one folder per object kind.
use vstd::prelude::*;
use crate::drivers::{previewable, CatalogObject, Driver, ObjectKind};
use crate::session::{contains_key, node_key, open_keys, texts, ConnState, ConnectionEntry, Session};
use crate::text::{
    decimal_text, lemma_text_lt_irreflexive, lemma_text_lt_total, lemma_text_lt_transitive,
    text_less, text_lt,
};

verus! {

/// Strictly increasing in `str` order: sorted, each text once.
pub open spec fn strictly_sorted(l: Seq<Seq<char>>) -> bool {
    forall|i: int, j: int| 0 <= i < j < l.len() ==> text_lt(#[trigger] l[i], #[trigger] l[j])
}

/// Whether some object of the catalog lies in schema `x`.
pub open spec fn has_schema(catalog: Seq<CatalogObject>, x: Seq<char>) -> bool {
    exists|j: int| 0 <= j < catalog.len() && #[trigger] schema_is(catalog[j], x)
}

/// Whether `o` lies in schema `x`.
pub open spec fn schema_is(o: CatalogObject, x: Seq<char>) -> bool {
    match o.schema {
        Some(s) => s@ == x,
        None => false,
    }
}

/// The schemas of a catalog, sorted, each once.
pub open spec fn schema_list(catalog: Seq<CatalogObject>) -> Seq<Seq<char>> {
    choose|l: Seq<Seq<char>>|
        strictly_sorted(l) && forall|x: Seq<char>| l.contains(x) <==> has_schema(catalog, x)
}

/// Two strictly sorted lists of the same texts are the same list.
pub proof fn lemma_sorted_unique(a: Seq<Seq<char>>, b: Seq<Seq<char>>)
    requires
        strictly_sorted(a),
        strictly_sorted(b),
        forall|x: Seq<char>| a.contains(x) <==> b.contains(x),
    ensures
        a == b,
    decreases a.len(),
{
    if a.len() == 0 {
        if b.len() > 0 {
            assert(b.contains(b[0]));
        }
        assert(a =~= b);
    } else {
        assert(a.contains(a[0]));
        assert(b.len() > 0);
        assert(b.contains(b[0]));
        let k = choose|k: int| 0 <= k < b.len() && b[k] == a[0];
        let m = choose|m: int| 0 <= m < a.len() && a[m] == b[0];
        if k > 0 {
            assert(text_lt(b[0], b[k]));
            if m > 0 {
                assert(text_lt(a[0], a[m]));
                lemma_text_lt_transitive(a[0], b[0], a[0]);
                lemma_text_lt_irreflexive(a[0]);
            } else {
                lemma_text_lt_irreflexive(a[0]);
            }
        }
        assert(a[0] == b[0]);
        let ta = a.drop_first();
        let tb = b.drop_first();
        assert forall|x: Seq<char>| ta.contains(x) <==> tb.contains(x) by {
            if ta.contains(x) {
                let i = choose|i: int| 0 <= i < ta.len() && ta[i] == x;
                assert(text_lt(a[0], a[i + 1]));
                lemma_text_lt_irreflexive(x);
                assert(a.contains(x));
                let j = choose|j: int| 0 <= j < b.len() && b[j] == x;
                assert(j != 0);
                assert(tb[j - 1] == x);
            }
            if tb.contains(x) {
                let i = choose|i: int| 0 <= i < tb.len() && tb[i] == x;
                assert(text_lt(b[0], b[i + 1]));
                lemma_text_lt_irreflexive(x);
                assert(b.contains(x));
                let j = choose|j: int| 0 <= j < a.len() && a[j] == x;
                assert(j != 0);
                assert(ta[j - 1] == x);
            }
        }
        assert(strictly_sorted(ta)) by {
            assert forall|i: int, j: int| 0 <= i < j < ta.len() implies text_lt(#[trigger] ta[i], #[trigger] ta[j]) by {
                assert(text_lt(a[i + 1], a[j + 1]));
            }
        }
        assert(strictly_sorted(tb)) by {
            assert forall|i: int, j: int| 0 <= i < j < tb.len() implies text_lt(#[trigger] tb[i], #[trigger] tb[j]) by {
                assert(text_lt(b[i + 1], b[j + 1]));
            }
        }
        lemma_sorted_unique(ta, tb);
        assert(a =~= seq![a[0]] + ta);
        assert(b =~= seq![b[0]] + tb);
    }
}

/// Puts `s` in its place in a strictly sorted list, unless it is there.
fn insert_sorted(l: &mut Vec<String>, s: &String)
    requires
        strictly_sorted(texts(old(l)@)),
    ensures
        strictly_sorted(texts(final(l)@)),
        forall|x: Seq<char>|
            texts(final(l)@).contains(x) <==> (texts(old(l)@).contains(x) || x == s@),
{
    let ghost before = texts(l@);
    let mut k: usize = 0;
    while k < l.len() && text_less(l[k].as_str(), s.as_str())
        invariant
            k <= l.len(),
            texts(l@) == before,
            forall|m: int| 0 <= m < k ==> text_lt(#[trigger] before[m], s@),
        decreases l.len() - k,
    {
        k = k + 1;
    }
    if k < l.len() && l[k] == *s {
        assert(before[k as int] == s@);
        assert(forall|x: Seq<char>| x == s@ ==> before.contains(x));
        return;
    }
    proof {
        if k < before.len() {
            lemma_text_lt_total(before[k as int], s@);
        }
    }
    l.insert(k, s.clone());
    let ghost after = texts(l@);
    assert(after =~= before.insert(k as int, s@));
    assert forall|i: int, j: int| 0 <= i < j < after.len() implies text_lt(#[trigger] after[i], #[trigger] after[j]) by {
        if j < k {
        } else if j == k {
        } else if i < k {
            assert(text_lt(before[i], s@));
            assert(text_lt(s@, before[k as int]));
            if j - 1 > k {
                lemma_text_lt_transitive(s@, before[k as int], before[j - 1]);
            }
            lemma_text_lt_transitive(before[i], s@, before[j - 1]);
        } else if i == k {
            if j - 1 > k {
                lemma_text_lt_transitive(s@, before[k as int], before[j - 1]);
            }
        } else {
            assert(after[i] == before[i - 1]);
            assert(after[j] == before[j - 1]);
        }
    }
    assert forall|x: Seq<char>| after.contains(x) <==> (before.contains(x) || x == s@) by {
        if after.contains(x) {
            let i = choose|i: int| 0 <= i < after.len() && after[i] == x;
            if i < k {
                assert(before[i] == x);
            } else if i > k {
                assert(before[i - 1] == x);
            }
        }
        if before.contains(x) {
            let i = choose|i: int| 0 <= i < before.len() && before[i] == x;
            if i < k {
                assert(after[i] == x);
            } else {
                assert(after[i + 1] == x);
            }
        }
        if x == s@ {
            assert(after[k as int] == x);
        }
    }
}

/// The schemas of a catalog, sorted, each once.
pub fn schemas_of(catalog: &Vec<CatalogObject>) -> (l: Vec<String>)
    ensures
        texts(l@) == schema_list(catalog@),
        strictly_sorted(texts(l@)),
        forall|x: Seq<char>| texts(l@).contains(x) <==> has_schema(catalog@, x),
{
    let mut l: Vec<String> = Vec::new();
    let mut j: usize = 0;
    assert(texts(l@) =~= Seq::<Seq<char>>::empty());
    while j < catalog.len()
        invariant
            j <= catalog@.len(),
            strictly_sorted(texts(l@)),
            forall|x: Seq<char>|
                texts(l@).contains(x) <==> exists|i: int| 0 <= i < j && #[trigger] schema_is(catalog@[i], x),
        decreases catalog@.len() - j,
    {
        let ghost before = texts(l@);
        match &catalog[j].schema {
            Some(s) => {
                insert_sorted(&mut l, s);
            },
            None => {},
        }
        assert forall|x: Seq<char>|
            texts(l@).contains(x) <==> exists|i: int| 0 <= i < j + 1 && #[trigger] schema_is(catalog@[i], x) by {
            if exists|i: int| 0 <= i < j + 1 && #[trigger] schema_is(catalog@[i], x) {
                let i = choose|i: int| 0 <= i < j + 1 && #[trigger] schema_is(catalog@[i], x);
                if i < j {
                    assert(before.contains(x));
                }
            }
            if texts(l@).contains(x) && !before.contains(x) {
                assert(schema_is(catalog@[j as int], x));
            }
        }
        j = j + 1;
    }
    proof {
        let mine = texts(l@);
        assert(forall|x: Seq<char>| mine.contains(x) <==> has_schema(catalog@, x));
        assert(exists|m: Seq<Seq<char>>|
            strictly_sorted(m) && forall|x: Seq<char>| m.contains(x) <==> has_schema(catalog@, x));
        lemma_sorted_unique(mine, schema_list(catalog@));
    }
    l
}


/// How a connection's state shows beside its name.
#[derive(Debug, Clone, Copy, PartialEq, Eq, Structural)]
pub enum Mark {
    Idle,
    Connecting,
    Live,
    Failed,
}

pub open spec fn mark_of(s: ConnState) -> Mark {
    match s {
        ConnState::Disconnected => Mark::Idle,
        ConnState::Connecting => Mark::Connecting,
        ConnState::Connected { .. } => Mark::Live,
        ConnState::Error(_) => Mark::Failed,
    }
}

/// One row of the explorer. `entry` is the index of a saved connection.
pub enum TreeRow {
    /// Nothing is saved yet.
    NoConnections,
    /// A saved connection, highlighted where it is the selected one.
    Connection { entry: usize, mark: Mark, selected: bool },
    /// Under the selected connection: edit, disconnect (where it is live)
    /// and delete, which asks for a confirmation where one is pending.
    Actions { entry: usize, connected: bool, confirm_delete: bool },
    /// Why connecting failed.
    Failure { entry: usize },
    /// A schema's folder, opened and closed by `key`.
    Schema { name: String, key: String, expanded: bool },
    /// The folder of one kind of object, indented `depth` levels.
    Folder { kind: ObjectKind, key: String, expanded: bool, depth: usize },
    /// The object at index `object` of the connection's catalog; a click
    /// previews it where it is `previewable`.
    Leaf { entry: usize, object: usize, depth: usize, previewable: bool },
}

/// A row as contracts speak of it.
pub enum RowView {
    NoConnections,
    Connection { entry: usize, mark: Mark, selected: bool },
    Actions { entry: usize, connected: bool, confirm_delete: bool },
    Failure { entry: usize },
    Schema { name: Seq<char>, key: Seq<char>, expanded: bool },
    Folder { kind: ObjectKind, key: Seq<char>, expanded: bool, depth: usize },
    Leaf { entry: usize, object: usize, depth: usize, previewable: bool },
}

impl View for TreeRow {
    type V = RowView;

    open spec fn view(&self) -> RowView {
        match *self {
            TreeRow::NoConnections => RowView::NoConnections,
            TreeRow::Connection { entry, mark, selected } => RowView::Connection { entry, mark, selected },
            TreeRow::Actions { entry, connected, confirm_delete } => RowView::Actions {
                entry,
                connected,
                confirm_delete,
            },
            TreeRow::Failure { entry } => RowView::Failure { entry },
            TreeRow::Schema { name, key, expanded } => RowView::Schema { name: name@, key: key@, expanded },
            TreeRow::Folder { kind, key, expanded, depth } => RowView::Folder { kind, key: key@, expanded, depth },
            TreeRow::Leaf { entry, object, depth, previewable } => RowView::Leaf {
                entry,
                object,
                depth,
                previewable,
            },
        }
    }
}

pub open spec fn row_views(rows: Seq<TreeRow>) -> Seq<RowView> {
    rows.map_values(|r: TreeRow| r@)
}

/// The name an object kind goes by in folder keys.
pub open spec fn kind_name(k: ObjectKind) -> Seq<char> {
    match k {
        ObjectKind::Table => "Table"@,
        ObjectKind::Collection => "Collection"@,
        ObjectKind::View => "View"@,
        ObjectKind::MaterializedView => "MaterializedView"@,
        ObjectKind::Function => "Function"@,
        ObjectKind::Procedure => "Procedure"@,
    }
}

/// The order of the kind folders.
pub open spec fn kind_order() -> Seq<ObjectKind> {
    seq![
        ObjectKind::Table,
        ObjectKind::Collection,
        ObjectKind::View,
        ObjectKind::MaterializedView,
        ObjectKind::Function,
        ObjectKind::Procedure,
    ]
}

/// Whether `o` belongs under a folder of `group`: a schema, or the whole
/// catalog.
pub open spec fn in_group(o: CatalogObject, group: Option<Seq<char>>) -> bool {
    match group {
        Some(x) => schema_is(o, x),
        None => true,
    }
}

pub open spec fn group_of(group: Option<String>) -> Option<Seq<char>> {
    match group {
        Some(g) => Some(g@),
        None => None,
    }
}

/// The leaves, among the first `n` objects, of the kind's folder.
pub open spec fn leaf_rows(
    entry: usize,
    catalog: Seq<CatalogObject>,
    group: Option<Seq<char>>,
    kind: ObjectKind,
    depth: usize,
    n: int,
) -> Seq<RowView>
    decreases n,
{
    if n <= 0 {
        Seq::empty()
    } else {
        leaf_rows(entry, catalog, group, kind, depth, n - 1) + if in_group(catalog[n - 1], group)
            && catalog[n - 1].kind == kind {
            seq![RowView::Leaf { entry, object: (n - 1) as usize, depth, previewable: previewable(kind) }]
        } else {
            Seq::empty()
        }
    }
}

/// A kind's folder under `prefix`, with its objects where it is open;
/// nothing where the kind has no object.
pub open spec fn kind_block(
    entry: usize,
    catalog: Seq<CatalogObject>,
    group: Option<Seq<char>>,
    prefix: Seq<char>,
    depth: usize,
    open: Set<Seq<char>>,
    kind: ObjectKind,
) -> Seq<RowView> {
    let leaves = leaf_rows(entry, catalog, group, kind, (depth + 1) as usize, catalog.len() as int);
    let key = prefix + "/"@ + kind_name(kind);
    if leaves.len() == 0 {
        Seq::empty()
    } else {
        seq![RowView::Folder { kind, key, expanded: open.contains(key), depth }] + if open.contains(key) {
            leaves
        } else {
            Seq::empty()
        }
    }
}

/// The first `n` kind folders.
pub open spec fn kind_blocks(
    entry: usize,
    catalog: Seq<CatalogObject>,
    group: Option<Seq<char>>,
    prefix: Seq<char>,
    depth: usize,
    open: Set<Seq<char>>,
    n: int,
) -> Seq<RowView>
    decreases n,
{
    if n <= 0 {
        Seq::empty()
    } else {
        kind_blocks(entry, catalog, group, prefix, depth, open, n - 1) + kind_block(
            entry,
            catalog,
            group,
            prefix,
            depth,
            open,
            kind_order()[n - 1],
        )
    }
}

/// All the kind folders.
pub open spec fn kind_folders(
    entry: usize,
    catalog: Seq<CatalogObject>,
    group: Option<Seq<char>>,
    prefix: Seq<char>,
    depth: usize,
    open: Set<Seq<char>>,
) -> Seq<RowView> {
    kind_blocks(entry, catalog, group, prefix, depth, open, 6)
}

/// The key of a schema's folder.
pub open spec fn schema_key(id: u64, schema: Seq<char>) -> Seq<char> {
    node_key(id) + "/"@ + schema
}

/// The first `n` schema folders, each with its kind folders where open.
pub open spec fn schema_rows(
    entry: usize,
    id: u64,
    catalog: Seq<CatalogObject>,
    schemas: Seq<Seq<char>>,
    open: Set<Seq<char>>,
    n: int,
) -> Seq<RowView>
    decreases n,
{
    if n <= 0 {
        Seq::empty()
    } else {
        let x = schemas[n - 1];
        let key = schema_key(id, x);
        schema_rows(entry, id, catalog, schemas, open, n - 1) + seq![
            RowView::Schema { name: x, key, expanded: open.contains(key) },
        ] + if open.contains(key) {
            kind_folders(entry, catalog, Some(x), key, 2, open)
        } else {
            Seq::empty()
        }
    }
}

/// The catalog under an expanded connection: schema folders for
/// PostgreSQL and MongoDB, kind folders otherwise; nothing unless it is live.
pub open spec fn catalog_rows(entry: usize, e: ConnectionEntry, open: Set<Seq<char>>) -> Seq<RowView> {
    match e.state {
        ConnState::Connected { catalog } => if e.profile.driver == Driver::Postgres || e.profile.driver
            == Driver::Mongo {
            let l = schema_list(catalog@);
            schema_rows(entry, e.id, catalog@, l, open, l.len() as int)
        } else {
            kind_folders(entry, catalog@, None, node_key(e.id), 1, open)
        },
        _ => Seq::empty(),
    }
}

/// The rows of the connection at `i`.
pub open spec fn entry_rows(s: Session, i: int) -> Seq<RowView> {
    let e = s.connections@[i];
    let open = open_keys(s.expanded@);
    let selected = s.selected_connection == Some(e.id);
    seq![RowView::Connection { entry: i as usize, mark: mark_of(e.state), selected }] + (if selected {
        seq![
            RowView::Actions {
                entry: i as usize,
                connected: e.state is Connected,
                confirm_delete: s.pending_delete == Some(e.id),
            },
        ]
    } else {
        Seq::empty()
    }) + (if e.state is Error {
        seq![RowView::Failure { entry: i as usize }]
    } else {
        Seq::empty()
    }) + (if open.contains(node_key(e.id)) {
        catalog_rows(i as usize, e, open)
    } else {
        Seq::empty()
    })
}

/// The rows of the first `n` connections.
pub open spec fn rows_upto(s: Session, n: int) -> Seq<RowView>
    decreases n,
{
    if n <= 0 {
        Seq::empty()
    } else {
        rows_upto(s, n - 1) + entry_rows(s, n - 1)
    }
}

/// The explorer of a session.
pub open spec fn tree(s: Session) -> Seq<RowView> {
    if s.connections@.len() == 0 {
        seq![RowView::NoConnections]
    } else {
        rows_upto(s, s.connections@.len() as int)
    }
}

fn push_row(rows: &mut Vec<TreeRow>, r: TreeRow)
    ensures
        row_views(final(rows)@) == row_views(old(rows)@).push(r@),
{
    rows.push(r);
    assert(row_views(rows@) =~= row_views(old(rows)@).push(r@));
}

fn append_rows(rows: &mut Vec<TreeRow>, more: &mut Vec<TreeRow>)
    ensures
        row_views(final(rows)@) == row_views(old(rows)@) + row_views(old(more)@),
{
    rows.append(more);
    assert(row_views(rows@) =~= row_views(old(rows)@) + row_views(old(more)@));
}

fn kind_at(k: usize) -> (kind: ObjectKind)
    requires
        k < 6,
    ensures
        kind == kind_order()[k as int],
{
    match k {
        0 => ObjectKind::Table,
        1 => ObjectKind::Collection,
        2 => ObjectKind::View,
        3 => ObjectKind::MaterializedView,
        4 => ObjectKind::Function,
        _ => ObjectKind::Procedure,
    }
}

fn kind_text(k: ObjectKind) -> (r: &'static str)
    ensures
        r@ == kind_name(k),
{
    match k {
        ObjectKind::Table => "Table",
        ObjectKind::Collection => "Collection",
        ObjectKind::View => "View",
        ObjectKind::MaterializedView => "MaterializedView",
        ObjectKind::Function => "Function",
        ObjectKind::Procedure => "Procedure",
    }
}

fn belongs(o: &CatalogObject, group: &Option<String>) -> (r: bool)
    ensures
        r == in_group(*o, group_of(*group)),
{
    match group {
        None => true,
        Some(g) => match &o.schema {
            Some(x) => *x == *g,
            None => false,
        },
    }
}

/// The leaves of a kind's folder.
fn leaf_list(
    entry: usize,
    catalog: &Vec<CatalogObject>,
    group: &Option<String>,
    kind: ObjectKind,
    depth: usize,
) -> (v: Vec<TreeRow>)
    ensures
        row_views(v@) == leaf_rows(entry, catalog@, group_of(*group), kind, depth, catalog@.len() as int),
{
    let mut v: Vec<TreeRow> = Vec::new();
    let mut j: usize = 0;
    assert(row_views(v@) =~= Seq::<RowView>::empty());
    while j < catalog.len()
        invariant
            j <= catalog@.len(),
            row_views(v@) == leaf_rows(entry, catalog@, group_of(*group), kind, depth, j as int),
        decreases catalog@.len() - j,
    {
        if belongs(&catalog[j], group) && catalog[j].kind == kind {
            push_row(&mut v, TreeRow::Leaf { entry, object: j, depth, previewable: kind.is_previewable() });
        } else {
            assert(row_views(v@) =~= row_views(v@) + Seq::<RowView>::empty());
        }
        j = j + 1;
    }
    v
}

/// One kind's folder under `prefix`, with its objects where it is open.
fn push_kind_block(
    rows: &mut Vec<TreeRow>,
    entry: usize,
    catalog: &Vec<CatalogObject>,
    group: &Option<String>,
    prefix: &String,
    depth: usize,
    expanded: &Vec<String>,
    kind: ObjectKind,
)
    requires
        depth < 8,
    ensures
        row_views(final(rows)@) == row_views(old(rows)@) + kind_block(
            entry,
            catalog@,
            group_of(*group),
            prefix@,
            depth,
            open_keys(expanded@),
            kind,
        ),
{
    let mut leaves = leaf_list(entry, catalog, group, kind, depth + 1);
    if leaves.len() == 0 {
        assert(row_views(rows@) =~= row_views(rows@) + Seq::<RowView>::empty());
        return;
    }
    let mut key = prefix.clone();
    key.append("/");
    key.append(kind_text(kind));
    let open = contains_key(expanded, &key);
    let ghost start = row_views(rows@);
    let ghost folder = RowView::Folder { kind, key: key@, expanded: open, depth };
    push_row(rows, TreeRow::Folder { kind, key, expanded: open, depth });
    if open {
        let ghost lv = row_views(leaves@);
        append_rows(rows, &mut leaves);
        assert(row_views(rows@) =~= start + (seq![folder] + lv));
    } else {
        assert(row_views(rows@) =~= start + (seq![folder] + Seq::<RowView>::empty()));
    }
}

/// The kind folders under `prefix`, in their order.
fn push_kind_folders(
    rows: &mut Vec<TreeRow>,
    entry: usize,
    catalog: &Vec<CatalogObject>,
    group: &Option<String>,
    prefix: &String,
    depth: usize,
    expanded: &Vec<String>,
)
    requires
        depth < 8,
    ensures
        row_views(final(rows)@) == row_views(old(rows)@) + kind_folders(
            entry,
            catalog@,
            group_of(*group),
            prefix@,
            depth,
            open_keys(expanded@),
        ),
{
    let ghost start = row_views(rows@);
    let ghost open = open_keys(expanded@);
    let mut k: usize = 0;
    assert(start =~= start + Seq::<RowView>::empty());
    while k < 6
        invariant
            k <= 6,
            depth < 8,
            start == row_views(old(rows)@),
            open == open_keys(expanded@),
            row_views(rows@) == start + kind_blocks(entry, catalog@, group_of(*group), prefix@, depth, open, k as int),
        decreases 6 - k,
    {
        let ghost mid = row_views(rows@);
        let kind = kind_at(k);
        push_kind_block(rows, entry, catalog, group, prefix, depth, expanded, kind);
        assert(row_views(rows@) =~= start + kind_blocks(entry, catalog@, group_of(*group), prefix@, depth, open, k + 1));
        k = k + 1;
    }
}


/// The schema folders of a live connection, each with its kind folders
/// where it is open.
fn push_schema_folders(
    rows: &mut Vec<TreeRow>,
    entry: usize,
    id: u64,
    catalog: &Vec<CatalogObject>,
    expanded: &Vec<String>,
)
    ensures
        row_views(final(rows)@) == row_views(old(rows)@) + schema_rows(
            entry,
            id,
            catalog@,
            schema_list(catalog@),
            open_keys(expanded@),
            schema_list(catalog@).len() as int,
        ),
{
    let schemas = schemas_of(catalog);
    let node = decimal_text(id);
    let ghost start = row_views(rows@);
    let ghost open = open_keys(expanded@);
    let ghost l = schema_list(catalog@);
    let mut k: usize = 0;
    assert(start =~= start + Seq::<RowView>::empty());
    while k < schemas.len()
        invariant
            k <= schemas@.len(),
            texts(schemas@) == l,
            node@ == node_key(id),
            start == row_views(old(rows)@),
            open == open_keys(expanded@),
            row_views(rows@) == start + schema_rows(entry, id, catalog@, l, open, k as int),
        decreases schemas@.len() - k,
    {
        let mut key = node.clone();
        key.append("/");
        key.append(schemas[k].as_str());
        let open_here = contains_key(expanded, &key);
        assert(l[k as int] == schemas@[k as int]@);
        assert(key@ == schema_key(id, l[k as int]));
        let ghost mid = row_views(rows@);
        push_row(rows, TreeRow::Schema { name: schemas[k].clone(), key: key.clone(), expanded: open_here });
        let ghost after_folder = row_views(rows@);
        if open_here {
            let group = Some(schemas[k].clone());
            push_kind_folders(rows, entry, catalog, &group, &key, 2, expanded);
        } else {
            assert(row_views(rows@) =~= after_folder + Seq::<RowView>::empty());
        }
        assert(row_views(rows@) =~= start + schema_rows(entry, id, catalog@, l, open, k + 1));
        k = k + 1;
    }
}

impl Session {
    /// The rows of the connection at `i`.
    fn push_entry_rows(&self, rows: &mut Vec<TreeRow>, i: usize)
        requires
            i < self.connections@.len(),
        ensures
            row_views(final(rows)@) == row_views(old(rows)@) + entry_rows(*self, i as int),
    {
        let e = &self.connections[i];
        let ghost start = row_views(rows@);
        let ghost open = open_keys(self.expanded@);
        let selected = match self.selected_connection {
            Some(s) => s == e.id,
            None => false,
        };
        let mark = match &e.state {
            ConnState::Disconnected => Mark::Idle,
            ConnState::Connecting => Mark::Connecting,
            ConnState::Connected { .. } => Mark::Live,
            ConnState::Error(_) => Mark::Failed,
        };
        let connected = match &e.state {
            ConnState::Connected { .. } => true,
            _ => false,
        };
        push_row(rows, TreeRow::Connection { entry: i, mark, selected });
        let ghost a = row_views(rows@);
        if selected {
            let confirm_delete = match self.pending_delete {
                Some(p) => p == e.id,
                None => false,
            };
            push_row(rows, TreeRow::Actions { entry: i, connected, confirm_delete });
        } else {
            assert(row_views(rows@) =~= a + Seq::<RowView>::empty());
        }
        let ghost b = row_views(rows@);
        match &e.state {
            ConnState::Error(_) => push_row(rows, TreeRow::Failure { entry: i }),
            _ => {
                assert(row_views(rows@) =~= b + Seq::<RowView>::empty());
            },
        }
        let ghost c = row_views(rows@);
        let node = decimal_text(e.id);
        if contains_key(&self.expanded, &node) {
            match &e.state {
                ConnState::Connected { catalog } => {
                    if e.profile.driver == Driver::Postgres || e.profile.driver == Driver::Mongo {
                        push_schema_folders(rows, i, e.id, catalog, &self.expanded);
                    } else {
                        push_kind_folders(rows, i, catalog, &None, &node, 1, &self.expanded);
                    }
                },
                _ => {
                    assert(row_views(rows@) =~= c + Seq::<RowView>::empty());
                },
            }
        } else {
            assert(row_views(rows@) =~= c + Seq::<RowView>::empty());
        }
        assert(row_views(rows@) =~= start + entry_rows(*self, i as int));
    }

    /// The rows of the connections explorer, top to bottom.
    pub fn tree_rows(&self) -> (rows: Vec<TreeRow>)
        ensures
            row_views(rows@) == tree(*self),
    {
        let mut rows: Vec<TreeRow> = Vec::new();
        if self.connections.len() == 0 {
            push_row(&mut rows, TreeRow::NoConnections);
            assert(row_views(rows@) =~= seq![RowView::NoConnections]);
            return rows;
        }
        let mut i: usize = 0;
        assert(row_views(rows@) =~= Seq::<RowView>::empty());
        while i < self.connections.len()
            invariant
                i <= self.connections@.len(),
                self.connections@.len() > 0,
                row_views(rows@) == rows_upto(*self, i as int),
            decreases self.connections@.len() - i,
        {
            self.push_entry_rows(&mut rows, i);
            i = i + 1;
        }
        rows
    }
}


/// The connections the rows show, by index, top to bottom.
pub open spec fn connections_shown(rows: Seq<RowView>) -> Seq<usize>
    decreases rows.len(),
{
    if rows.len() == 0 {
        Seq::empty()
    } else {
        connections_shown(rows.drop_last()) + match rows.last() {
            RowView::Connection { entry, .. } => seq![entry],
            _ => Seq::empty(),
        }
    }
}

proof fn lemma_shown_single(r: RowView)
    ensures
        connections_shown(seq![r]) == match r {
            RowView::Connection { entry, .. } => seq![entry],
            _ => Seq::<usize>::empty(),
        },
{
    assert(seq![r].drop_last() =~= Seq::<RowView>::empty());
    assert(connections_shown(Seq::<RowView>::empty()) == Seq::<usize>::empty());
    assert(seq![r].last() == r);
    let tail = match r {
        RowView::Connection { entry, .. } => seq![entry],
        _ => Seq::<usize>::empty(),
    };
    assert(Seq::<usize>::empty() + tail =~= tail);
}

proof fn lemma_shown_concat(a: Seq<RowView>, b: Seq<RowView>)
    ensures
        connections_shown(a + b) == connections_shown(a) + connections_shown(b),
    decreases b.len(),
{
    if b.len() == 0 {
        assert(a + b =~= a);
        assert(connections_shown(a) + connections_shown(b) =~= connections_shown(a));
    } else {
        lemma_shown_concat(a, b.drop_last());
        assert((a + b).drop_last() =~= a + b.drop_last());
        assert((a + b).last() == b.last());
        let tail = match b.last() {
            RowView::Connection { entry, .. } => seq![entry],
            _ => Seq::<usize>::empty(),
        };
        assert(connections_shown(a) + connections_shown(b.drop_last()) + tail =~= connections_shown(a) + (
        connections_shown(b.drop_last()) + tail));
    }
}

proof fn lemma_leaves_show_none(
    entry: usize,
    catalog: Seq<CatalogObject>,
    group: Option<Seq<char>>,
    kind: ObjectKind,
    depth: usize,
    n: int,
)
    ensures
        connections_shown(leaf_rows(entry, catalog, group, kind, depth, n)) == Seq::<usize>::empty(),
    decreases n,
{
    if n > 0 {
        lemma_leaves_show_none(entry, catalog, group, kind, depth, n - 1);
        let prev = leaf_rows(entry, catalog, group, kind, depth, n - 1);
        let more = if in_group(catalog[n - 1], group) && catalog[n - 1].kind == kind {
            seq![RowView::Leaf { entry, object: (n - 1) as usize, depth, previewable: previewable(kind) }]
        } else {
            Seq::empty()
        };
        lemma_shown_concat(prev, more);
        if in_group(catalog[n - 1], group) && catalog[n - 1].kind == kind {
            lemma_shown_single(RowView::Leaf { entry, object: (n - 1) as usize, depth, previewable: previewable(kind) });
        } else {
            assert(connections_shown(more) =~= Seq::<usize>::empty());
        }
        assert(prev + more == leaf_rows(entry, catalog, group, kind, depth, n));
    }
}

proof fn lemma_kinds_show_none(
    entry: usize,
    catalog: Seq<CatalogObject>,
    group: Option<Seq<char>>,
    prefix: Seq<char>,
    depth: usize,
    open: Set<Seq<char>>,
    n: int,
)
    ensures
        connections_shown(kind_blocks(entry, catalog, group, prefix, depth, open, n)) == Seq::<usize>::empty(),
    decreases n,
{
    if n > 0 {
        lemma_kinds_show_none(entry, catalog, group, prefix, depth, open, n - 1);
        let kind = kind_order()[n - 1];
        let leaves = leaf_rows(entry, catalog, group, kind, (depth + 1) as usize, catalog.len() as int);
        lemma_leaves_show_none(entry, catalog, group, kind, (depth + 1) as usize, catalog.len() as int);
        let key = prefix + "/"@ + kind_name(kind);
        let folder = seq![RowView::Folder { kind, key, expanded: open.contains(key), depth }];
        let below = if open.contains(key) {
            leaves
        } else {
            Seq::empty()
        };
        lemma_shown_concat(folder, below);
        lemma_shown_single(RowView::Folder { kind, key, expanded: open.contains(key), depth });
        assert(connections_shown(below) =~= Seq::<usize>::empty());
        lemma_shown_concat(
            kind_blocks(entry, catalog, group, prefix, depth, open, n - 1),
            kind_block(entry, catalog, group, prefix, depth, open, kind),
        );
    }
}

proof fn lemma_schemas_show_none(
    entry: usize,
    id: u64,
    catalog: Seq<CatalogObject>,
    schemas: Seq<Seq<char>>,
    open: Set<Seq<char>>,
    n: int,
)
    ensures
        connections_shown(schema_rows(entry, id, catalog, schemas, open, n)) == Seq::<usize>::empty(),
    decreases n,
{
    if n > 0 {
        lemma_schemas_show_none(entry, id, catalog, schemas, open, n - 1);
        let x = schemas[n - 1];
        let key = schema_key(id, x);
        let prev = schema_rows(entry, id, catalog, schemas, open, n - 1);
        let folder = seq![RowView::Schema { name: x, key, expanded: open.contains(key) }];
        let below = if open.contains(key) {
            kind_folders(entry, catalog, Some(x), key, 2, open)
        } else {
            Seq::empty()
        };
        lemma_kinds_show_none(entry, catalog, Some(x), key, 2, open, 6);
        lemma_shown_single(RowView::Schema { name: x, key, expanded: open.contains(key) });
        assert(connections_shown(below) =~= Seq::<usize>::empty());
        lemma_shown_concat(prev, folder);
        lemma_shown_concat(prev + folder, below);
    }
}

proof fn lemma_entry_shows_itself(s: Session, i: int)
    requires
        0 <= i < s.connections@.len(),
        i < usize::MAX,
    ensures
        connections_shown(entry_rows(s, i)) == seq![i as usize],
{
    let e = s.connections@[i];
    let open = open_keys(s.expanded@);
    let selected = s.selected_connection == Some(e.id);
    let head = seq![RowView::Connection { entry: i as usize, mark: mark_of(e.state), selected }];
    let actions = if selected {
        seq![
            RowView::Actions {
                entry: i as usize,
                connected: e.state is Connected,
                confirm_delete: s.pending_delete == Some(e.id),
            },
        ]
    } else {
        Seq::empty()
    };
    let failure = if e.state is Error {
        seq![RowView::Failure { entry: i as usize }]
    } else {
        Seq::empty()
    };
    let below = if open.contains(node_key(e.id)) {
        catalog_rows(i as usize, e, open)
    } else {
        Seq::empty()
    };
    lemma_shown_single(RowView::Connection { entry: i as usize, mark: mark_of(e.state), selected });
    if selected {
        lemma_shown_single(
            RowView::Actions {
                entry: i as usize,
                connected: e.state is Connected,
                confirm_delete: s.pending_delete == Some(e.id),
            },
        );
    } else {
        assert(connections_shown(actions) =~= Seq::<usize>::empty());
    }
    if e.state is Error {
        lemma_shown_single(RowView::Failure { entry: i as usize });
    } else {
        assert(connections_shown(failure) =~= Seq::<usize>::empty());
    }
    assert(connections_shown(below) =~= Seq::<usize>::empty()) by {
        if open.contains(node_key(e.id)) {
            match e.state {
                ConnState::Connected { catalog } => {
                    if e.profile.driver == Driver::Postgres || e.profile.driver == Driver::Mongo {
                        let l = schema_list(catalog@);
                        lemma_schemas_show_none(i as usize, e.id, catalog@, l, open, l.len() as int);
                    } else {
                        lemma_kinds_show_none(i as usize, catalog@, None, node_key(e.id), 1, open, 6);
                    }
                },
                _ => {},
            }
        }
    }
    lemma_shown_concat(head, actions);
    lemma_shown_concat(head + actions, failure);
    lemma_shown_concat(head + actions + failure, below);
}

proof fn lemma_rows_show_each(s: Session, n: int)
    requires
        0 <= n <= s.connections@.len(),
        s.connections@.len() < usize::MAX,
    ensures
        connections_shown(rows_upto(s, n)) == Seq::new(n as nat, |j: int| j as usize),
    decreases n,
{
    if n == 0 {
        assert(connections_shown(rows_upto(s, n)) =~= Seq::new(n as nat, |j: int| j as usize));
    } else {
        lemma_rows_show_each(s, n - 1);
        lemma_entry_shows_itself(s, n - 1);
        lemma_shown_concat(rows_upto(s, n - 1), entry_rows(s, n - 1));
        assert(Seq::new((n - 1) as nat, |j: int| j as usize) + seq![(n - 1) as usize] =~= Seq::new(
            n as nat,
            |j: int| j as usize,
        ));
    }
}

/// Every saved connection has its own row in the explorer, once, in the
/// order they are saved.
pub proof fn law_each_connection_shown_once(s: Session)
    requires
        s.connections@.len() > 0,
        s.connections@.len() < usize::MAX,
    ensures
        connections_shown(tree(s)) == Seq::new(s.connections@.len(), |j: int| j as usize),
{
    lemma_rows_show_each(s, s.connections@.len() as int);
}


/// Whether `object` indexes an object of the catalog whose schema is `x`.
pub open spec fn object_in_schema(catalog: Seq<CatalogObject>, object: usize, x: Seq<char>) -> bool {
    &&& object < catalog.len()
    &&& catalog[object as int].schema matches Some(s)
    &&& s@ == x
}

/// Every leaf among `rows` is an object of the catalog in schema `x`.
pub open spec fn leaves_in_schema(rows: Seq<RowView>, catalog: Seq<CatalogObject>, x: Seq<char>) -> bool {
    forall|k: int|
        0 <= k < rows.len() ==> (#[trigger] rows[k] matches RowView::Leaf { object, .. } ==> object_in_schema(catalog, object, x))
}

proof fn lemma_leaves_in_schema_concat(a: Seq<RowView>, b: Seq<RowView>, catalog: Seq<CatalogObject>, x: Seq<char>)
    requires
        leaves_in_schema(a, catalog, x),
        leaves_in_schema(b, catalog, x),
    ensures
        leaves_in_schema(a + b, catalog, x),
{
    assert forall|k: int| 0 <= k < (a + b).len() implies ((#[trigger] (a + b)[k]) matches RowView::Leaf { object, .. } ==> object_in_schema(catalog, object, x)) by {
        if k < a.len() {
            assert((a + b)[k] == a[k]);
        } else {
            assert((a + b)[k] == b[k - a.len()]);
        }
    }
}

proof fn lemma_schema_leaves(
    entry: usize,
    catalog: Seq<CatalogObject>,
    x: Seq<char>,
    kind: ObjectKind,
    depth: usize,
    n: int,
)
    requires
        n <= catalog.len(),
        catalog.len() <= usize::MAX,
    ensures
        leaves_in_schema(leaf_rows(entry, catalog, Some(x), kind, depth, n), catalog, x),
    decreases n,
{
    if n > 0 {
        lemma_schema_leaves(entry, catalog, x, kind, depth, n - 1);
        let prev = leaf_rows(entry, catalog, Some(x), kind, depth, n - 1);
        let more = if in_group(catalog[n - 1], Some(x)) && catalog[n - 1].kind == kind {
            seq![RowView::Leaf { entry, object: (n - 1) as usize, depth, previewable: previewable(kind) }]
        } else {
            Seq::empty()
        };
        if in_group(catalog[n - 1], Some(x)) && catalog[n - 1].kind == kind {
            assert(object_in_schema(catalog, (n - 1) as usize, x));
            assert(more[0] matches RowView::Leaf { object, .. } && object == (n - 1) as usize);
        }
        assert(leaves_in_schema(more, catalog, x));
        lemma_leaves_in_schema_concat(prev, more, catalog, x);
    }
}

proof fn lemma_schema_blocks(
    entry: usize,
    catalog: Seq<CatalogObject>,
    x: Seq<char>,
    prefix: Seq<char>,
    depth: usize,
    open: Set<Seq<char>>,
    n: int,
)
    requires
        n <= 6,
        catalog.len() <= usize::MAX,
    ensures
        leaves_in_schema(kind_blocks(entry, catalog, Some(x), prefix, depth, open, n), catalog, x),
    decreases n,
{
    if n > 0 {
        lemma_schema_blocks(entry, catalog, x, prefix, depth, open, n - 1);
        let kind = kind_order()[n - 1];
        lemma_schema_leaves(entry, catalog, x, kind, (depth + 1) as usize, catalog.len() as int);
        let leaves = leaf_rows(entry, catalog, Some(x), kind, (depth + 1) as usize, catalog.len() as int);
        let key = prefix + "/"@ + kind_name(kind);
        let folder = seq![RowView::Folder { kind, key, expanded: open.contains(key), depth }];
        let below = if open.contains(key) {
            leaves
        } else {
            Seq::empty()
        };
        assert(leaves_in_schema(folder, catalog, x));
        assert(leaves_in_schema(below, catalog, x));
        lemma_leaves_in_schema_concat(folder, below, catalog, x);
        assert(leaves_in_schema(kind_block(entry, catalog, Some(x), prefix, depth, open, kind), catalog, x));
        lemma_leaves_in_schema_concat(
            kind_blocks(entry, catalog, Some(x), prefix, depth, open, n - 1),
            kind_block(entry, catalog, Some(x), prefix, depth, open, kind),
            catalog,
            x,
        );
    }
}

/// A schema's folder holds only that schema's objects: every leaf listed
/// under the folders of schema `x` is an object of the catalog whose schema
/// is `x`.
pub proof fn law_schema_folder_holds_its_objects(
    entry: usize,
    catalog: Seq<CatalogObject>,
    x: Seq<char>,
    prefix: Seq<char>,
    depth: usize,
    open: Set<Seq<char>>,
)
    requires
        catalog.len() <= usize::MAX,
    ensures
        forall|k: int|
            0 <= k < kind_folders(entry, catalog, Some(x), prefix, depth, open).len() ==> (
            #[trigger] kind_folders(entry, catalog, Some(x), prefix, depth, open)[k] matches RowView::Leaf {
                object,
                ..
            } ==> object_in_schema(catalog, object, x)),
{
    lemma_schema_blocks(entry, catalog, x, prefix, depth, open, 6);
}


/// The name of the last schema folder among the first `k` rows, if any.
pub open spec fn last_schema_before(rows: Seq<RowView>, k: int) -> Option<Seq<char>>
    decreases k,
{
    if k <= 0 {
        None
    } else {
        match rows[k - 1] {
            RowView::Schema { name, .. } => Some(name),
            _ => last_schema_before(rows, k - 1),
        }
    }
}

/// No row among `rows` is a schema folder.
pub open spec fn no_schema_rows(rows: Seq<RowView>) -> bool {
    forall|k: int| 0 <= k < rows.len() ==> !(#[trigger] rows[k] is Schema)
}

proof fn lemma_no_schema_concat(a: Seq<RowView>, b: Seq<RowView>)
    requires
        no_schema_rows(a),
        no_schema_rows(b),
    ensures
        no_schema_rows(a + b),
{
    assert forall|k: int| 0 <= k < (a + b).len() implies !(#[trigger] (a + b)[k] is Schema) by {
        if k < a.len() {
            assert((a + b)[k] == a[k]);
        } else {
            assert((a + b)[k] == b[k - a.len()]);
        }
    }
}

proof fn lemma_kinds_no_schema(
    entry: usize,
    catalog: Seq<CatalogObject>,
    group: Option<Seq<char>>,
    prefix: Seq<char>,
    depth: usize,
    open: Set<Seq<char>>,
    n: int,
)
    ensures
        no_schema_rows(kind_blocks(entry, catalog, group, prefix, depth, open, n)),
    decreases n,
{
    if n > 0 {
        lemma_kinds_no_schema(entry, catalog, group, prefix, depth, open, n - 1);
        let kind = kind_order()[n - 1];
        lemma_leaves_no_schema(entry, catalog, group, kind, (depth + 1) as usize, catalog.len() as int);
        let leaves = leaf_rows(entry, catalog, group, kind, (depth + 1) as usize, catalog.len() as int);
        let key = prefix + "/"@ + kind_name(kind);
        let folder = seq![RowView::Folder { kind, key, expanded: open.contains(key), depth }];
        let below = if open.contains(key) {
            leaves
        } else {
            Seq::empty()
        };
        assert(no_schema_rows(folder));
        assert(no_schema_rows(below));
        lemma_no_schema_concat(folder, below);
        assert(no_schema_rows(kind_block(entry, catalog, group, prefix, depth, open, kind)));
        lemma_no_schema_concat(
            kind_blocks(entry, catalog, group, prefix, depth, open, n - 1),
            kind_block(entry, catalog, group, prefix, depth, open, kind),
        );
    }
}

proof fn lemma_leaves_no_schema(
    entry: usize,
    catalog: Seq<CatalogObject>,
    group: Option<Seq<char>>,
    kind: ObjectKind,
    depth: usize,
    n: int,
)
    ensures
        no_schema_rows(leaf_rows(entry, catalog, group, kind, depth, n)),
    decreases n,
{
    if n > 0 {
        lemma_leaves_no_schema(entry, catalog, group, kind, depth, n - 1);
        let prev = leaf_rows(entry, catalog, group, kind, depth, n - 1);
        let more = if in_group(catalog[n - 1], group) && catalog[n - 1].kind == kind {
            seq![RowView::Leaf { entry, object: (n - 1) as usize, depth, previewable: previewable(kind) }]
        } else {
            Seq::empty()
        };
        assert(no_schema_rows(more));
        lemma_no_schema_concat(prev, more);
    }
}

proof fn lemma_last_schema_prefix(a: Seq<RowView>, b: Seq<RowView>, k: int)
    requires
        0 <= k <= a.len(),
    ensures
        last_schema_before(a + b, k) == last_schema_before(a, k),
    decreases k,
{
    if k > 0 {
        assert((a + b)[k - 1] == a[k - 1]);
        lemma_last_schema_prefix(a, b, k - 1);
    }
}

proof fn lemma_last_schema_skips(p: Seq<RowView>, b: Seq<RowView>, j: int)
    requires
        0 <= j <= b.len(),
        no_schema_rows(b),
    ensures
        last_schema_before(p + b, p.len() + j) == last_schema_before(p + b, p.len() as int),
    decreases j,
{
    if j > 0 {
        assert((p + b)[p.len() + j - 1] == b[j - 1]);
        assert(!(b[j - 1] is Schema));
        lemma_last_schema_skips(p, b, j - 1);
    }
}

/// Under a connection grouped by schema, every leaf comes after the folder
/// of its own object's schema: the last schema folder before any leaf names
/// the schema of the object that leaf shows.
pub proof fn law_leaves_follow_their_schema(
    entry: usize,
    id: u64,
    catalog: Seq<CatalogObject>,
    schemas: Seq<Seq<char>>,
    open: Set<Seq<char>>,
    n: int,
)
    requires
        0 <= n <= schemas.len(),
        catalog.len() <= usize::MAX,
    ensures
        forall|k: int|
            0 <= k < schema_rows(entry, id, catalog, schemas, open, n).len() ==> (
            #[trigger] schema_rows(entry, id, catalog, schemas, open, n)[k] matches RowView::Leaf { object, .. }
                ==> last_schema_before(schema_rows(entry, id, catalog, schemas, open, n), k) matches Some(x)
                && object_in_schema(catalog, object, x)),
    decreases n,
{
    if n > 0 {
        law_leaves_follow_their_schema(entry, id, catalog, schemas, open, n - 1);
        let x = schemas[n - 1];
        let key = schema_key(id, x);
        let prev = schema_rows(entry, id, catalog, schemas, open, n - 1);
        let folder = seq![RowView::Schema { name: x, key, expanded: open.contains(key) }];
        let below = if open.contains(key) {
            kind_folders(entry, catalog, Some(x), key, 2, open)
        } else {
            Seq::empty()
        };
        let head = prev + folder;
        let rows = schema_rows(entry, id, catalog, schemas, open, n);
        assert(rows == head + below);
        lemma_schema_blocks(entry, catalog, x, key, 2, open, 6);
        lemma_kinds_no_schema(entry, catalog, Some(x), key, 2, open, 6);
        assert(leaves_in_schema(below, catalog, x));
        assert(no_schema_rows(below));
        assert(last_schema_before(head, head.len() as int) == Some(x)) by {
            assert(head[head.len() - 1] == folder[0]);
        }
        assert forall|k: int|
            0 <= k < rows.len() && (#[trigger] rows[k] matches RowView::Leaf { object, .. }) implies (
            rows[k] matches RowView::Leaf { object, .. } ==> last_schema_before(rows, k) matches Some(y)
                && object_in_schema(catalog, object, y)) by {
            if k < prev.len() {
                assert(rows[k] == prev[k]);
                lemma_last_schema_prefix(prev, folder + below, k);
                assert(rows == prev + (folder + below));
            } else if k == prev.len() {
                assert(rows[k] == folder[0]);
            } else {
                let j = k - head.len();
                assert(rows[k] == below[j]);
                lemma_last_schema_skips(head, below, j);
                lemma_last_schema_prefix(head, below, head.len() as int);
            }
        }
    }
}

} // verus!
