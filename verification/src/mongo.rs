//! MongoDB commands: the editor holds a collection name on its first line
//! and, optionally, a filter in (extended) JSON below it.
use vstd::prelude::*;
use crate::db::{QueryResult, ROW_LIMIT};
use crate::drivers::{object_preview, CatalogObject, Driver};
use crate::results::documents_to_result;
use crate::text::{chars_of, same_text, string_of_range, trim, trim_end, trim_start, trimmed};

verus! {

#[verifier::external_type_specification]
#[verifier::external_body]
pub struct ExDocument(bson::Document);

#[verifier::external_type_specification]
#[verifier::external_body]
pub struct ExJsonValue(serde_json::Value);

#[verifier::external_type_specification]
#[verifier::external_body]
#[verifier::reject_recursive_types(K)]
#[verifier::reject_recursive_types(V)]
pub struct ExJsonMap<K, V>(serde_json::Map<K, V>);

/// What `serde_json::from_str::<serde_json::Value>` makes of a text: an
/// error message, or whether the value it holds is a JSON object.
pub uninterp spec fn json_parse(text: Seq<char>) -> Result<bool, Seq<char>>;

/// The keys, in order, of the JSON object that a text holds.
pub uninterp spec fn json_object_keys(text: Seq<char>) -> Seq<Seq<char>>;

/// The keys of a JSON object, in the order the object lists them.
pub uninterp spec fn json_map_keys(m: serde_json::Map<String, serde_json::Value>) -> Seq<Seq<char>>;

/// What converting a JSON object to a document as MongoDB extended JSON
/// reports: the error's message, or `None` where the conversion succeeds.
pub uninterp spec fn extjson_failure(m: serde_json::Map<String, serde_json::Value>) -> Option<Seq<char>>;

/// The keys of a document's fields, in order.
pub uninterp spec fn document_keys(d: bson::Document) -> Seq<Seq<char>>;

/// `serde_json::from_str::<serde_json::Value>`, keeping the object if the
/// text holds one. Claimed: the outcome is `json_parse` of the text; the
/// error is the parser's message; an object's keys are `json_object_keys`
/// of the text.
#[verifier::external_body]
fn parse_json_object(text: &str) -> (r: Result<
    Option<serde_json::Map<String, serde_json::Value>>,
    String,
>)
    ensures
        match r {
            Ok(Some(m)) => json_parse(text@) == Ok::<bool, Seq<char>>(true) && json_map_keys(m)
                == json_object_keys(text@),
            Ok(None) => json_parse(text@) == Ok::<bool, Seq<char>>(false),
            Err(e) => json_parse(text@) == Err::<bool, Seq<char>>(e@),
        },
{
    match serde_json::from_str::<serde_json::Value>(text) {
        Ok(serde_json::Value::Object(map)) => Ok(Some(map)),
        Ok(_) => Ok(None),
        Err(e) => Err(e.to_string()),
    }
}

/// `bson::Document::try_from` on a JSON object, which reads MongoDB's
/// extended JSON (`{"$oid": ...}` and the like) field by field. Claimed: it
/// fails exactly where `extjson_failure` of the object says, with that
/// message; otherwise the document has the object's keys, in its order.
/// What each field's value becomes is left unsaid: values stay opaque here.
#[verifier::external_body]
fn document_from_json(map: serde_json::Map<String, serde_json::Value>) -> (r: Result<
    bson::Document,
    String,
>)
    ensures
        match r {
            Ok(d) => extjson_failure(map) is None && document_keys(d) == json_map_keys(map),
            Err(e) => extjson_failure(map) == Some(e@),
        },
{
    bson::Document::try_from(map).map_err(|e| e.to_string())
}

/// `bson::Document::new`: a document without fields.
#[verifier::external_body]
fn empty_document() -> (d: bson::Document)
    ensures
        document_keys(d) == Seq::<Seq<char>>::empty(),
{
    bson::Document::new()
}

/// The message for a filter that is JSON but not an object.
pub open spec fn filter_not_object_message() -> Seq<char> {
    "El filtro debe ser un objeto JSON, por ejemplo {}"@
}

/// What reading the JSON object that `text` holds as a filter may give: a
/// document with exactly the object's fields, where an object with those
/// keys converts; or the error of converting such an object.
pub open spec fn object_filter(text: Seq<char>, r: Result<bson::Document, String>) -> bool {
    match r {
        Ok(d) => {
            &&& document_keys(d) == json_object_keys(text)
            &&& exists|m: serde_json::Map<String, serde_json::Value>|
                #[trigger] json_map_keys(m) == json_object_keys(text) && extjson_failure(m) is None
        },
        Err(e) => exists|m: serde_json::Map<String, serde_json::Value>|
            #[trigger] json_map_keys(m) == json_object_keys(text) && extjson_failure(m) == Some(e@),
    }
}

/// The filter made of what the JSON parser gave back: its error as it is;
/// a value other than an object refused; an object converted as extended
/// JSON, failing exactly where the conversion does.
pub fn filter_from_json(parsed: Result<Option<serde_json::Map<String, serde_json::Value>>, String>) -> (r: Result<
    bson::Document,
    String,
>)
    ensures
        match parsed {
            Err(e) => r == Err::<bson::Document, String>(e),
            Ok(None) => r is Err && r->Err_0@ == filter_not_object_message(),
            Ok(Some(m)) => match extjson_failure(m) {
                Some(msg) => r is Err && r->Err_0@ == msg,
                None => r is Ok && document_keys(r->Ok_0) == json_map_keys(m),
            },
        },
{
    match parsed {
        Err(e) => Err(e),
        Ok(None) => Err(String::from_str("El filtro debe ser un objeto JSON, por ejemplo {}")),
        Ok(Some(map)) => document_from_json(map),
    }
}

/// Reads the filter of a MongoDB command: nothing means the empty filter;
/// otherwise the text must be a JSON object, read as extended JSON, whose
/// fields the filter has.
pub fn parse_mongo_filter(text: &str) -> (r: Result<bson::Document, String>)
    ensures
        text@.len() == 0 ==> r is Ok && document_keys(r->Ok_0) == Seq::<Seq<char>>::empty(),
        text@.len() > 0 ==> match json_parse(text@) {
            Err(e) => r is Err && r->Err_0@ == e,
            Ok(false) => r is Err && r->Err_0@ == filter_not_object_message(),
            Ok(true) => object_filter(text@, r),
        },
{
    if text.is_empty() {
        return Ok(empty_document());
    }
    let parsed = parse_json_object(text);
    let ghost before = parsed;
    let r = filter_from_json(parsed);
    proof {
        if let Ok(Some(m)) = before {
            assert(json_map_keys(m) == json_object_keys(text@));
        }
    }
    r
}

/// Where the first line of a text ends: the first `\n`, or the end.
pub open spec fn line_end(s: Seq<char>) -> int
    decreases s.len(),
{
    if s.len() == 0 || s[0] == '\n' {
        0
    } else {
        1 + line_end(s.drop_first())
    }
}

/// The first line (`splitn(2, '\n')`'s first part).
pub open spec fn first_line(s: Seq<char>) -> Seq<char> {
    s.take(line_end(s))
}

/// Everything after the first `\n`, or nothing when there is none.
pub open spec fn after_first_line(s: Seq<char>) -> Seq<char> {
    if line_end(s) < s.len() {
        s.skip(line_end(s) + 1)
    } else {
        Seq::empty()
    }
}

proof fn lemma_line_end(s: Seq<char>, i: int)
    requires
        0 <= i <= s.len(),
        forall|k: int| 0 <= k < i ==> #[trigger] s[k] != '\n',
        i == s.len() || s[i] == '\n',
    ensures
        line_end(s) == i,
    decreases i,
{
    if i > 0 {
        let t = s.drop_first();
        assert forall|k: int| 0 <= k < i - 1 implies #[trigger] t[k] != '\n' by {
            assert(t[k] == s[k + 1]);
        }
        assert(s[0] != '\n');
        lemma_line_end(t, i - 1);
    }
}

/// The first line of a text and what follows it, each trimmed.
pub fn split_command(sql: &str) -> (r: (String, String))
    ensures
        r.0@ == trim(first_line(sql@)),
        r.1@ == trim(after_first_line(sql@)),
{
    let v = chars_of(sql);
    let mut i: usize = 0;
    while i < v.len() && v[i] != '\n'
        invariant
            v@ == sql@,
            i <= v.len(),
            forall|k: int| 0 <= k < i ==> #[trigger] sql@[k] != '\n',
        decreases v.len() - i,
    {
        i = i + 1;
    }
    proof {
        lemma_line_end(sql@, i as int);
    }
    let first = string_of_range(&v, 0, i);
    let rest = if i < v.len() {
        string_of_range(&v, i + 1, v.len())
    } else {
        String::new()
    };
    assert(first@ =~= first_line(sql@));
    assert(rest@ =~= after_first_line(sql@));
    (trimmed(first.as_str()), trimmed(rest.as_str()))
}

/// A MongoDB query: the collection to read and its filter.
pub struct MongoCommand {
    pub collection: String,
    pub filter: bson::Document,
}

/// The message for a command without a collection name.
pub open spec fn missing_collection_message() -> Seq<char> {
    "Escribe el nombre de una colección en la primera línea."@
}

/// Reads a MongoDB command: the trimmed first line names the collection and
/// must not be empty; the trimmed rest is the filter.
pub fn mongo_command(sql: &str) -> (r: Result<MongoCommand, String>)
    ensures
        trim(first_line(sql@)).len() == 0 ==> r is Err && r->Err_0@
            == missing_collection_message(),
        trim(first_line(sql@)).len() > 0 ==> {
            let filter = trim(after_first_line(sql@));
            &&& filter.len() == 0 ==> r is Ok && document_keys(r->Ok_0.filter) == Seq::<Seq<char>>::empty()
            &&& r matches Ok(c) ==> c.collection@ == trim(first_line(sql@))
            &&& filter.len() > 0 ==> match json_parse(filter) {
                Err(e) => r is Err && r->Err_0@ == e,
                Ok(false) => r is Err && r->Err_0@ == filter_not_object_message(),
                Ok(true) => object_filter(
                    filter,
                    match r {
                        Ok(c) => Ok(c.filter),
                        Err(e) => Err(e),
                    },
                ),
            }
        },
{
    let (collection, filter_text) = split_command(sql);
    if collection.as_str().is_empty() {
        return Err(String::from_str("Escribe el nombre de una colección en la primera línea."));
    }
    let filter = parse_mongo_filter(filter_text.as_str())?;
    Ok(MongoCommand { collection, filter })
}

/// The grid of the documents a query found, at most `ROW_LIMIT` of them:
/// as many as the limit means there may be more.
pub fn mongo_result(docs: Vec<Vec<(String, Option<String>)>>) -> (r: QueryResult)
    ensures
        crate::results::documents_shown(docs@, docs@.len() == ROW_LIMIT, r),
{
    let truncated = docs.len() == ROW_LIMIT;
    documents_to_result(docs, truncated)
}


/// What a MongoDB preview writes in the editor reads back as the
/// collection's name on the first line and the empty filter `{}` below it.
pub proof fn law_preview_reads_back(o: CatalogObject)
    requires
        forall|k: int| 0 <= k < o.name@.len() ==> #[trigger] o.name@[k] != '\n',
    ensures
        first_line(object_preview(o, Driver::Mongo)) == o.name@,
        trim(after_first_line(object_preview(o, Driver::Mongo))) == "{}"@,
{
    reveal_strlit("\n{}");
    reveal_strlit("{}");
    let text = object_preview(o, Driver::Mongo);
    let n = o.name@.len() as int;
    assert forall|k: int| 0 <= k < n implies #[trigger] text[k] != '\n' by {
        assert(text[k] == o.name@[k]);
    }
    lemma_line_end(text, n);
    assert(text.take(n) =~= o.name@);
    let rest = after_first_line(text);
    assert(rest =~= "{}"@);
    assert(trim_start(rest) == rest);
    assert(trim_end(rest) == rest);
}


/// Whether `o` is the collection or view `name` of database `db`.
pub open spec fn is_listed_as(o: CatalogObject, db: Seq<char>, name: Seq<char>) -> bool {
    o.schema matches Some(s) && s@ == db && o.name@ == name
}

/// Whether `o` is a collection or view `name` of a database other than `db`.
pub open spec fn is_listed_elsewhere(o: CatalogObject, db: Seq<char>, name: Seq<char>) -> bool {
    o.schema matches Some(s) && s@ != db && o.name@ == name
}

/// The message for a collection that only another database has.
pub open spec fn other_database_message(collection: Seq<char>, database: Seq<char>) -> Seq<char> {
    "La colección "@ + collection + " no está en la base "@ + database
        + ", la única que consulta esta conexión."@
}

/// Checks, against the connection's catalog, that a query goes to the
/// database the connection is configured for: a collection that the
/// catalog lists only under other databases is refused with a clear
/// message. A collection listed under the configured database, or nowhere,
/// is queried.
pub fn check_mongo_target(catalog: &Vec<CatalogObject>, database: &str, collection: &str) -> (r: Result<(), String>)
    ensures
        r is Err <==> (!(exists|j: int| 0 <= j < catalog@.len() && #[trigger] is_listed_as(catalog@[j], database@, collection@))
            && exists|j: int| 0 <= j < catalog@.len() && #[trigger] is_listed_elsewhere(catalog@[j], database@, collection@)),
        r matches Err(m) ==> m@ == other_database_message(collection@, database@),
{
    let mut here = false;
    let mut elsewhere = false;
    let mut j: usize = 0;
    while j < catalog.len()
        invariant
            j <= catalog@.len(),
            here <==> exists|k: int| 0 <= k < j && #[trigger] is_listed_as(catalog@[k], database@, collection@),
            elsewhere <==> exists|k: int| 0 <= k < j && #[trigger] is_listed_elsewhere(catalog@[k], database@, collection@),
        decreases catalog@.len() - j,
    {
        let o = &catalog[j];
        let same_name = same_text(o.name.as_str(), collection);
        let (this_here, this_elsewhere) = match &o.schema {
            Some(s) => {
                let same_db = same_text(s.as_str(), database);
                (same_name && same_db, same_name && !same_db)
            },
            None => (false, false),
        };
        assert(this_here == is_listed_as(catalog@[j as int], database@, collection@));
        assert(this_elsewhere == is_listed_elsewhere(catalog@[j as int], database@, collection@));
        proof {
            if here {
                let k = choose|k: int| 0 <= k < j && #[trigger] is_listed_as(catalog@[k], database@, collection@);
                assert(0 <= k < j + 1 && is_listed_as(catalog@[k], database@, collection@));
            }
            if elsewhere {
                let k = choose|k: int| 0 <= k < j && #[trigger] is_listed_elsewhere(catalog@[k], database@, collection@);
                assert(0 <= k < j + 1 && is_listed_elsewhere(catalog@[k], database@, collection@));
            }
            assert forall|k: int| 0 <= k < j + 1 && #[trigger] is_listed_as(catalog@[k], database@, collection@) implies here
                || this_here by {
                if k < j {
                    assert(exists|k2: int| 0 <= k2 < j && #[trigger] is_listed_as(catalog@[k2], database@, collection@));
                }
            }
            assert forall|k: int| 0 <= k < j + 1 && #[trigger] is_listed_elsewhere(catalog@[k], database@, collection@) implies elsewhere
                || this_elsewhere by {
                if k < j {
                    assert(exists|k2: int| 0 <= k2 < j && #[trigger] is_listed_elsewhere(catalog@[k2], database@, collection@));
                }
            }
        }
        here = here || this_here;
        elsewhere = elsewhere || this_elsewhere;
        j = j + 1;
    }
    if !here && elsewhere {
        let mut m = String::from_str("La colección ");
        m.append(collection);
        m.append(" no está en la base ");
        m.append(database);
        m.append(", la única que consulta esta conexión.");
        Err(m)
    } else {
        Ok(())
    }
}

} // verus!
