use vstd::prelude::*;
use vstd::string::*;

use crate::models::{
    data_fields, document_id, document_rev, field_of, find_field, is_document, CouchDbDocument, DomainError, JsonValue,
};
use crate::utils::opt_view;
use crate::text::{decimal, push_decimal};

verus! {

/// The URL of a database: the base URL (which ends with `/`) and its name.
pub open spec fn spec_database_url(base: Seq<char>, db: Seq<char>) -> Seq<char> {
    base + db
}

/// The URL of a document of a database.
pub open spec fn spec_document_url(base: Seq<char>, db: Seq<char>, id: Seq<char>) -> Seq<char> {
    base + db + "/"@ + id
}

/// The URL that deletes one revision of a document.
pub open spec fn spec_delete_url(base: Seq<char>, db: Seq<char>, id: Seq<char>, rev: Seq<char>) -> Seq<char> {
    spec_document_url(base, db, id) + "?rev="@ + rev
}

/// The URL of a view of a design document.
pub open spec fn spec_view_url(base: Seq<char>, db: Seq<char>, design: Seq<char>, view: Seq<char>) -> Seq<char> {
    base + db + "/_design/"@ + design + "/_view/"@ + view
}

/// The URL of the backend's replication endpoint.
pub open spec fn spec_replicate_url(base: Seq<char>) -> Seq<char> {
    base + "_replicate"@
}

/// The URL of a database under `base`.
pub fn database_url(base: &str, db: &str) -> (r: String)
    ensures
        r@ == spec_database_url(base@, db@),
{
    let mut r = base.to_owned();
    r.append(db);
    r
}

/// The URL of document `id` of database `db` under `base`.
pub fn document_url(base: &str, db: &str, id: &str) -> (r: String)
    ensures
        r@ == spec_document_url(base@, db@, id@),
{
    let mut r = database_url(base, db);
    r.append("/");
    r.append(id);
    r
}

/// The URL that deletes revision `rev` of document `id`.
pub fn delete_url(base: &str, db: &str, id: &str, rev: &str) -> (r: String)
    ensures
        r@ == spec_delete_url(base@, db@, id@, rev@),
{
    let mut r = document_url(base, db, id);
    r.append("?rev=");
    r.append(rev);
    r
}

/// The URL of view `view` of design document `design`.
pub fn view_url(base: &str, db: &str, design: &str, view: &str) -> (r: String)
    ensures
        r@ == spec_view_url(base@, db@, design@, view@),
{
    let mut r = database_url(base, db);
    r.append("/_design/");
    r.append(design);
    r.append("/_view/");
    r.append(view);
    r
}

/// The URL of the replication endpoint under `base`.
pub fn replicate_url(base: &str) -> (r: String)
    ensures
        r@ == spec_replicate_url(base@),
{
    let mut r = base.to_owned();
    r.append("_replicate");
    r
}

/// Whether a status code is a success (`2xx`).
pub open spec fn is_2xx(status: u16) -> bool {
    200 <= status < 300
}

/// Whether the answer to `HEAD /{db}` says that the database exists.
pub fn database_exists_from_status(status: u16) -> (r: bool)
    ensures
        r == (status == 200),
{
    status == 200
}

/// The message of a backend operation that ended with an unexpected status.
pub open spec fn status_failure_message(action: Seq<char>, status: u16) -> Seq<char> {
    "Failed to "@ + action + " with status: "@ + decimal(status as nat)
}

/// Whether `r` is a backend error with the message `m`.
pub open spec fn is_backend_error<T>(r: Result<T, DomainError>, m: Seq<char>) -> bool {
    r matches Err(DomainError::CouchDbError(text)) && text@ == m
}

fn status_failure(action: &str, status: u16) -> (r: DomainError)
    ensures
        r matches DomainError::CouchDbError(m) && m@ == status_failure_message(action@, status),
{
    let mut m = "Failed to ".to_owned();
    m.append(action);
    m.append(" with status: ");
    push_decimal(&mut m, status as u64);
    DomainError::CouchDbError(m)
}

/// The outcome of `PUT /{db}`: created, or already there, is a success.
pub fn create_database_result(status: u16) -> (r: Result<(), DomainError>)
    ensures
        (status == 201 || status == 412) ==> r is Ok,
        !(status == 201 || status == 412) ==> is_backend_error(r, status_failure_message("create database"@, status)),
{
    if status == 201 || status == 412 {
        Ok(())
    } else {
        Err(status_failure("create database", status))
    }
}

/// The outcome of reading document `doc_id`: a `404` names the document.
pub fn get_document_result(doc_id: &str, status: u16) -> (r: Result<(), DomainError>)
    ensures
        is_2xx(status) ==> r is Ok,
        status == 404 ==> is_backend_error(r, "Document "@ + doc_id@ + " not found"@),
        !is_2xx(status) && status != 404 ==> is_backend_error(r, status_failure_message("get document"@, status)),
{
    if status == 404 {
        let mut m = "Document ".to_owned();
        m.append(doc_id);
        m.append(" not found");
        Err(DomainError::CouchDbError(m))
    } else if 200 <= status && status < 300 {
        Ok(())
    } else {
        Err(status_failure("get document", status))
    }
}

/// The outcome of a backend operation described by `action` (such as
/// `save document`): any `2xx` is a success.
pub fn operation_result(action: &str, status: u16) -> (r: Result<(), DomainError>)
    ensures
        is_2xx(status) ==> r is Ok,
        !is_2xx(status) ==> is_backend_error(r, status_failure_message(action@, status)),
{
    if 200 <= status && status < 300 {
        Ok(())
    } else {
        Err(status_failure(action, status))
    }
}

/// The fields of an object value; none for any other value.
pub open spec fn object_fields(v: JsonValue) -> Seq<(String, JsonValue)> {
    match v {
        JsonValue::Object(f) => f@,
        _ => Seq::empty(),
    }
}

/// Whether `f` is the field `key` holding the string `value`.
pub open spec fn is_str_field(f: (String, JsonValue), key: Seq<char>, value: Seq<char>) -> bool {
    f.0@ == key && (f.1 matches JsonValue::Str(v) && v@ == value)
}

/// The fields of the replication request: `source` and `target`, unless the
/// options give them, then every option in order.
pub open spec fn spec_replication_fields(
    source_field: (String, JsonValue),
    target_field: (String, JsonValue),
    options: Seq<(String, JsonValue)>,
) -> Seq<(String, JsonValue)> {
    let s = if field_of(options, "source"@) is Some { Seq::empty() } else { seq![source_field] };
    let t = if field_of(options, "target"@) is Some { Seq::empty() } else { seq![target_field] };
    s + t + options
}

/// The body of a replication request from `source` to `target`; the fields
/// of an object `options` are added, and win over `source` and `target`.
/// Options that are not an object are ignored.
pub fn replication_body(source: &str, target: &str, options: JsonValue) -> (r: JsonValue)
    ensures
        r matches JsonValue::Object(fields) && exists|sf: (String, JsonValue), tf: (String, JsonValue)|
            is_str_field(sf, "source"@, source@) && is_str_field(tf, "target"@, target@)
            && fields@ == spec_replication_fields(sf, tf, object_fields(options)),
{
    let ghost opts = object_fields(options);
    let mut extra = match options {
        JsonValue::Object(f) => f,
        _ => Vec::new(),
    };
    assert(extra@ == opts);
    let source_field = ("source".to_owned(), JsonValue::Str(source.to_owned()));
    let target_field = ("target".to_owned(), JsonValue::Str(target.to_owned()));
    let ghost sf = source_field;
    let ghost tf = target_field;
    let mut fields: Vec<(String, JsonValue)> = Vec::new();
    if find_field(&extra, "source").is_none() {
        fields.push(source_field);
    }
    if find_field(&extra, "target").is_none() {
        fields.push(target_field);
    }
    fields.append(&mut extra);
    assert(fields@ =~= spec_replication_fields(sf, tf, opts));
    assert(is_str_field(sf, "source"@, source@) && is_str_field(tf, "target"@, target@));
    JsonValue::Object(fields)
}

/// The query parameters that view options give: each option whose value is
/// a string, in order.
pub open spec fn spec_view_params(options: Seq<(String, JsonValue)>) -> Seq<(Seq<char>, Seq<char>)>
    decreases options.len(),
{
    if options.len() == 0 {
        Seq::empty()
    } else {
        let rest = spec_view_params(options.drop_last());
        match options.last().1 {
            JsonValue::Str(v) => rest.push((options.last().0@, v@)),
            _ => rest,
        }
    }
}

/// The query parameters of a view request for `options`.
pub fn view_query_params(options: &JsonValue) -> (r: Vec<(String, String)>)
    ensures
        r@.map_values(|p: (String, String)| (p.0@, p.1@)) == spec_view_params(object_fields(*options)),
{
    let mut out: Vec<(String, String)> = Vec::new();
    match options {
        JsonValue::Object(fields) => {
            let mut i: usize = 0;
            while i < fields.len()
                invariant
                    i <= fields@.len(),
                    *options == JsonValue::Object(*fields),
                    out@.map_values(|p: (String, String)| (p.0@, p.1@)) =~= spec_view_params(fields@.take(i as int)),
                decreases fields@.len() - i,
            {
                proof {
                    assert(fields@.take(i + 1).drop_last() =~= fields@.take(i as int));
                }
                match &fields[i].1 {
                    JsonValue::Str(v) => {
                        out.push((fields[i].0.clone(), v.clone()));
                    },
                    _ => {},
                }
                i += 1;
            }
            assert(fields@.take(fields@.len() as int) =~= fields@);
        },
        _ => {
            assert(out@.map_values(|p: (String, String)| (p.0@, p.1@)) =~= Seq::empty());
        },
    }
    out
}

/// The revision that a save response reports.
pub open spec fn spec_saved_revision(response: JsonValue) -> Option<Seq<char>> {
    match field_of(object_fields(response), "rev"@) {
        Some(JsonValue::Str(r)) => Some(r@),
        _ => None,
    }
}

/// Reads the new revision from the answer to a document write.
pub fn saved_revision(response: &JsonValue) -> (r: Option<String>)
    ensures
        opt_view(r) == spec_saved_revision(*response),
{
    match response {
        JsonValue::Object(fields) => match find_field(fields, "rev") {
            Some(i) => match &fields[i].1 {
                JsonValue::Str(rev) => Some(rev.clone()),
                _ => None,
            },
            None => None,
        },
        _ => None,
    }
}

/// The rows of a view response, where it has them.
pub open spec fn view_rows(response: JsonValue) -> Option<Seq<JsonValue>> {
    match field_of(object_fields(response), "rows"@) {
        Some(JsonValue::Array(rows)) => Some(rows@),
        _ => None,
    }
}

/// What one row of a view response holds: `None` for a malformed row,
/// `Some(None)` for a row without a document, and otherwise the fields of
/// its document.
pub open spec fn row_document(row: JsonValue) -> Option<Option<Seq<(String, JsonValue)>>> {
    match row {
        JsonValue::Object(f) => match field_of(f@, "doc"@) {
            None => Some(None),
            Some(JsonValue::Null) => Some(None),
            Some(JsonValue::Object(df)) => if is_document(df@) {
                Some(Some(df@))
            } else {
                None
            },
            _ => None,
        },
        _ => None,
    }
}

/// Whether every row is well formed.
pub open spec fn rows_well_formed(rows: Seq<JsonValue>) -> bool {
    forall|i: int| 0 <= i < rows.len() ==> (#[trigger] row_document(rows[i])) is Some
}

/// The documents of the rows that carry one, in order.
pub open spec fn row_documents(rows: Seq<JsonValue>) -> Seq<Seq<(String, JsonValue)>>
    decreases rows.len(),
{
    if rows.len() == 0 {
        Seq::empty()
    } else {
        let rest = row_documents(rows.drop_last());
        match row_document(rows.last()) {
            Some(Some(df)) => rest.push(df),
            _ => rest,
        }
    }
}

/// Whether `d` is the document that the object fields `df` describe.
pub open spec fn is_document_of(d: CouchDbDocument, df: Seq<(String, JsonValue)>) -> bool {
    &&& d.id@ == document_id(df)
    &&& opt_view(d.rev) == document_rev(df)
    &&& (d.data matches JsonValue::Object(v) && v@ == data_fields(df))
}

pub open spec fn view_parse_failure() -> Seq<char> {
    "Failed to parse view response"@
}

/// The documents of a view response, in row order; rows without a document
/// are skipped. A response without rows, or with a malformed row, is an
/// error.
pub fn view_documents(response: JsonValue) -> (r: Result<Vec<CouchDbDocument>, DomainError>)
    ensures
        r is Ok <==> (view_rows(response) is Some && rows_well_formed(view_rows(response)->Some_0)),
        r matches Err(DomainError::InvalidMessage(m)) ==> m@ == view_parse_failure(),
        r is Err ==> r matches Err(DomainError::InvalidMessage(_)),
        r matches Ok(docs) ==> ({
            let wanted = row_documents(view_rows(response)->Some_0);
            docs@.len() == wanted.len() && forall|k: int| 0 <= k < docs@.len() ==> is_document_of(#[trigger] docs@[k], wanted[k])
        }),
{
    let ghost given = response;
    let mut fields = match response {
        JsonValue::Object(f) => f,
        _ => return Err(DomainError::InvalidMessage("Failed to parse view response".to_owned())),
    };
    assert(fields@ == object_fields(given));
    let idx = match find_field(&fields, "rows") {
        Some(i) => i,
        None => return Err(DomainError::InvalidMessage("Failed to parse view response".to_owned())),
    };
    let (_key, value) = fields.remove(idx);
    let mut rows = match value {
        JsonValue::Array(r) => r,
        _ => return Err(DomainError::InvalidMessage("Failed to parse view response".to_owned())),
    };
    let ghost all = rows@;
    assert(view_rows(given) == Some(all));
    let n = rows.len();
    let mut docs: Vec<CouchDbDocument> = Vec::new();
    let mut k: usize = 0;
    while rows.len() > 0
        invariant
            n == all.len(),
            k + rows@.len() == n,
            rows@ == all.subrange(k as int, n as int),
            view_rows(given) == Some(all),
            given == response,
            rows_well_formed(all.take(k as int)),
            docs@.len() == row_documents(all.take(k as int)).len(),
            forall|j: int| 0 <= j < docs@.len() ==> is_document_of(#[trigger] docs@[j], row_documents(all.take(k as int))[j]),
        decreases rows@.len(),
    {
        let row = rows.remove(0);
        let ghost this_row = row;
        proof {
            assert(all[k as int] == this_row);
            assert(rows@ =~= all.subrange(k + 1, n as int));
            assert(all.take(k + 1).drop_last() =~= all.take(k as int));
            assert(all.take(k + 1).last() == this_row);
        }
        let mut row_fields = match row {
            JsonValue::Object(f) => f,
            _ => {
                assert(!rows_well_formed(all)) by {
                    assert(row_document(all[k as int]) is None);
                }
                return Err(DomainError::InvalidMessage("Failed to parse view response".to_owned()));
            },
        };
        let ghost before = docs@;
        match find_field(&row_fields, "doc") {
            None => {},
            Some(i) => {
                let (_key, doc_value) = row_fields.remove(i);
                match doc_value {
                    JsonValue::Null => {},
                    JsonValue::Object(df) => {
                        match CouchDbDocument::from_fields(df) {
                            Some(d) => {
                                docs.push(d);
                            },
                            None => {
                                assert(!rows_well_formed(all)) by {
                                    assert(row_document(all[k as int]) is None);
                                }
                                return Err(DomainError::InvalidMessage("Failed to parse view response".to_owned()));
                            },
                        }
                    },
                    _ => {
                        assert(!rows_well_formed(all)) by {
                            assert(row_document(all[k as int]) is None);
                        }
                        return Err(DomainError::InvalidMessage("Failed to parse view response".to_owned()));
                    },
                }
            },
        }
        proof {
            let next = all.take(k + 1);
            assert(next.drop_last() =~= all.take(k as int));
            assert forall|i: int| 0 <= i < next.len() implies (#[trigger] row_document(next[i])) is Some by {
                if i < k {
                    assert(next[i] == all.take(k as int)[i]);
                }
            }
            assert forall|j: int| 0 <= j < docs@.len() implies is_document_of(#[trigger] docs@[j], row_documents(next)[j]) by {
                if j < before.len() {
                    assert(docs@[j] == before[j]);
                }
            }
        }
        k += 1;
    }
    assert(all.take(n as int) =~= all);
    Ok(docs)
}

} // verus!
