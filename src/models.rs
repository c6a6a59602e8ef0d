use vstd::prelude::*;
use vstd::string::*;

use crate::utils::opt_view;

verus! {

/// The kind of a sync-protocol message.
#[derive(PartialEq, Eq, Structural, Clone, Copy, Debug)]
pub enum MessageType {
    Connection,
    Sync,
    Replicate,
    Error,
    Heartbeat,
}

/// A JSON value as the protocol logic reads it. Numbers keep their text.
#[derive(Debug, PartialEq)]
pub enum JsonValue {
    Null,
    Bool(bool),
    Number(String),
    Str(String),
    Array(Vec<JsonValue>),
    Object(Vec<(String, JsonValue)>),
}

/// The value of `key` among `fields`; where a key repeats, the last one counts.
pub open spec fn field_of(fields: Seq<(String, JsonValue)>, key: Seq<char>) -> Option<JsonValue>
    decreases fields.len(),
{
    if fields.len() == 0 {
        None
    } else if fields.last().0@ == key {
        Some(fields.last().1)
    } else {
        field_of(fields.drop_last(), key)
    }
}

/// The position of the field that `field_of` reads.
pub fn find_field(fields: &Vec<(String, JsonValue)>, key: &str) -> (r: Option<usize>)
    ensures
        r matches Some(i) ==> i < fields@.len() && fields@[i as int].0@ == key@ && field_of(fields@, key@)
            == Some(fields@[i as int].1),
        r is None ==> field_of(fields@, key@) is None,
{
    let mut found: Option<usize> = None;
    let mut i: usize = 0;
    while i < fields.len()
        invariant
            i <= fields@.len(),
            found matches Some(j) ==> j < i && fields@[j as int].0@ == key@ && field_of(fields@.take(i as int), key@)
                == Some(fields@[j as int].1),
            found is None ==> field_of(fields@.take(i as int), key@) is None,
        decreases fields@.len() - i,
    {
        proof {
            assert(fields@.take(i + 1).drop_last() =~= fields@.take(i as int));
        }
        if crate::text::same_text(fields[i].0.as_str(), key) {
            found = Some(i);
        }
        i += 1;
    }
    assert(fields@.take(fields@.len() as int) =~= fields@);
    found
}

/// A stored document: its id, its revision once written, and its other fields.
#[derive(Debug, PartialEq)]
pub struct CouchDbDocument {
    pub id: String,
    pub rev: Option<String>,
    pub data: JsonValue,
}

/// A message of the sync protocol.
#[derive(Debug)]
pub struct LiveSyncMessage {
    /// The message id, a UUID in its hyphenated text form.
    pub id: String,
    pub message_type: MessageType,
    pub payload: JsonValue,
}

/// The fields of a document object other than `_id` and `_rev`, in order.
pub open spec fn data_fields(fields: Seq<(String, JsonValue)>) -> Seq<(String, JsonValue)>
    decreases fields.len(),
{
    if fields.len() == 0 {
        Seq::empty()
    } else {
        let rest = data_fields(fields.drop_last());
        if fields.last().0@ == "_id"@ || fields.last().0@ == "_rev"@ {
            rest
        } else {
            rest.push(fields.last())
        }
    }
}

/// Whether the fields of an object make a document: `_id` is a string and
/// `_rev`, where present, a string or null.
pub open spec fn is_document(fields: Seq<(String, JsonValue)>) -> bool {
    &&& field_of(fields, "_id"@) matches Some(JsonValue::Str(_))
    &&& match field_of(fields, "_rev"@) {
        None => true,
        Some(JsonValue::Null) => true,
        Some(JsonValue::Str(_)) => true,
        _ => false,
    }
}

/// The revision that the fields of a document object carry.
pub open spec fn document_rev(fields: Seq<(String, JsonValue)>) -> Option<Seq<char>> {
    match field_of(fields, "_rev"@) {
        Some(JsonValue::Str(r)) => Some(r@),
        _ => None,
    }
}

/// The id that the fields of a document object carry.
pub open spec fn document_id(fields: Seq<(String, JsonValue)>) -> Seq<char> {
    match field_of(fields, "_id"@) {
        Some(JsonValue::Str(i)) => i@,
        _ => Seq::empty(),
    }
}

impl CouchDbDocument {
    /// Reads a document from the fields of a JSON object; `None` where they
    /// do not make one.
    pub fn from_fields(fields: Vec<(String, JsonValue)>) -> (r: Option<CouchDbDocument>)
        ensures
            r is Some <==> is_document(fields@),
            r matches Some(d) ==> d.id@ == document_id(fields@) && opt_view(d.rev) == document_rev(fields@)
                && (d.data matches JsonValue::Object(v) && v@ == data_fields(fields@)),
    {
        let ghost all = fields@;
        proof {
            reveal_strlit("_id");
            reveal_strlit("_rev");
            assert("_id"@.len() == 3 && "_rev"@.len() == 4);
            assert("_id"@ != "_rev"@);
        }
        let mut fields = fields;
        let mut id: Option<String> = None;
        let mut rev: Option<String> = None;
        let mut malformed = false;
        let mut data: Vec<(String, JsonValue)> = Vec::new();
        let mut k: usize = 0;
        let n = fields.len();
        while fields.len() > 0
            invariant
                n == all.len(),
                k + fields@.len() == n,
                fields@ == all.subrange(k as int, n as int),
                data@ == data_fields(all.take(k as int)),
                match field_of(all.take(k as int), "_id"@) {
                    Some(JsonValue::Str(s)) => id matches Some(t) && t@ == s@,
                    _ => id is None,
                },
                malformed <==> match field_of(all.take(k as int), "_rev"@) {
                    None => false,
                    Some(JsonValue::Null) => false,
                    Some(JsonValue::Str(_)) => false,
                    _ => true,
                },
                opt_view(rev) == document_rev(all.take(k as int)),
                "_id"@ != "_rev"@,
            decreases fields@.len(),
        {
            let (key, value) = fields.remove(0);
            let ghost gk = key@;
            proof {
                assert(all.take(k + 1).drop_last() =~= all.take(k as int));
                assert(all.take(k + 1).last() == all[k as int]);
                assert(all[k as int] == (key, value));
                assert(fields@ =~= all.subrange(k + 1, n as int));
            }
            let is_id = crate::text::same_text(key.as_str(), "_id");
            let is_rev = crate::text::same_text(key.as_str(), "_rev");
            if is_id {
                match value {
                    JsonValue::Str(s) => {
                        id = Some(s);
                    },
                    _ => {
                        id = None;
                    },
                }
            } else if is_rev {
                match value {
                    JsonValue::Str(s) => {
                        rev = Some(s);
                        malformed = false;
                    },
                    JsonValue::Null => {
                        rev = None;
                        malformed = false;
                    },
                    _ => {
                        rev = None;
                        malformed = true;
                    },
                }
            } else {
                data.push((key, value));
            }
            proof {
                let next = all.take(k + 1);
                assert(next.last().0@ == gk);
                if is_rev {
                    assert(field_of(next, "_rev"@) == Some(next.last().1));
                } else {
                    assert(gk != "_rev"@);
                    assert(field_of(next, "_rev"@) == field_of(all.take(k as int), "_rev"@));
                }
            }
            k += 1;
        }
        assert(all.take(n as int) =~= all);
        if malformed {
            return None;
        }
        match id {
            Some(i) => Some(CouchDbDocument { id: i, rev, data: JsonValue::Object(data) }),
            None => None,
        }
    }
}

/// Errors of the library, each with its message.
#[derive(Debug)]
pub enum DomainError {
    /// A client sent malformed protocol data.
    InvalidMessage(String),
    /// Credentials are missing or wrong.
    AuthError(String),
    /// Talking to the backend failed.
    CouchDbError(String),
    /// A registry conflict, a missing client or a failed delivery.
    WebSocketError(String),
}

impl DomainError {
    /// The message carried by the error.
    pub open spec fn message(&self) -> Seq<char> {
        match self {
            DomainError::InvalidMessage(m) => m@,
            DomainError::AuthError(m) => m@,
            DomainError::CouchDbError(m) => m@,
            DomainError::WebSocketError(m) => m@,
        }
    }

    /// The error as text, prefixed with its kind.
    pub fn to_text(&self) -> (r: String)
        ensures
            r@ == self.kind_prefix() + self.message(),
    {
        let (prefix, m) = match self {
            DomainError::InvalidMessage(m) => ("Invalid message format: ", m),
            DomainError::AuthError(m) => ("Authentication error: ", m),
            DomainError::CouchDbError(m) => ("CouchDB error: ", m),
            DomainError::WebSocketError(m) => ("WebSocket error: ", m),
        };
        let mut r = prefix.to_owned();
        r.append(m.as_str());
        r
    }

    /// The prefix naming the kind of the error in its text.
    pub open spec fn kind_prefix(&self) -> Seq<char> {
        match self {
            DomainError::InvalidMessage(_) => "Invalid message format: "@,
            DomainError::AuthError(_) => "Authentication error: "@,
            DomainError::CouchDbError(_) => "CouchDB error: "@,
            DomainError::WebSocketError(_) => "WebSocket error: "@,
        }
    }
}

} // verus!
