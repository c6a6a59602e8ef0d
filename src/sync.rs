use vstd::prelude::*;
use vstd::string::*;

use crate::broker::{
    delivery_failed_message, is_broker_error, not_found_message, spec_register, spec_unregister,
    WebSocketBroker,
};
use crate::models::{
    data_fields, document_id, document_rev, field_of, find_field, is_document, CouchDbDocument, DomainError,
    JsonValue, LiveSyncMessage, MessageType,
};
use crate::text::{decimal, json_escaped, push_decimal, push_json_escaped};
use crate::utils::opt_view;

verus! {

/// What the transport has to do for a message before it is answered.
pub enum SyncStep {
    /// Nothing: the message is fully handled.
    Done,
    /// The client was registered as `client_id`; send it `reply` through
    /// `send_reply`.
    Acknowledge { client_id: String, reply: String },
    /// Make sure `database` exists (creating it if absent), save `document`
    /// where there is one, then report through `complete_document_sync`.
    SaveDocument { database: String, document: Option<CouchDbDocument> },
    /// Replicate `source` into `target` with `options`, then report through
    /// `complete_replication`.
    Replicate { source: String, target: String, options: JsonValue },
}

/// The fields of a payload that is a JSON object; none otherwise.
pub open spec fn payload_fields(p: JsonValue) -> Seq<(String, JsonValue)> {
    match p {
        JsonValue::Object(f) => f@,
        _ => Seq::empty(),
    }
}

/// The string value of `key` in a payload, if it has one.
pub open spec fn str_field(p: JsonValue, key: Seq<char>) -> Option<Seq<char>> {
    match field_of(payload_fields(p), key) {
        Some(JsonValue::Str(s)) => Some(s@),
        _ => None,
    }
}

/// The id under which a `Connection` registers its client: the payload's
/// `client_id`, else its `client`, else the id the transport gave.
pub open spec fn connection_id(payload: JsonValue, transport_id: Seq<char>) -> Seq<char> {
    match str_field(payload, "client_id"@) {
        Some(c) => c,
        None => match str_field(payload, "client"@) {
            Some(c) => c,
            None => transport_id,
        },
    }
}

fn connection_client_id(payload: &JsonValue, transport_id: &str) -> (r: String)
    ensures
        r@ == connection_id(*payload, transport_id@),
{
    let empty: Vec<(String, JsonValue)> = Vec::new();
    let fields = match payload {
        JsonValue::Object(f) => f,
        _ => &empty,
    };
    assert(fields@ == payload_fields(*payload));
    match string_field(fields, "client_id") {
        Some(c) => c,
        None => match string_field(fields, "client") {
            Some(c) => c,
            None => transport_id.to_owned(),
        },
    }
}

/// Whether `r` is an invalid-message error with the message `m`.
pub open spec fn is_invalid<T>(r: Result<T, DomainError>, m: Seq<char>) -> bool {
    r matches Err(DomainError::InvalidMessage(text)) && text@ == m
}

/// The protocol name of a message kind.
pub open spec fn kind_name(k: MessageType) -> Seq<char> {
    match k {
        MessageType::Connection => "connection"@,
        MessageType::Sync => "sync"@,
        MessageType::Replicate => "replicate"@,
        MessageType::Error => "error"@,
        MessageType::Heartbeat => "heartbeat"@,
    }
}

/// The JSON text of a reply message with id `reply_id`, of kind `kind`,
/// carrying the JSON text `payload`.
pub open spec fn reply_text(reply_id: Seq<char>, kind: MessageType, payload: Seq<char>) -> Seq<char> {
    "{\"id\":\""@ + json_escaped(reply_id) + "\",\"message_type\":\""@ + kind_name(kind) + "\",\"payload\":"@ + payload
        + "}"@
}

/// The payload acknowledging the connection of `client_id` at `now`.
pub open spec fn connection_payload(client_id: Seq<char>, now: nat) -> Seq<char> {
    "{\"status\":\"connected\",\"client_id\":\""@ + json_escaped(client_id) + "\",\"timestamp\":"@ + decimal(now)
        + "}"@
}

/// The payload reporting a saved document.
pub open spec fn sync_payload(id: Seq<char>, rev: Option<Seq<char>>) -> Seq<char> {
    "{\"document_id\":\""@ + json_escaped(id) + "\",\"rev\":"@ + match rev {
        Some(r) => "\""@ + json_escaped(r) + "\""@,
        None => "null"@,
    } + "}"@
}

fn kind_name_str(k: MessageType) -> (r: &'static str)
    ensures
        r@ == kind_name(k),
{
    match k {
        MessageType::Connection => "connection",
        MessageType::Sync => "sync",
        MessageType::Replicate => "replicate",
        MessageType::Error => "error",
        MessageType::Heartbeat => "heartbeat",
    }
}

/// The JSON text of a reply message.
pub fn reply_message(reply_id: &str, kind: MessageType, payload: &str) -> (r: String)
    ensures
        r@ == reply_text(reply_id@, kind, payload@),
{
    let mut r = "{\"id\":\"".to_owned();
    push_json_escaped(&mut r, reply_id);
    r.append("\",\"message_type\":\"");
    r.append(kind_name_str(kind));
    r.append("\",\"payload\":");
    r.append(payload);
    r.append("}");
    r
}

/// The reply acknowledging the connection of `client_id` at `now`.
pub fn connection_reply(reply_id: &str, client_id: &str, now: u64) -> (r: String)
    ensures
        r@ == reply_text(reply_id@, MessageType::Connection, connection_payload(client_id@, now as nat)),
{
    let mut p = "{\"status\":\"connected\",\"client_id\":\"".to_owned();
    push_json_escaped(&mut p, client_id);
    p.append("\",\"timestamp\":");
    push_decimal(&mut p, now);
    p.append("}");
    reply_message(reply_id, MessageType::Connection, p.as_str())
}

/// The reply reporting that `saved` was written.
pub fn sync_reply(reply_id: &str, saved: &CouchDbDocument) -> (r: String)
    ensures
        r@ == reply_text(reply_id@, MessageType::Sync, sync_payload(saved.id@, opt_view(saved.rev))),
{
    let mut p = "{\"document_id\":\"".to_owned();
    push_json_escaped(&mut p, saved.id.as_str());
    p.append("\",\"rev\":");
    match &saved.rev {
        Some(rev) => {
            p.append("\"");
            push_json_escaped(&mut p, rev.as_str());
            p.append("\"");
        },
        None => {
            p.append("null");
        },
    }
    p.append("}");
    assert(p@ =~= sync_payload(saved.id@, opt_view(saved.rev)));
    reply_message(reply_id, MessageType::Sync, p.as_str())
}

/// The reply carrying the backend's replication result, given as JSON text.
pub fn replicate_reply(reply_id: &str, result_json: &str) -> (r: String)
    ensures
        r@ == reply_text(reply_id@, MessageType::Replicate, result_json@),
{
    reply_message(reply_id, MessageType::Replicate, result_json)
}

fn string_field(fields: &Vec<(String, JsonValue)>, key: &str) -> (r: Option<String>)
    ensures
        opt_view(r) == match field_of(fields@, key@) {
            Some(JsonValue::Str(s)) => Some(s@),
            _ => None::<Seq<char>>,
        },
{
    match find_field(fields, key) {
        Some(i) => match &fields[i].1 {
            JsonValue::Str(s) => Some(s.clone()),
            _ => None,
        },
        None => None,
    }
}

/// The outcome owed for a `Sync` payload: the database it names and, where
/// it carries one, the document; or the error it gives.
pub open spec fn sync_step_ok(payload: JsonValue, r: Result<SyncStep, DomainError>) -> bool {
    match str_field(payload, "database"@) {
        None => is_invalid(r, "Missing database name"@),
        Some(db) => match field_of(payload_fields(payload), "document"@) {
            None => r matches Ok(SyncStep::SaveDocument { database, document: None }) && database@ == db,
            Some(JsonValue::Null) => r matches Ok(SyncStep::SaveDocument { database, document: None })
                && database@ == db,
            Some(JsonValue::Object(df)) => if is_document(df@) {
                r matches Ok(SyncStep::SaveDocument { database, document: Some(d) }) && database@ == db
                    && d.id@ == document_id(df@) && opt_view(d.rev) == document_rev(df@)
                    && (d.data matches JsonValue::Object(v) && v@ == data_fields(df@))
            } else {
                is_invalid(r, "Invalid document format"@)
            },
            _ => is_invalid(r, "Invalid document format"@),
        },
    }
}

/// The outcome owed for a `Replicate` payload: both databases and the
/// options; or the error it gives.
pub open spec fn replicate_step_ok(payload: JsonValue, r: Result<SyncStep, DomainError>) -> bool {
    match (str_field(payload, "source"@), str_field(payload, "target"@)) {
        (None, _) => is_invalid(r, "Missing source database"@),
        (Some(_), None) => is_invalid(r, "Missing target database"@),
        (Some(s), Some(t)) => r matches Ok(SyncStep::Replicate { source, target, options }) && source@ == s
            && target@ == t && options == match field_of(payload_fields(payload), "options"@) {
            Some(o) => o,
            None => JsonValue::Null,
        },
    }
}

fn sync_step(payload: JsonValue) -> (r: Result<SyncStep, DomainError>)
    ensures
        sync_step_ok(payload, r),
{
    let ghost given = payload;
    let mut fields = match payload {
        JsonValue::Object(f) => f,
        _ => Vec::new(),
    };
    assert(fields@ == payload_fields(given));
    let database = match string_field(&fields, "database") {
        Some(d) => d,
        None => return Err(DomainError::InvalidMessage("Missing database name".to_owned())),
    };
    match find_field(&fields, "document") {
        None => Ok(SyncStep::SaveDocument { database, document: None }),
        Some(i) => {
            let (_key, value) = fields.remove(i);
            match value {
                JsonValue::Null => Ok(SyncStep::SaveDocument { database, document: None }),
                JsonValue::Object(df) => match CouchDbDocument::from_fields(df) {
                    Some(d) => Ok(SyncStep::SaveDocument { database, document: Some(d) }),
                    None => Err(DomainError::InvalidMessage("Invalid document format".to_owned())),
                },
                _ => Err(DomainError::InvalidMessage("Invalid document format".to_owned())),
            }
        },
    }
}

fn replicate_step(payload: JsonValue) -> (r: Result<SyncStep, DomainError>)
    ensures
        replicate_step_ok(payload, r),
{
    let ghost given = payload;
    let mut fields = match payload {
        JsonValue::Object(f) => f,
        _ => Vec::new(),
    };
    assert(fields@ == payload_fields(given));
    let source = match string_field(&fields, "source") {
        Some(s) => s,
        None => return Err(DomainError::InvalidMessage("Missing source database".to_owned())),
    };
    let target = match string_field(&fields, "target") {
        Some(t) => t,
        None => return Err(DomainError::InvalidMessage("Missing target database".to_owned())),
    };
    let options = match find_field(&fields, "options") {
        Some(i) => fields.remove(i).1,
        None => JsonValue::Null,
    };
    Ok(SyncStep::Replicate { source, target, options })
}

/// Dispatches sync-protocol messages and answers clients through the broker.
pub struct SyncCoordinator {
    broker: WebSocketBroker,
}

impl SyncCoordinator {
    /// The broker is well formed.
    pub closed spec fn wf(&self) -> bool {
        self.broker.wf()
    }

    /// The registered client ids.
    pub closed spec fn clients(&self) -> Seq<Seq<char>> {
        self.broker@
    }

    /// A coordinator answering through `broker`.
    pub fn new(broker: WebSocketBroker) -> (r: SyncCoordinator)
        requires
            broker.wf(),
        ensures
            r.wf(),
            r.clients() == broker@,
    {
        SyncCoordinator { broker }
    }

    /// The broker, for the transport to send, subscribe and broadcast.
    pub fn broker(&self) -> (r: &WebSocketBroker)
        ensures
            r@ == self.clients(),
            r.wf() == self.wf(),
    {
        &self.broker
    }

    /// Handles one message from `client_id`, received at `now`; `reply_id` is
    /// the id given to a reply. A `Connection` registers the client (under
    /// the id its payload names, if any) and returns its acknowledgement; `Sync` and `Replicate` are checked and returned as the
    /// backend work to do; `Heartbeat` and `Error` need nothing.
    pub fn handle_message(&mut self, client_id: &str, message: LiveSyncMessage, reply_id: &str, now: u64) -> (r: Result<SyncStep, DomainError>)
        requires
            old(self).wf(),
        ensures
            final(self).wf(),
            message.message_type != MessageType::Connection ==> final(self).clients() == old(self).clients(),
            match message.message_type {
                MessageType::Connection => {
                    let id = connection_id(message.payload, client_id@);
                    match spec_register(old(self).clients(), id) {
                        None => is_broker_error(r, crate::broker::already_registered_message(id))
                            && final(self).clients() == old(self).clients(),
                        Some(ids) => final(self).clients() == ids && (r matches Ok(
                            SyncStep::Acknowledge { client_id: c, reply },
                        ) && c@ == id && reply@ == reply_text(reply_id@, MessageType::Connection, connection_payload(id, now as nat))),
                    }
                },
                MessageType::Sync => sync_step_ok(message.payload, r),
                MessageType::Replicate => replicate_step_ok(message.payload, r),
                MessageType::Heartbeat => r matches Ok(SyncStep::Done),
                MessageType::Error => r matches Ok(SyncStep::Done),
            },
    {
        match message.message_type {
            MessageType::Connection => {
                let id = connection_client_id(&message.payload, client_id);
                match self.broker.register_client(id.as_str()) {
                    Ok(()) => {},
                    Err(e) => return Err(e),
                }
                let reply = connection_reply(reply_id, id.as_str(), now);
                Ok(SyncStep::Acknowledge { client_id: id, reply })
            },
            MessageType::Sync => sync_step(message.payload),
            MessageType::Replicate => replicate_step(message.payload),
            MessageType::Heartbeat => Ok(SyncStep::Done),
            MessageType::Error => Ok(SyncStep::Done),
        }
    }

    /// Sends a reply built by this coordinator, such as an acknowledgement, to
    /// `client_id`.
    pub fn send_reply(&self, client_id: &str, reply: String) -> (r: Result<(), DomainError>)
        ensures
            !self.clients().contains(client_id@) ==> is_broker_error(r, not_found_message(client_id@)),
            self.clients().contains(client_id@) ==> r is Ok || is_broker_error(r, delivery_failed_message()),
    {
        self.broker.send_message(client_id, reply)
    }

    /// Answers `client_id` once the backend has saved `saved`.
    pub fn complete_document_sync(&self, client_id: &str, reply_id: &str, saved: &CouchDbDocument) -> (r: Result<(), DomainError>)
        ensures
            !self.clients().contains(client_id@) ==> is_broker_error(r, not_found_message(client_id@)),
            self.clients().contains(client_id@) ==> r is Ok || is_broker_error(r, delivery_failed_message()),
    {
        self.broker.send_message(client_id, sync_reply(reply_id, saved))
    }

    /// Answers `client_id` with the backend's replication result, given as
    /// JSON text.
    pub fn complete_replication(&self, client_id: &str, reply_id: &str, result_json: &str) -> (r: Result<(), DomainError>)
        ensures
            !self.clients().contains(client_id@) ==> is_broker_error(r, not_found_message(client_id@)),
            self.clients().contains(client_id@) ==> r is Ok || is_broker_error(r, delivery_failed_message()),
    {
        self.broker.send_message(client_id, replicate_reply(reply_id, result_json))
    }

    /// A receiver of the replies to `client_id`; see `WebSocketBroker::subscribe`.
    pub fn subscribe(&mut self, client_id: &str) -> (r: Option<tokio::sync::broadcast::Receiver<String>>)
        requires
            old(self).wf(),
        ensures
            final(self).wf(),
            final(self).clients() == old(self).clients(),
            r is Some <==> old(self).clients().contains(client_id@),
    {
        self.broker.subscribe(client_id)
    }

    /// Forgets `client_id` when its connection closes.
    pub fn handle_disconnection(&mut self, client_id: &str) -> (r: Result<(), DomainError>)
        requires
            old(self).wf(),
        ensures
            final(self).wf(),
            match spec_unregister(old(self).clients(), client_id@) {
                Some(ids) => r is Ok && final(self).clients() == ids,
                None => is_broker_error(r, not_found_message(client_id@)) && final(self).clients() == old(self).clients(),
            },
    {
        self.broker.unregister_client(client_id)
    }
}

} // verus!
