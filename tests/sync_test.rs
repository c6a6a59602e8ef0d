use std::collections::HashMap;

use livesync_proxy::broker::{WebSocketBroker, CLIENT_CHANNEL_CAPACITY};
use livesync_proxy::models::{CouchDbDocument, DomainError, JsonValue, LiveSyncMessage, MessageType};
use livesync_proxy::sync::{SyncCoordinator, SyncStep};

fn s(v: &str) -> JsonValue {
    JsonValue::Str(v.to_string())
}

fn obj(fields: Vec<(&str, JsonValue)>) -> JsonValue {
    JsonValue::Object(fields.into_iter().map(|(k, v)| (k.to_string(), v)).collect())
}

fn message(message_type: MessageType, payload: JsonValue) -> LiveSyncMessage {
    LiveSyncMessage { id: "8a4f2a4e-3c1b-4d7e-9f00-000000000001".to_string(), message_type, payload }
}

fn coordinator() -> SyncCoordinator {
    SyncCoordinator::new(WebSocketBroker::new(CLIENT_CHANNEL_CAPACITY))
}

fn invalid_text<T>(r: Result<T, DomainError>) -> String {
    match r {
        Err(DomainError::InvalidMessage(m)) => m,
        Err(e) => panic!("expected an invalid message error, got {:?}", e),
        Ok(_) => panic!("expected an invalid message error, got success"),
    }
}

fn copy_json(v: &JsonValue) -> JsonValue {
    match v {
        JsonValue::Null => JsonValue::Null,
        JsonValue::Bool(b) => JsonValue::Bool(*b),
        JsonValue::Number(n) => JsonValue::Number(n.clone()),
        JsonValue::Str(t) => JsonValue::Str(t.clone()),
        JsonValue::Array(items) => JsonValue::Array(items.iter().map(copy_json).collect()),
        JsonValue::Object(fields) => {
            JsonValue::Object(fields.iter().map(|(k, v)| (k.clone(), copy_json(v))).collect())
        }
    }
}

fn copy_doc(d: &CouchDbDocument) -> CouchDbDocument {
    CouchDbDocument { id: d.id.clone(), rev: d.rev.clone(), data: copy_json(&d.data) }
}

struct InMemoryCouchDb {
    databases: HashMap<String, HashMap<String, CouchDbDocument>>,
    next_rev: u64,
}

impl InMemoryCouchDb {
    fn new() -> Self {
        InMemoryCouchDb { databases: HashMap::new(), next_rev: 0 }
    }

    fn get_document(&self, db_name: &str, doc_id: &str) -> Result<CouchDbDocument, DomainError> {
        match self.databases.get(db_name).and_then(|db| db.get(doc_id)) {
            Some(doc) => Ok(copy_doc(doc)),
            None => Err(DomainError::CouchDbError(format!("Document {} not found in database {}", doc_id, db_name))),
        }
    }

    fn save_document(&mut self, db_name: &str, doc: CouchDbDocument) -> Result<CouchDbDocument, DomainError> {
        self.next_rev += 1;
        let mut new_doc = copy_doc(&doc);
        new_doc.rev = Some(format!("1-{:08x}", self.next_rev));
        self.databases.entry(db_name.to_string()).or_default().insert(new_doc.id.clone(), copy_doc(&new_doc));
        Ok(new_doc)
    }

    fn delete_document(&mut self, db_name: &str, doc_id: &str, _rev: &str) -> Result<(), DomainError> {
        match self.databases.get_mut(db_name).and_then(|db| db.remove(doc_id)) {
            Some(_) => Ok(()),
            None => Err(DomainError::CouchDbError(format!("Document {} not found in database {}", doc_id, db_name))),
        }
    }
}

#[test]
fn test_save_and_get_document() {
    let mut repo = InMemoryCouchDb::new();
    let doc = CouchDbDocument {
        id: "test-doc".to_string(),
        rev: None,
        data: obj(vec![("name", s("Test Document")), ("content", s("This is a test"))]),
    };

    let saved_doc = repo.save_document("test-db", doc).unwrap();
    let retrieved_doc = repo.get_document("test-db", &saved_doc.id).unwrap();

    assert_eq!(saved_doc.id, retrieved_doc.id);
    assert_eq!(saved_doc.rev, retrieved_doc.rev);
    assert_eq!(saved_doc.data, retrieved_doc.data);
    assert!(retrieved_doc.rev.as_deref().is_some_and(|r| !r.is_empty()));
}

#[test]
fn test_delete_document() {
    let mut repo = InMemoryCouchDb::new();
    let doc = CouchDbDocument { id: "test-doc".to_string(), rev: None, data: obj(vec![("name", s("Test Document"))]) };

    let saved_doc = repo.save_document("test-db", doc).unwrap();
    let _ = repo.get_document("test-db", &saved_doc.id).unwrap();

    repo.delete_document("test-db", &saved_doc.id, saved_doc.rev.as_ref().unwrap()).unwrap();

    let result = repo.get_document("test-db", &saved_doc.id);
    assert!(matches!(result, Err(DomainError::CouchDbError(_))));
}

#[test]
fn test_handle_connection() {
    let mut service = coordinator();
    let msg = message(MessageType::Connection, obj(vec![("client", s("test-client"))]));
    let result = service.handle_message("test-client", msg, "reply-1", 1700000000);
    assert!(result.is_ok());
    match result {
        Ok(SyncStep::Acknowledge { client_id, reply }) => {
            assert_eq!(client_id, "test-client");
            assert!(service.send_reply(&client_id, reply).is_ok());
        }
        _ => panic!("expected an acknowledgement"),
    }
}

#[test]
fn test_handle_sync() {
    let mut service = coordinator();
    service
        .handle_message("test-client", message(MessageType::Connection, JsonValue::Null), "reply-0", 1)
        .unwrap();
    let msg = message(
        MessageType::Sync,
        obj(vec![
            ("database", s("test-db")),
            ("document", obj(vec![("_id", s("test-id")), ("_rev", JsonValue::Null), ("content", s("test content"))])),
        ]),
    );

    let result = service.handle_message("test-client", msg, "reply-1", 2);
    if let Err(ref e) = result {
        println!("Error in handle_sync test: {:?}", e);
    }
    let (database, document) = match result {
        Ok(SyncStep::SaveDocument { database, document: Some(d) }) => (database, d),
        other => panic!("unexpected outcome {:?}", other.is_ok()),
    };
    assert_eq!(database, "test-db");
    assert_eq!(document.id, "test-id");
    assert_eq!(document.rev, None);
    assert_eq!(document.data, obj(vec![("content", s("test content"))]));

    let saved_doc = CouchDbDocument {
        id: "test-id".to_string(),
        rev: Some("1-abc123".to_string()),
        data: obj(vec![("content", s("test content"))]),
    };
    let result = service.complete_document_sync("test-client", "reply-2", &saved_doc);
    assert!(result.is_ok());
}

#[test]
fn test_handle_replication() {
    let mut service = coordinator();
    service
        .handle_message("test-client", message(MessageType::Connection, JsonValue::Null), "reply-0", 1)
        .unwrap();
    let msg = message(
        MessageType::Replicate,
        obj(vec![("source", s("source-db")), ("target", s("target-db")), ("options", obj(vec![]))]),
    );

    match service.handle_message("test-client", msg, "reply-1", 2) {
        Ok(SyncStep::Replicate { source, target, options }) => {
            assert_eq!(source, "source-db");
            assert_eq!(target, "target-db");
            assert_eq!(options, obj(vec![]));
        }
        _ => panic!("expected a replication step"),
    }
    let replication_result = r#"{"ok":true,"docs_read":10,"docs_written":10,"docs_failed":0}"#;
    let result = service.complete_replication("test-client", "reply-2", replication_result);
    assert!(result.is_ok());
}

#[test]
fn test_handle_disconnection() {
    let mut service = coordinator();
    service
        .handle_message("test-client", message(MessageType::Connection, JsonValue::Null), "reply-0", 1)
        .unwrap();
    let result = service.handle_disconnection("test-client");
    assert!(result.is_ok());
    assert!(service.handle_disconnection("test-client").is_err());
}

#[test]
fn end_to_end_connection_then_sync() {
    let mut service = coordinator();
    let r = service.handle_message("c1", message(MessageType::Connection, JsonValue::Null), "r-1", 1700000000);
    match r {
        Ok(SyncStep::Acknowledge { client_id, reply }) => {
            assert_eq!(client_id, "c1");
            service.send_reply(&client_id, reply).unwrap();
        }
        _ => panic!("expected an acknowledgement"),
    }
    let mut rx = service.subscribe("c1").unwrap();
    let ack = rx.try_recv().unwrap();
    assert!(ack.contains(r#""status":"connected""#));
    assert!(ack.contains(r#""client_id":"c1""#));
    let ack_json: serde_json::Value = serde_json::from_str(&ack).unwrap();
    assert_eq!(ack_json["message_type"], "connection");
    assert_eq!(ack_json["id"], "r-1");
    assert_eq!(ack_json["payload"]["timestamp"], 1700000000u64);

    let sync = message(
        MessageType::Sync,
        obj(vec![("database", s("notes")), ("document", obj(vec![("_id", s("n1")), ("content", s("hi"))]))]),
    );
    let document = match service.handle_message("c1", sync, "r-2", 1700000001) {
        Ok(SyncStep::SaveDocument { database, document: Some(d) }) => {
            assert_eq!(database, "notes");
            d
        }
        _ => panic!("expected a save step"),
    };
    let mut repo = InMemoryCouchDb::new();
    let saved = repo.save_document("notes", document).unwrap();
    service.complete_document_sync("c1", "r-3", &saved).unwrap();
    let reply: serde_json::Value = serde_json::from_str(&rx.try_recv().unwrap()).unwrap();
    assert_eq!(reply["message_type"], "sync");
    assert_eq!(reply["payload"]["document_id"], "n1");
    assert!(reply["payload"]["rev"].is_string());
}

#[test]
fn second_connection_with_same_id_is_refused() {
    let mut service = coordinator();
    service.handle_message("c1", message(MessageType::Connection, JsonValue::Null), "r-1", 1).unwrap();
    match service.handle_message("c1", message(MessageType::Connection, JsonValue::Null), "r-2", 2) {
        Err(DomainError::WebSocketError(m)) => assert_eq!(m, "Client c1 already registered"),
        _ => panic!("expected a conflict"),
    }
}

#[test]
fn heartbeat_and_error_need_nothing() {
    let mut service = coordinator();
    assert!(matches!(service.handle_message("c", message(MessageType::Heartbeat, JsonValue::Null), "r", 1), Ok(SyncStep::Done)));
    assert!(matches!(service.handle_message("c", message(MessageType::Error, s("oops")), "r", 1), Ok(SyncStep::Done)));
    assert!(service.subscribe("c").is_none());
}

#[test]
fn malformed_sync_and_replicate_payloads() {
    let mut service = coordinator();
    let r = service.handle_message("c", message(MessageType::Sync, obj(vec![("database", JsonValue::Number("3".to_string()))])), "r", 1);
    assert_eq!(invalid_text(r), "Missing database name");
    let r = service.handle_message("c", message(MessageType::Sync, JsonValue::Null), "r", 1);
    assert_eq!(invalid_text(r), "Missing database name");
    let r = service.handle_message(
        "c",
        message(MessageType::Sync, obj(vec![("database", s("d")), ("document", obj(vec![("content", s("no id"))]))])),
        "r",
        1,
    );
    assert_eq!(invalid_text(r), "Invalid document format");
    let r = service.handle_message(
        "c",
        message(MessageType::Sync, obj(vec![("database", s("d")), ("document", obj(vec![("_id", s("x")), ("_rev", JsonValue::Bool(true))]))])),
        "r",
        1,
    );
    assert_eq!(invalid_text(r), "Invalid document format");
    let r = service.handle_message("c", message(MessageType::Sync, obj(vec![("database", s("d")), ("document", s("text"))])), "r", 1);
    assert_eq!(invalid_text(r), "Invalid document format");
    let r = service.handle_message("c", message(MessageType::Sync, obj(vec![("database", s("d"))])), "r", 1);
    assert!(matches!(r, Ok(SyncStep::SaveDocument { document: None, .. })));
    let r = service.handle_message("c", message(MessageType::Replicate, obj(vec![("target", s("t"))])), "r", 1);
    assert_eq!(invalid_text(r), "Missing source database");
    let r = service.handle_message("c", message(MessageType::Replicate, obj(vec![("source", s("s"))])), "r", 1);
    assert_eq!(invalid_text(r), "Missing target database");
    match service.handle_message("c", message(MessageType::Replicate, obj(vec![("source", s("s")), ("target", s("t"))])), "r", 1) {
        Ok(SyncStep::Replicate { options, .. }) => assert_eq!(options, JsonValue::Null),
        _ => panic!("expected a replication step"),
    }
}

#[test]
fn document_fields_keep_revision_and_data() {
    let fields = vec![
        ("_id".to_string(), s("a")),
        ("title".to_string(), s("t")),
        ("_rev".to_string(), s("2-b")),
        ("n".to_string(), JsonValue::Number("5".to_string())),
    ];
    let d = CouchDbDocument::from_fields(fields).unwrap();
    assert_eq!(d.id, "a");
    assert_eq!(d.rev.as_deref(), Some("2-b"));
    assert_eq!(d.data, obj(vec![("title", s("t")), ("n", JsonValue::Number("5".to_string()))]));
    assert!(CouchDbDocument::from_fields(vec![("_id".to_string(), JsonValue::Number("1".to_string()))]).is_none());
}

#[test]
fn completion_for_unknown_client_is_not_found() {
    let service = coordinator();
    let d = CouchDbDocument { id: "x".to_string(), rev: None, data: JsonValue::Null };
    match service.complete_document_sync("ghost", "r", &d) {
        Err(DomainError::WebSocketError(m)) => assert_eq!(m, "Client ghost not found"),
        _ => panic!("expected not found"),
    }
}

#[test]
fn connection_payload_names_the_client() {
    let mut service = coordinator();
    let msg = message(MessageType::Connection, obj(vec![("client_id", s("c1"))]));
    match service.handle_message("socket-7", msg, "r-1", 5) {
        Ok(SyncStep::Acknowledge { client_id, reply }) => {
            assert_eq!(client_id, "c1");
            let ack: serde_json::Value = serde_json::from_str(&reply).unwrap();
            assert_eq!(ack["payload"]["status"], "connected");
            assert_eq!(ack["payload"]["client_id"], "c1");
            assert_eq!(ack["payload"]["timestamp"], 5);
        }
        _ => panic!("expected an acknowledgement"),
    }
    assert!(service.subscribe("c1").is_some());
    assert!(service.subscribe("socket-7").is_none());
}
