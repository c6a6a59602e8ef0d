use livesync_proxy::broker::{WebSocketBroker, CLIENT_CHANNEL_CAPACITY};
use livesync_proxy::models::DomainError;

fn broker_error_text(r: Result<(), DomainError>) -> String {
    match r {
        Err(DomainError::WebSocketError(m)) => m,
        other => panic!("expected a broker error, got {:?}", other),
    }
}

#[test]
fn test_websocket_broker() {
    let mut broker = WebSocketBroker::new(100);

    broker.register_client("test-client-1").unwrap();
    broker.register_client("test-client-2").unwrap();

    let message = r#"{"type":"test","content":"Hello from test"}"#.to_string();

    let result = broker.send_message("test-client-1", message.clone());
    assert!(result.is_ok());

    let result = broker.send_message("non-existent-client", message.clone());
    assert!(result.is_err());

    broker.unregister_client("test-client-1").unwrap();

    let result = broker.send_message("test-client-1", message.clone());
    assert!(result.is_err());

    let result = broker.send_message("test-client-2", message.clone());
    assert!(result.is_ok());
}

#[test]
fn test_register_duplicate_client() {
    let mut broker = WebSocketBroker::new(100);

    broker.register_client("test-client").unwrap();

    let result = broker.register_client("test-client");
    assert!(result.is_err());

    if let Err(DomainError::WebSocketError(error_msg)) = result {
        assert!(error_msg.contains("already registered"));
    } else {
        panic!("Expected WebSocketError but got different error or success");
    }
}

#[test]
fn test_unregister_nonexistent_client() {
    let mut broker = WebSocketBroker::new(100);

    let result = broker.unregister_client("non-existent-client");
    assert!(result.is_err());

    if let Err(DomainError::WebSocketError(error_msg)) = result {
        assert!(error_msg.contains("not found"));
    } else {
        panic!("Expected WebSocketError but got different error or success");
    }
}

#[test]
fn reregistration_after_unregister_succeeds() {
    let mut broker = WebSocketBroker::new(CLIENT_CHANNEL_CAPACITY);
    broker.register_client("c1").unwrap();
    assert_eq!(broker_error_text(broker.register_client("c1")), "Client c1 already registered");
    assert_eq!(broker.connection_count(), 1);
    broker.unregister_client("c1").unwrap();
    assert_eq!(broker.connection_count(), 0);
    assert!(broker.register_client("c1").is_ok());
    assert_eq!(broker.connection_count(), 1);
}

#[test]
fn missing_client_is_not_found() {
    let mut broker = WebSocketBroker::new(CLIENT_CHANNEL_CAPACITY);
    broker.register_client("present").unwrap();
    assert_eq!(
        broker_error_text(broker.send_message("nonexistent", "{}".to_string())),
        "Client nonexistent not found"
    );
    assert_eq!(broker_error_text(broker.unregister_client("nonexistent")), "Client nonexistent not found");
    assert!(broker.subscribe("nonexistent").is_none());
    assert_eq!(broker.connection_count(), 1);
}

#[test]
fn broadcast_reports_dead_connections_and_delivers_to_the_rest() {
    let mut broker = WebSocketBroker::new(CLIENT_CHANNEL_CAPACITY);
    broker.register_client("a").unwrap();
    broker.register_client("b").unwrap();
    let mut rx_a = broker.subscribe("a").unwrap();
    let rx_b = broker.subscribe("b").unwrap();
    drop(rx_b);

    let failures = broker.broadcast_message(&"hello".to_string());

    assert_eq!(failures.len(), 1);
    assert_eq!(failures[0].0, "b");
    match &failures[0].1 {
        DomainError::WebSocketError(m) => assert_eq!(m, "Failed to send message: channel closed"),
        other => panic!("unexpected error {:?}", other),
    }
    assert_eq!(rx_a.try_recv().unwrap(), "hello");
    assert_eq!(broker.connection_count(), 2);
}

#[test]
fn messages_sent_before_subscribing_are_kept_in_order() {
    let mut broker = WebSocketBroker::new(CLIENT_CHANNEL_CAPACITY);
    broker.register_client("a").unwrap();
    broker.send_message("a", "first".to_string()).unwrap();
    broker.send_message("a", "second".to_string()).unwrap();
    let mut rx = broker.subscribe("a").unwrap();
    assert_eq!(rx.try_recv().unwrap(), "first");
    assert_eq!(rx.try_recv().unwrap(), "second");
    assert!(rx.try_recv().is_err());
}

#[test]
fn broadcast_to_live_clients_fails_nowhere() {
    let mut broker = WebSocketBroker::new(CLIENT_CHANNEL_CAPACITY);
    broker.register_client("a").unwrap();
    broker.register_client("b").unwrap();
    assert!(broker.broadcast_message(&"x".to_string()).is_empty());
}
