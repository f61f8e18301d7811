use messages_gateway::models::EmailResult;
use messages_gateway::results::append_result;

fn open_event(id: u128) -> EmailResult {
    EmailResult::new(id, "Open".to_string(), serde_json::Value::Null)
}

#[test]
fn result_rows_start_unsaved() {
    let r = EmailResult::new(5, "Bounce".to_string(), serde_json::Value::Bool(true));
    assert_eq!(r.id, 0);
    assert_eq!(r.request_id, 5);
    assert_eq!(r.status, "Bounce");
    assert_eq!(r.raw, serde_json::Value::Bool(true));
    assert_eq!(r.created_at, r.updated_at);
}

#[test]
fn redelivered_result_is_stored_once() {
    let mut log = Vec::new();
    assert!(append_result(&mut log, open_event(1)));
    for _ in 0..5 {
        assert!(!append_result(&mut log, open_event(1)));
    }
    assert_eq!(log.len(), 1);
}

#[test]
fn distinct_keys_are_all_stored() {
    let mut log = Vec::new();
    assert!(append_result(&mut log, open_event(1)));
    assert!(append_result(&mut log, open_event(2)));
    assert!(append_result(&mut log, EmailResult::new(1, "Delivery".to_string(), serde_json::Value::Null)));
    assert!(!append_result(&mut log, EmailResult::new(2, "Open".to_string(), serde_json::Value::Null)));
    assert_eq!(log.len(), 3);
}
