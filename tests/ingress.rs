use messages_gateway::error::AppError;
use messages_gateway::ingress::{
    api_key_matches, open_event_request_id, tagged_request_id, window_start, EnvelopeAction,
    RequestCounts, SentCountQuery, SnsMessage,
};
use messages_gateway::time::Timestamp;
use messages_gateway::validation::{
    check_schedule, validate_emails, CreateMessageRequest, MessageRequest,
};

#[test]
fn test_constant_time_comparison() {
    let key1 = "test-key-123";
    let key2 = "test-key-123";
    let key3 = "test-key-124";

    assert!(api_key_matches(key1, key2));
    assert!(!api_key_matches(key1, key3));
    assert!(!api_key_matches(key1, "short"));
    assert!(!api_key_matches(key1, "very-long-key-456"));
}

#[test]
fn empty_key_matches_only_empty() {
    assert!(api_key_matches("", ""));
    assert!(!api_key_matches("", "secret"));
}

#[test]
fn sent_window_defaults_and_bounds() {
    assert_eq!(SentCountQuery { hours: None }.window().unwrap(), 24);
    assert_eq!(SentCountQuery { hours: Some(1) }.window().unwrap(), 1);
    assert_eq!(SentCountQuery { hours: Some(168) }.window().unwrap(), 168);
    for bad in [0, -5, 169] {
        match (SentCountQuery { hours: Some(bad) }).window() {
            Err(AppError::Validation(m)) => assert_eq!(m, "hours must be between 1 and 168"),
            other => panic!("unexpected {:?}", other),
        }
    }
}

#[test]
fn window_start_goes_back_whole_hours() {
    let now = Timestamp { secs: 1_000_000, nanos: 17 };
    assert_eq!(window_start(now, 2), Timestamp { secs: 1_000_000 - 7200, nanos: 17 });
}

#[test]
fn request_counts_ignore_processing_and_unknown_codes() {
    let rows = vec![(0i16, Some(3i64)), (1, Some(4)), (2, Some(5)), (3, None), (4, Some(1)), (7, Some(9))];
    assert_eq!(
        RequestCounts::from_counts(13, &rows),
        RequestCounts { total: 13, created: 3, sent: 5, failed: 0, stopped: 1 }
    );
    assert_eq!(
        RequestCounts::from_counts(0, &rows),
        RequestCounts { total: 0, created: 0, sent: 0, failed: 0, stopped: 0 }
    );
}

fn envelope(kind: &str) -> SnsMessage {
    SnsMessage {
        message_type: kind.to_string(),
        message: "{}".to_string(),
        message_id: "m-1".to_string(),
        subscribe_url: None,
    }
}

#[test]
fn envelopes_are_classified_by_type() {
    assert_eq!(envelope("SubscriptionConfirmation").action(), EnvelopeAction::ConfirmSubscription);
    assert_eq!(envelope("Notification").action(), EnvelopeAction::Record);
    assert_eq!(envelope("UnsubscribeConfirmation").action(), EnvelopeAction::Ignore);
}

#[test]
fn request_ids_are_read_from_tags_and_pixel_hits() {
    let text = "123e4567-e89b-12d3-a456-426614174000".to_string();
    let expected = 0x123e4567_e89b_12d3_a456_426614174000u128;
    assert_eq!(tagged_request_id(Some(&vec![text.clone(), "other".to_string()])).unwrap(), expected);
    assert_eq!(open_event_request_id(Some(&text)), Some(expected));
    assert_eq!(open_event_request_id(Some(&"not-a-uuid".to_string())), None);
    assert_eq!(open_event_request_id(None), None);
    assert!(matches!(tagged_request_id(Some(&vec!["zzz".to_string()])), Err(AppError::Uuid(_))));
    for missing in [None, Some(&Vec::new())] {
        match tagged_request_id(missing) {
            Err(AppError::Validation(m)) => assert_eq!(m, "Custom message_id not found in tags"),
            other => panic!("unexpected {:?}", other),
        }
    }
}

#[test]
fn email_validation_reports_the_first_problem() {
    let ok = vec!["a@example.com".to_string(), " b.c+d@mail.example.org ".to_string()];
    assert!(validate_emails(&ok).is_ok());
    assert_eq!(validate_emails(&vec!["a@example.com".to_string(), "   ".to_string()]), Err("email_empty".to_string()));
    let long = format!("{}@example.com", "a".repeat(250));
    assert_eq!(validate_emails(&vec![long]), Err("email_too_long".to_string()));
    assert_eq!(
        validate_emails(&vec!["no-at-sign".to_string(), "".to_string()]),
        Err("email_invalid_format".to_string())
    );
}

fn message(topic: Option<&str>, emails: &[&str], subject: &str, content: &str) -> MessageRequest {
    MessageRequest {
        topic_id: topic.map(|t| t.to_string()),
        emails: emails.iter().map(|e| e.to_string()).collect(),
        subject: subject.to_string(),
        content: content.to_string(),
        scheduled_at: None,
    }
}

fn validation_message(r: Result<(), AppError>) -> String {
    match r {
        Err(AppError::Validation(m)) => m,
        other => panic!("unexpected {:?}", other),
    }
}

#[test]
fn message_validation_checks_each_field() {
    assert!(message(Some("promo_2024-q1"), &["a@example.com"], "Hi", "Body").validate().is_ok());
    assert!(message(None, &["a@example.com"], "Hi", "Body").validate().is_ok());
    let long_topic = "t".repeat(51);
    assert_eq!(
        validation_message(message(Some(&long_topic), &["a@example.com"], "Hi", "Body").validate()),
        "Topic ID must be between 0 and 50 characters"
    );
    assert_eq!(
        validation_message(message(Some("bad topic!"), &["a@example.com"], "Hi", "Body").validate()),
        "Topic ID must contain only alphanumeric characters, hyphens, and underscores"
    );
    assert_eq!(
        validation_message(message(None, &[], "Hi", "Body").validate()),
        "Must have between 1 and 1000 emails"
    );
    assert_eq!(
        validation_message(message(None, &["nope"], "Hi", "Body").validate()),
        "Invalid email address"
    );
    assert_eq!(
        validation_message(message(None, &["a@example.com"], "", "Body").validate()),
        "Subject must be between 1 and 255 characters"
    );
    let long_subject = "é".repeat(256);
    assert!(message(None, &["a@example.com"], &"é".repeat(255), "Body").validate().is_ok());
    assert_eq!(
        validation_message(message(None, &["a@example.com"], &long_subject, "Body").validate()),
        "Subject must be between 1 and 255 characters"
    );
    assert_eq!(
        validation_message(message(None, &["a@example.com"], "Hi", "").validate()),
        "Content must be between 1 and 65535 characters"
    );
}

#[test]
fn batch_validation_bounds_message_count() {
    let one = message(None, &["a@example.com"], "Hi", "Body");
    assert!(CreateMessageRequest { messages: vec![one.clone()] }.validate().is_ok());
    assert_eq!(
        validation_message(CreateMessageRequest { messages: vec![] }.validate()),
        "Must have between 1 and 100 messages"
    );
    assert_eq!(
        validation_message(CreateMessageRequest { messages: vec![one.clone(); 101] }.validate()),
        "Must have between 1 and 100 messages"
    );
    let bad = message(None, &["a@example.com"], "", "Body");
    assert!(CreateMessageRequest { messages: vec![one, bad] }.validate().is_err());
}

#[test]
fn plan_trims_and_defaults_topic() {
    let m = message(None, &["  a@example.com ", "b@example.com"], "  Subject ", " Body \n");
    let plan = m.plan();
    assert_eq!(plan.subject, "Subject");
    assert_eq!(plan.content, "Body");
    assert_eq!(plan.topic_id, "");
    assert_eq!(plan.emails, vec!["a@example.com".to_string(), "b@example.com".to_string()]);
    assert_eq!(plan.scheduled_at, None);
}

#[test]
fn schedule_more_than_an_hour_old_is_refused() {
    let now = Timestamp { secs: 10_000, nanos: 500 };
    assert!(check_schedule(None, now).is_ok());
    assert!(check_schedule(Some(Timestamp { secs: 10_000 - 3600, nanos: 500 }), now).is_ok());
    assert_eq!(
        validation_message(check_schedule(Some(Timestamp { secs: 10_000 - 3600, nanos: 499 }), now)),
        "Scheduled time cannot be more than 1 hour in the past"
    );
    assert!(check_schedule(Some(Timestamp { secs: 20_000, nanos: 0 }), now).is_ok());
}

#[test]
fn errors_map_to_responses() {
    let cases = vec![
        (AppError::Database("pool timed out".to_string()), 500, "Database error", true),
        (AppError::Validation("bad".to_string()), 400, "bad", false),
        (AppError::NotFound("gone".to_string()), 404, "gone", false),
        (AppError::Unauthorized, 401, "Unauthorized", false),
        (AppError::Internal("oops".to_string()), 500, "Internal server error", true),
        (AppError::Nats("down".to_string()), 500, "Message queue error", true),
        (AppError::Json("eof".to_string()), 400, "Invalid JSON", false),
        (AppError::Uuid("len".to_string()), 500, "UUID generation error", true),
        (AppError::TimeParse("fmt".to_string()), 400, "Invalid time format", false),
        (AppError::Config("missing".to_string()), 500, "Configuration error", true),
        (AppError::Io("eof".to_string()), 500, "IO error", true),
        (AppError::Semaphore("closed".to_string()), 500, "Semaphore error", true),
    ];
    for (e, status, message, log) in cases {
        assert_eq!(e.response_parts(), (status, message.to_string(), log));
    }
    assert_eq!(
        AppError::Internal("a".to_string()).response_parts(),
        AppError::Internal("b".to_string()).response_parts()
    );
    assert_eq!(AppError::Internal("a".to_string()).to_string(), "Internal server error: a");
    assert_eq!(AppError::Nats("down".to_string()).to_string(), "NATS error: down");
    assert_eq!(AppError::Unauthorized.to_string(), "Unauthorized");
    assert_eq!(AppError::Validation("x".to_string()).to_string(), "Validation error: x");
}
