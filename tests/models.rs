use chrono::{DateTime, Duration, Utc};
use messages_gateway::models::{EmailContent, EmailRequest, EmailRequestWithContent};
use messages_gateway::status::EmailStatus;
use messages_gateway::time::Timestamp;

fn instant(t: DateTime<Utc>) -> Timestamp {
    Timestamp { secs: t.timestamp(), nanos: t.timestamp_subsec_nanos() }
}

fn sample_request(content: Option<String>) -> EmailRequestWithContent {
    EmailRequestWithContent {
        id: uuid::Uuid::parse_str("123e4567-e89b-12d3-a456-426614174000").unwrap().as_u128(),
        topic_id: "test-topic".to_string(),
        to_email: "test@example.com".to_string(),
        content_id: 1,
        scheduled_at: None,
        status: EmailStatus::Created,
        error: None,
        created_at: instant(Utc::now()),
        updated_at: instant(Utc::now()),
        subject: Some("Test Subject".to_string()),
        content,
    }
}

#[test]
fn test_email_status_display() {
    assert_eq!(EmailStatus::Created.to_string(), "created");
    assert_eq!(EmailStatus::Processing.to_string(), "processing");
    assert_eq!(EmailStatus::Sent.to_string(), "sent");
    assert_eq!(EmailStatus::Failed.to_string(), "failed");
    assert_eq!(EmailStatus::Stopped.to_string(), "stopped");
}

#[test]
fn test_email_status_transitions() {
    assert!(EmailStatus::Created.can_transition_to(EmailStatus::Processing));
    assert!(EmailStatus::Created.can_transition_to(EmailStatus::Stopped));
    assert!(!EmailStatus::Created.can_transition_to(EmailStatus::Sent));
    assert!(!EmailStatus::Created.can_transition_to(EmailStatus::Failed));

    assert!(EmailStatus::Processing.can_transition_to(EmailStatus::Sent));
    assert!(EmailStatus::Processing.can_transition_to(EmailStatus::Failed));
    assert!(EmailStatus::Processing.can_transition_to(EmailStatus::Stopped));
    assert!(!EmailStatus::Processing.can_transition_to(EmailStatus::Created));
    assert!(!EmailStatus::Processing.can_transition_to(EmailStatus::Processing));

    assert!(EmailStatus::Sent.is_terminal());
    assert!(EmailStatus::Failed.is_terminal());
    assert!(EmailStatus::Stopped.is_terminal());
    assert!(!EmailStatus::Created.is_terminal());
    assert!(!EmailStatus::Processing.is_terminal());
}

#[test]
fn test_email_request_creation() {
    let topic_id = "test-topic".to_string();
    let to_email = "test@example.com".to_string();
    let content_id = 1;
    let scheduled_at = None;

    let request = EmailRequest::new(topic_id.clone(), to_email.clone(), content_id, scheduled_at);

    assert_eq!(request.topic_id, topic_id);
    assert_eq!(request.to_email, to_email);
    assert_eq!(request.content_id, content_id);
    assert_eq!(request.scheduled_at, scheduled_at);
    assert_eq!(request.status, EmailStatus::Created);
    assert_eq!(request.error, None);
}

#[test]
fn test_email_request_status_update() {
    let mut request =
        EmailRequest::new("test-topic".to_string(), "test@example.com".to_string(), 1, None);

    let initial_updated_at = request.updated_at;

    request.update_status(EmailStatus::Processing, None);

    assert_eq!(request.status, EmailStatus::Processing);
    assert_eq!(request.error, None);
    assert!(request.updated_at > initial_updated_at);

    request.update_status(EmailStatus::Failed, Some("Connection timeout".to_string()));

    assert_eq!(request.status, EmailStatus::Failed);
    assert_eq!(request.error, Some("Connection timeout".to_string()));
}

#[test]
fn test_email_request_ready_to_send() {
    let now = Utc::now();

    let request_without_schedule =
        EmailRequest::new("test-topic".to_string(), "test@example.com".to_string(), 1, None);
    assert!(request_without_schedule.is_ready_to_send(instant(now)));

    let request_past_schedule = EmailRequest::new(
        "test-topic".to_string(),
        "test@example.com".to_string(),
        1,
        Some(instant(now - Duration::hours(1))),
    );
    assert!(request_past_schedule.is_ready_to_send(instant(now)));

    let request_future_schedule = EmailRequest::new(
        "test-topic".to_string(),
        "test@example.com".to_string(),
        1,
        Some(instant(now + Duration::hours(1))),
    );
    assert!(!request_future_schedule.is_ready_to_send(instant(now)));

    let mut request_processing =
        EmailRequest::new("test-topic".to_string(), "test@example.com".to_string(), 1, None);
    request_processing.update_status(EmailStatus::Processing, None);
    assert!(!request_processing.is_ready_to_send(instant(now)));
}

#[test]
fn test_email_request_with_content_tracking_pixel() {
    let request = sample_request(Some("Test Content".to_string()));

    let server_host = "http://localhost:3000";
    let tracking_pixel = request.generate_tracking_pixel(server_host);

    assert!(tracking_pixel.starts_with("<img src=\"http://localhost:3000/v1/events/open?requestId="));
    assert!(tracking_pixel.contains("123e4567-e89b-12d3-a456-426614174000"));
    assert!(tracking_pixel.ends_with("\" width=\"1\" height=\"1\" style=\"display:none;\" alt=\"\">"));
}

#[test]
fn test_email_request_with_content_tracking() {
    let request = sample_request(Some("Test Content".to_string()));

    let server_host = "http://localhost:3000";
    let content_with_tracking = request.content_with_tracking(server_host);

    assert!(content_with_tracking.starts_with("Test Content"));
    assert!(content_with_tracking.contains("<img src=\"http://localhost:3000/v1/events/open?requestId="));
    assert!(content_with_tracking.contains("123e4567-e89b-12d3-a456-426614174000"));
}

#[test]
fn test_email_request_with_content_tracking_empty_content() {
    let request = sample_request(Some("".to_string()));

    let server_host = "http://localhost:3000";
    let content_with_tracking = request.content_with_tracking(server_host);

    assert!(content_with_tracking.starts_with("<img src=\"http://localhost:3000/v1/events/open?requestId="));
    assert!(content_with_tracking.contains("123e4567-e89b-12d3-a456-426614174000"));
}

#[test]
fn test_email_request_with_content_tracking_none_content() {
    let request = sample_request(None);

    let server_host = "http://localhost:3000";
    let content_with_tracking = request.content_with_tracking(server_host);

    assert!(content_with_tracking.starts_with("<img src=\"http://localhost:3000/v1/events/open?requestId="));
    assert!(content_with_tracking.contains("123e4567-e89b-12d3-a456-426614174000"));
}

#[test]
fn pixel_only_body_is_exactly_the_pixel_tag() {
    let request = sample_request(Some("".to_string()));
    let body = request.content_with_tracking("https://mail.example.org");
    assert_eq!(
        body,
        "<img src=\"https://mail.example.org/v1/events/open?requestId=123e4567-e89b-12d3-a456-426614174000\" width=\"1\" height=\"1\" style=\"display:none;\" alt=\"\">"
    );
    assert_eq!(body, request.generate_tracking_pixel("https://mail.example.org"));
}

#[test]
fn body_is_content_followed_by_pixel() {
    let request = sample_request(Some("<p>Hello</p>".to_string()));
    let pixel = request.generate_tracking_pixel("http://localhost:3000");
    let body = request.content_with_tracking("http://localhost:3000");
    assert_eq!(body, format!("<p>Hello</p>{}", pixel));
    assert!(body.ends_with(&pixel));
}

#[test]
fn content_is_trimmed_on_creation() {
    let content = EmailContent::new("  Subject line \n".to_string(), "\t Body text  ".to_string());
    assert_eq!(content.id, 0);
    assert_eq!(content.subject, "Subject line");
    assert_eq!(content.content, "Body text");
    assert_eq!(content.created_at, content.updated_at);
}

#[test]
fn request_address_is_trimmed_and_ids_differ() {
    let a = EmailRequest::new(String::new(), "  user@example.com  ".to_string(), 7, None);
    let b = EmailRequest::new(String::new(), "user@example.com".to_string(), 7, None);
    assert_eq!(a.to_email, "user@example.com");
    assert_eq!(a.topic_id, "");
    assert_ne!(a.id, b.id);
}

#[test]
fn status_codes_round_trip() {
    let all = [
        EmailStatus::Created,
        EmailStatus::Processing,
        EmailStatus::Sent,
        EmailStatus::Failed,
        EmailStatus::Stopped,
    ];
    for (i, s) in all.iter().enumerate() {
        assert_eq!(s.code(), i as i16);
        assert_eq!(EmailStatus::from_code(i as i16), Some(*s));
    }
    assert_eq!(EmailStatus::from_code(5), None);
    assert_eq!(EmailStatus::from_code(-1), None);
}

#[test]
fn terminal_states_admit_no_transition() {
    let all = [
        EmailStatus::Created,
        EmailStatus::Processing,
        EmailStatus::Sent,
        EmailStatus::Failed,
        EmailStatus::Stopped,
    ];
    for from in all.iter() {
        if from.is_terminal() {
            for to in all.iter() {
                assert!(!from.can_transition_to(*to));
            }
        }
    }
}

#[test]
fn timestamps_compare_by_seconds_then_nanos() {
    let a = Timestamp { secs: 10, nanos: 999 };
    let b = Timestamp { secs: 11, nanos: 0 };
    let c = Timestamp { secs: 11, nanos: 5 };
    assert!(a.is_before(&b));
    assert!(b.is_before(&c));
    assert!(!c.is_before(&c));
    assert!(c.is_at_or_before(&c));
    assert!(!c.is_at_or_before(&a));
}
